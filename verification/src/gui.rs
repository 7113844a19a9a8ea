//! Drawable components and the screen that renders them.
//!
//! Each component says what its rendering is; the screen draws every
//! component in order and hands the renderings to the caller, who decides
//! where they go.

use vstd::prelude::*;
use vstd::string::StringExecFns;

use crate::decimal::{decimal_chars, push_decimal};

verus! {

/// A component that can be drawn.
pub trait Draw {
    /// The text the component renders to.
    spec fn drawn(&self) -> Seq<char>;

    /// Draws the component, yielding its rendering.
    fn draw(&self) -> (r: String)
        ensures
            r@ == self.drawn(),
    ;
}

/// A screen full of drawable components.
pub struct Screen<T: Draw> {
    /// The components, rendered in order.
    pub components: Vec<T>,
}

impl<T: Draw> Screen<T> {
    /// Draws every component, in order, and returns the renderings.
    pub fn run(&self) -> (r: Vec<String>)
        ensures
            r@.len() == self.components@.len(),
            forall|i: int|
                0 <= i < r@.len() ==> (#[trigger] r@[i])@ == self.components@[i].drawn(),
    {
        let mut out: Vec<String> = Vec::new();
        let mut idx: usize = 0;
        while idx < self.components.len()
            invariant
                idx <= self.components@.len(),
                out@.len() == idx,
                forall|i: int|
                    0 <= i < out@.len() ==> (#[trigger] out@[i])@ == self.components@[i].drawn(),
            decreases self.components@.len() - idx,
        {
            out.push(self.components[idx].draw());
            idx = idx + 1;
        }
        out
    }
}

/// A push button.
pub struct Button {
    /// The button's width.
    pub width: u32,
    /// The button's height.
    pub height: u32,
    /// The button's label.
    pub label: String,
}

impl Draw for Button {
    open spec fn drawn(&self) -> Seq<char> {
        "button with label = "@ + self.label@ + ", width = "@ + decimal_chars(self.width as int)
            + ", height = "@ + decimal_chars(self.height as int)
    }

    fn draw(&self) -> (r: String) {
        let mut out: String = String::new();
        out.append("button with label = ");
        out.append(self.label.as_str());
        out.append(", width = ");
        push_decimal(self.width, &mut out);
        out.append(", height = ");
        push_decimal(self.height, &mut out);
        proof {
            assert(out@ =~= self.drawn());
        }
        out
    }
}

/// A selection box.
pub struct SelectBox {
    /// The box's width.
    pub width: u32,
    /// The box's height.
    pub height: u32,
    /// The choices on offer.
    pub options: Vec<String>,
}

impl Draw for SelectBox {
    open spec fn drawn(&self) -> Seq<char> {
        "select box with width = "@ + decimal_chars(self.width as int) + ", height = "@
            + decimal_chars(self.height as int)
    }

    fn draw(&self) -> (r: String) {
        let mut out: String = String::new();
        out.append("select box with width = ");
        push_decimal(self.width, &mut out);
        out.append(", height = ");
        push_decimal(self.height, &mut out);
        proof {
            assert(out@ =~= self.drawn());
        }
        out
    }
}

} // verus!
