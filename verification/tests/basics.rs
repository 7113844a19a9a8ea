use request_framer::decimal::decimal_string;
use request_framer::gui::{Button, Draw, Screen, SelectBox};
use request_framer::largest::{largest, largest_without_generics};
use request_framer::rect::{area, area_struct, area_tuple, Rectangle};
use request_framer::slices;
use request_framer::strings::{
    calculate_length, change, change2, gives_ownership, takes_and_gives_back,
};
use request_framer::words;

#[test]
fn largest_of_numbers() {
    let number_list = vec![34, 50, 25, 100, 43];
    assert_eq!(largest_without_generics(&number_list), 100);
    assert_eq!(largest(&number_list), 100);
}

#[test]
fn largest_of_chars() {
    let char_list = vec!['a', 'b', 'y', 'd'];
    assert_eq!(largest(&char_list), 'y');
}

#[test]
fn first_word_index() {
    let s = String::from("hello world");
    assert_eq!(words::first_word(&s), 5);
    let t = String::from("hello");
    assert_eq!(words::first_word(&t), 5);
}

#[test]
fn first_word_slice() {
    let s = String::from("hello world");
    assert_eq!(slices::first_word(&s), "hello");
    let t = String::from("nospace");
    assert_eq!(slices::first_word(&t), "nospace");
}

#[test]
fn string_utilities() {
    let s1 = String::from("Wake up");
    assert_eq!(calculate_length(&s1), 7);
    let mut s2 = String::from("Wake up");
    change(&mut s2);
    assert_eq!(s2, "Wake up, Neo!");
    let mut s3 = String::from("Wake up");
    change2(&mut s3);
    assert_eq!(s3, "Wake up, Neo!");
    assert_eq!(gives_ownership(), "yours");
    let s4 = String::from("Wake up");
    assert_eq!(takes_and_gives_back(s4), "Wake up");
}

#[test]
fn rectangle_areas() {
    assert_eq!(area(30, 50), 1500);
    assert_eq!(area_tuple((30, 50)), 1500);
    let rect = Rectangle { width: 30, height: 50 };
    assert_eq!(area_struct(&rect), 1500);
}

#[test]
fn decimal_renderings() {
    assert_eq!(decimal_string(0), "0");
    assert_eq!(decimal_string(7878), "7878");
    assert_eq!(decimal_string(4294967295), "4294967295");
}

#[test]
fn screen_draws_components_in_order() {
    let screen = Screen {
        components: vec![
            Button {
                width: 30,
                height: 50,
                label: String::from("OK"),
            },
            Button {
                width: 10,
                height: 20,
                label: String::from("Cancel"),
            },
        ],
    };
    let drawn = screen.run();
    assert_eq!(
        drawn,
        vec![
            "button with label = OK, width = 30, height = 50".to_string(),
            "button with label = Cancel, width = 10, height = 20".to_string(),
        ]
    );
}

#[test]
fn select_box_draws() {
    let sb = SelectBox {
        width: 75,
        height: 10,
        options: vec![String::from("Yes"), String::from("No")],
    };
    assert_eq!(sb.draw(), "select box with width = 75, height = 10");
    assert_eq!(sb.options.len(), 2);
}
