//! Line-oriented framing of a request stream's header block.
//!
//! A request stream is a sequence of bytes.  Its lines end at line feeds; a
//! line that was newline-terminated loses one trailing carriage return, as a
//! buffered line reader would strip it.  The header block is the run of
//! non-empty lines before the first empty line; the bytes past that empty
//! line belong to the body and are never touched.

use vstd::prelude::*;
use vstd::slice::{slice_index_get, slice_subrange, slice_to_vec};
use vstd::utf8::{decode_utf8, valid_utf8};

use crate::errors::LineDecodeError;

verus! {

/// Length of the prefix of `s` that comes before the first occurrence of
/// `b` (the whole of `s` when `b` does not occur).
pub open spec fn prefix_until<T>(s: Seq<T>, b: T) -> int
    decreases s.len(),
{
    if s.len() == 0 {
        0
    } else if s[0] == b {
        0
    } else {
        1 + prefix_until(s.skip(1), b)
    }
}

/// `prefix_until` is an index into `s` (or its length), everything before it
/// differs from `b`, and it lands on `b` whenever it is a proper index.
pub proof fn lemma_prefix_until_bounds<T>(s: Seq<T>, b: T)
    ensures
        0 <= prefix_until(s, b) <= s.len(),
        forall|i: int| 0 <= i < prefix_until(s, b) ==> s[i] != b,
        prefix_until(s, b) < s.len() ==> s[prefix_until(s, b)] == b,
    decreases s.len(),
{
    if s.len() == 0 {
    } else if s[0] == b {
    } else {
        lemma_prefix_until_bounds(s.skip(1), b);
        assert forall|i: int| 0 <= i < prefix_until(s, b) implies s[i] != b by {
            if i > 0 {
                assert(s.skip(1)[i - 1] == s[i]);
            }
        }
        if prefix_until(s, b) < s.len() {
            assert(s.skip(1)[prefix_until(s, b) - 1] == s[prefix_until(s, b)]);
        }
    }
}

/// `prefix_until` is pinned by any index with its characteristic properties.
pub proof fn lemma_prefix_until_is_first<T>(s: Seq<T>, b: T, k: int)
    requires
        0 <= k <= s.len(),
        forall|i: int| 0 <= i < k ==> s[i] != b,
        k < s.len() ==> s[k] == b,
    ensures
        prefix_until(s, b) == k,
    decreases s.len(),
{
    if s.len() == 0 {
    } else if k == 0 {
    } else {
        assert(s[0] != b);
        assert forall|i: int| 0 <= i < k - 1 implies s.skip(1)[i] != b by {
            assert(s.skip(1)[i] == s[i + 1]);
        }
        if k - 1 < s.len() - 1 {
            assert(s.skip(1)[k - 1] == s[k]);
        }
        lemma_prefix_until_is_first(s.skip(1), b, k - 1);
    }
}

/// Index just past the first line of `s`: past its line feed when the line
/// is newline-terminated, the end of the stream otherwise.
pub open spec fn line_span(s: Seq<u8>) -> int {
    if prefix_until(s, 10) < s.len() {
        prefix_until(s, 10) + 1
    } else {
        prefix_until(s, 10)
    }
}

/// The text bytes of the first line of `s`: the bytes before the first line
/// feed, less one trailing carriage return when the line was
/// newline-terminated.
pub open spec fn first_line(s: Seq<u8>) -> Seq<u8> {
    let raw = s.take(prefix_until(s, 10));
    if prefix_until(s, 10) < s.len() && raw.len() > 0 && raw.last() == 13 {
        raw.drop_last()
    } else {
        raw
    }
}

/// A non-empty stream always yields a first line of positive span.
pub proof fn lemma_line_span_bounds(s: Seq<u8>)
    requires
        s.len() > 0,
    ensures
        1 <= line_span(s) <= s.len(),
{
    lemma_prefix_until_bounds(s, 10);
}

/// Every line of the stream, in arrival order.
pub open spec fn stream_lines(s: Seq<u8>) -> Seq<Seq<u8>>
    decreases s.len(),
    via stream_lines_decreases
{
    if s.len() == 0 {
        Seq::empty()
    } else {
        seq![first_line(s)] + stream_lines(s.skip(line_span(s)))
    }
}

#[via_fn]
proof fn stream_lines_decreases(s: Seq<u8>) {
    if s.len() > 0 {
        lemma_line_span_bounds(s);
    }
}

/// The header block of the stream: its lines up to, and excluding, the
/// first empty line; all of its lines when no empty line occurs.
pub open spec fn header_lines(s: Seq<u8>) -> Seq<Seq<u8>>
    decreases s.len(),
    via header_lines_decreases
{
    if s.len() == 0 {
        Seq::empty()
    } else if first_line(s).len() == 0 {
        Seq::empty()
    } else {
        seq![first_line(s)] + header_lines(s.skip(line_span(s)))
    }
}

#[via_fn]
proof fn header_lines_decreases(s: Seq<u8>) {
    if s.len() > 0 {
        lemma_line_span_bounds(s);
    }
}

/// The number of stream bytes that belong to the header block: everything
/// up to and including the first empty line, or the whole stream when no
/// empty line occurs.
pub open spec fn header_span(s: Seq<u8>) -> int
    decreases s.len(),
    via header_span_decreases
{
    if s.len() == 0 {
        0
    } else if first_line(s).len() == 0 {
        line_span(s)
    } else {
        line_span(s) + header_span(s.skip(line_span(s)))
    }
}

#[via_fn]
proof fn header_span_decreases(s: Seq<u8>) {
    if s.len() > 0 {
        lemma_line_span_bounds(s);
    }
}

/// Whether an empty line ends the header block before the stream runs out.
pub open spec fn header_terminated(s: Seq<u8>) -> bool
    decreases s.len(),
    via header_terminated_decreases
{
    if s.len() == 0 {
        false
    } else if first_line(s).len() == 0 {
        true
    } else {
        header_terminated(s.skip(line_span(s)))
    }
}

#[via_fn]
proof fn header_terminated_decreases(s: Seq<u8>) {
    if s.len() > 0 {
        lemma_line_span_bounds(s);
    }
}

/// Every line of the header block is valid UTF-8.
pub open spec fn header_decodes(s: Seq<u8>) -> bool {
    forall|i: int| 0 <= i < header_lines(s).len() ==> valid_utf8(#[trigger] header_lines(s)[i])
}

/// The header block never reaches past the end of the stream.
pub proof fn lemma_header_span_bounds(s: Seq<u8>)
    ensures
        0 <= header_span(s) <= s.len(),
    decreases s.len(),
{
    if s.len() > 0 {
        lemma_line_span_bounds(s);
        if first_line(s).len() > 0 {
            lemma_header_span_bounds(s.skip(line_span(s)));
        }
    }
}

/// Unfolds the header functions across one non-empty line.
proof fn lemma_header_step(t: Seq<u8>)
    requires
        t.len() > 0,
        first_line(t).len() > 0,
    ensures
        1 <= line_span(t) <= t.len(),
        header_lines(t) == seq![first_line(t)] + header_lines(t.skip(line_span(t))),
        header_span(t) == line_span(t) + header_span(t.skip(line_span(t))),
        header_terminated(t) == header_terminated(t.skip(line_span(t))),
        header_decodes(t) <==> (valid_utf8(first_line(t)) && header_decodes(
            t.skip(line_span(t)),
        )),
{
    lemma_line_span_bounds(t);
    let rest = t.skip(line_span(t));
    let ht = header_lines(t);
    assert(ht == seq![first_line(t)] + header_lines(rest));
    if valid_utf8(first_line(t)) && header_decodes(rest) {
        assert forall|i: int| 0 <= i < ht.len() implies valid_utf8(#[trigger] ht[i]) by {
            if i == 0 {
                assert(ht[0] == first_line(t));
            } else {
                assert(ht[i] == header_lines(rest)[i - 1]);
            }
        }
    }
    if header_decodes(t) {
        assert(ht[0] == first_line(t));
        assert(valid_utf8(first_line(t)));
        assert forall|i: int| 0 <= i < header_lines(rest).len() implies valid_utf8(
            #[trigger] header_lines(rest)[i],
        ) by {
            assert(ht[i + 1] == header_lines(rest)[i]);
        }
    }
}

/// Unfolds the header functions at the terminating empty line.
proof fn lemma_header_end(t: Seq<u8>)
    requires
        t.len() > 0,
        first_line(t).len() == 0,
    ensures
        1 <= line_span(t) <= t.len(),
        header_lines(t) == Seq::<Seq<u8>>::empty(),
        header_span(t) == line_span(t),
        header_terminated(t),
        header_decodes(t),
{
    lemma_line_span_bounds(t);
}

/// The line terminator used when a header block is written out: a bare line
/// feed, or a carriage return and line feed.
pub open spec fn line_term(crlf: bool) -> Seq<u8> {
    if crlf {
        seq![13u8, 10u8]
    } else {
        seq![10u8]
    }
}

/// The byte encoding of a header block: each line followed by the line
/// terminator, then one empty line.
pub open spec fn encode_header(lines: Seq<Seq<u8>>, crlf: bool) -> Seq<u8>
    decreases lines.len(),
{
    if lines.len() == 0 {
        line_term(crlf)
    } else {
        lines[0] + line_term(crlf) + encode_header(lines.skip(1), crlf)
    }
}

/// A line that framing returns unchanged: non-empty, free of line feeds,
/// and not ending in a carriage return.
pub open spec fn plain_line(l: Seq<u8>) -> bool {
    &&& l.len() > 0
    &&& forall|i: int| 0 <= i < l.len() ==> l[i] != 10
    &&& l.last() != 13
}

/// Framing recovers an encoded header block exactly: any stream made of
/// plain lines, one empty line, and arbitrary trailing bytes frames to
/// those very lines in order, the block ends at the empty line, and not one
/// trailing byte is counted as consumed.
pub proof fn lemma_header_round_trip(lines: Seq<Seq<u8>>, crlf: bool, trailing: Seq<u8>)
    requires
        forall|i: int| 0 <= i < lines.len() ==> plain_line(#[trigger] lines[i]),
    ensures
        header_lines(encode_header(lines, crlf) + trailing) == lines,
        header_span(encode_header(lines, crlf) + trailing) == encode_header(lines, crlf).len(),
        header_terminated(encode_header(lines, crlf) + trailing),
    decreases lines.len(),
{
    let s = encode_header(lines, crlf) + trailing;
    if lines.len() == 0 {
        if crlf {
            assert(s[0] == 13);
            assert(s[1] == 10);
            lemma_prefix_until_is_first(s, 10, 1);
            assert(s.take(1) =~= seq![13u8]);
            assert(first_line(s) =~= Seq::<u8>::empty());
            assert(line_span(s) == 2);
        } else {
            assert(s[0] == 10);
            lemma_prefix_until_is_first(s, 10, 0);
            assert(s.take(0) =~= Seq::<u8>::empty());
            assert(first_line(s) =~= Seq::<u8>::empty());
            assert(line_span(s) == 1);
        }
        lemma_header_end(s);
        assert(header_lines(s) =~= lines);
    } else {
        let l0 = lines[0];
        let tail_enc = encode_header(lines.skip(1), crlf);
        let n = l0.len() as int;
        let termlen = line_term(crlf).len() as int;
        assert(s =~= l0 + line_term(crlf) + (tail_enc + trailing));
        let e = n + termlen - 1;
        assert forall|i: int| 0 <= i < e implies s[i] != 10 by {
            if i < n {
                assert(s[i] == l0[i]);
            } else {
                assert(s[i] == 13);
            }
        }
        assert(s[e] == 10);
        lemma_prefix_until_is_first(s, 10, e);
        if crlf {
            assert(s.take(e) =~= l0 + seq![13u8]);
        } else {
            assert(s.take(e) =~= l0);
        }
        assert(first_line(s) =~= l0);
        assert(line_span(s) == n + termlen);
        let rest = s.skip(line_span(s));
        assert(rest =~= tail_enc + trailing);
        assert forall|i: int| 0 <= i < lines.skip(1).len() implies plain_line(
            #[trigger] lines.skip(1)[i],
        ) by {
            assert(lines.skip(1)[i] == lines[i + 1]);
        }
        lemma_header_round_trip(lines.skip(1), crlf, trailing);
        lemma_header_step(s);
        assert(header_lines(s) =~= lines);
        assert(encode_header(lines, crlf).len() == n + termlen + tail_enc.len());
    }
}

/// A stream with no empty line frames to all of its lines: nothing is lost,
/// every byte is consumed, and running out of bytes is not an error.
pub proof fn lemma_unterminated_stream(s: Seq<u8>)
    requires
        forall|i: int|
            0 <= i < stream_lines(s).len() ==> (#[trigger] stream_lines(s)[i]).len() > 0,
    ensures
        header_lines(s) == stream_lines(s),
        header_span(s) == s.len(),
        !header_terminated(s),
    decreases s.len(),
{
    if s.len() > 0 {
        lemma_line_span_bounds(s);
        let rest = s.skip(line_span(s));
        assert(stream_lines(s) == seq![first_line(s)] + stream_lines(rest));
        assert(stream_lines(s)[0] == first_line(s));
        assert forall|i: int| 0 <= i < stream_lines(rest).len() implies (#[trigger] stream_lines(
            rest,
        )[i]).len() > 0 by {
            assert(stream_lines(s)[i + 1] == stream_lines(rest)[i]);
        }
        lemma_unterminated_stream(rest);
        lemma_header_step(s);
        assert(header_lines(s) =~= stream_lines(s));
    }
}

/// The framed header block of one request stream.
pub struct HeaderBlock {
    /// The header lines in arrival order, each decoded from its bytes.
    pub lines: Vec<String>,
    /// How many leading bytes of the stream the header block occupied.
    pub consumed: usize,
    /// Whether an empty line ended the block, rather than end of stream.
    pub terminated: bool,
}

/// Relies on `String::from_utf8`: it returns the string decoded from the
/// given bytes exactly when they are valid UTF-8, and an error otherwise.
#[verifier::external_body]
fn bytes_to_text(bytes: Vec<u8>) -> (r: Option<String>)
    ensures
        r is Some <==> valid_utf8(bytes@),
        r matches Some(s) ==> s@ == decode_utf8(bytes@),
{
    match String::from_utf8(bytes) {
        Ok(s) => Some(s),
        Err(_) => None,
    }
}

/// Reads the header block off the front of a request stream.
///
/// The stream's header lines — the lines before its first empty line — come
/// back in arrival order, decoded from their bytes, together with how many
/// bytes they spanned and whether an empty line closed the block.  Bytes
/// past the empty line are neither decoded nor counted.  A stream that ends
/// before any empty line yields all of its lines without error; a header
/// line that is not valid text is a `LineDecodeError`.
pub fn read_header_lines(data: &[u8]) -> (r: Result<HeaderBlock, LineDecodeError>)
    ensures
        r is Ok <==> header_decodes(data@),
        r matches Ok(h) ==> h.lines@.len() == header_lines(data@).len(),
        r matches Ok(h) ==> forall|i: int|
            0 <= i < h.lines@.len() ==> (#[trigger] h.lines@[i])@ == decode_utf8(
                header_lines(data@)[i],
            ),
        r matches Ok(h) ==> h.consumed == header_span(data@),
        r matches Ok(h) ==> h.terminated == header_terminated(data@),
{
    let ghost s = data@;
    let mut lines: Vec<String> = Vec::new();
    let mut pos: usize = 0;
    proof {
        assert(s.skip(0) =~= s);
        assert(header_lines(s).skip(0) =~= header_lines(s));
    }
    loop
        invariant
            pos <= data@.len(),
            data@ == s,
            lines@.len() <= header_lines(s).len(),
            header_lines(s).skip(lines@.len() as int) == header_lines(s.skip(pos as int)),
            forall|i: int|
                0 <= i < lines@.len() ==> valid_utf8(#[trigger] header_lines(s)[i]) && lines@[i]@
                    == decode_utf8(header_lines(s)[i]),
            header_span(s) == pos + header_span(s.skip(pos as int)),
            header_terminated(s) == header_terminated(s.skip(pos as int)),
        decreases data@.len() - pos,
    {
        let ghost t = s.skip(pos as int);
        let ghost k = lines@.len() as int;
        if pos == data.len() {
            proof {
                assert(t =~= Seq::<u8>::empty());
                assert(header_lines(s).skip(k) =~= Seq::<Seq<u8>>::empty());
                assert(header_lines(s).len() == k);
                assert(header_decodes(s)) by {
                    assert forall|i: int| 0 <= i < header_lines(s).len() implies valid_utf8(
                        #[trigger] header_lines(s)[i],
                    ) by {}
                }
            }
            return Ok(HeaderBlock { lines, consumed: pos, terminated: false });
        }
        // Find the line feed that ends the current line, if any.
        let mut j: usize = pos;
        while j < data.len() && *slice_index_get(data, j) != 10
            invariant
                pos <= j <= data@.len(),
                data@ == s,
                forall|m: int| pos <= m < j ==> s[m] != 10,
            decreases data@.len() - j,
        {
            j = j + 1;
        }
        proof {
            assert forall|i: int| 0 <= i < j - pos implies t[i] != 10 by {
                assert(t[i] == s[pos + i]);
            }
            if (j as int) < s.len() {
                assert(t[j - pos] == s[j as int]);
            }
            lemma_prefix_until_is_first(t, 10, j - pos);
        }
        let has_newline: bool = j < data.len();
        // Strip one carriage return from a newline-terminated line.
        let mut end: usize = j;
        if has_newline && end > pos && *slice_index_get(data, end - 1) == 13 {
            end = end - 1;
        }
        proof {
            assert(t.take(j - pos) =~= s.subrange(pos as int, j as int));
            if end < j {
                assert(t.take(j - pos).last() == s[j - 1]);
                assert(t.take(j - pos).drop_last() =~= s.subrange(pos as int, end as int));
            }
            assert(first_line(t) =~= s.subrange(pos as int, end as int));
        }
        if end == pos {
            // The empty line: the header block ends just past its line feed.
            proof {
                lemma_header_end(t);
                assert(line_span(t) == j - pos + 1);
                assert(header_lines(s).len() == k);
                assert(header_decodes(s)) by {
                    assert forall|i: int| 0 <= i < header_lines(s).len() implies valid_utf8(
                        #[trigger] header_lines(s)[i],
                    ) by {}
                }
            }
            return Ok(HeaderBlock { lines, consumed: j + 1, terminated: true });
        }
        let line_bytes: Vec<u8> = slice_to_vec(slice_subrange(data, pos, end));
        proof {
            lemma_header_step(t);
            assert(header_lines(t).len() >= 1);
            assert(header_lines(s).skip(k).len() == header_lines(s).len() - k);
            assert(header_lines(s).skip(k)[0] == header_lines(s)[0 + k]);
            assert(header_lines(t)[0] == first_line(t));
        }
        match bytes_to_text(line_bytes) {
            Some(text) => {
                let next: usize = if has_newline {
                    j + 1
                } else {
                    j
                };
                proof {
                    let rest = t.skip(line_span(t));
                    assert(line_span(t) == next - pos);
                    assert(rest =~= s.skip(next as int)) by {
                        assert forall|i: int| 0 <= i < rest.len() implies rest[i] == s.skip(
                            next as int,
                        )[i] by {
                            assert(rest[i] == t[line_span(t) + i]);
                            assert(t[line_span(t) + i] == s[pos + line_span(t) + i]);
                        }
                    }
                    assert(header_lines(s).skip(k + 1) =~= header_lines(rest)) by {
                        assert(header_lines(s).skip(k).len() == header_lines(t).len());
                        assert forall|i: int|
                            0 <= i < header_lines(s).len() - (k + 1) implies header_lines(s).skip(
                            k + 1,
                        )[i] == header_lines(rest)[i] by {
                            assert(header_lines(s).skip(k)[i + 1] == header_lines(s)[k + 1 + i]);
                            assert(header_lines(s).skip(k + 1)[i] == header_lines(s)[k + 1 + i]);
                            assert(header_lines(t)[i + 1] == header_lines(rest)[i]);
                        }
                    }
                }
                lines.push(text);
                pos = next;
            },
            None => {
                proof {
                    assert(!valid_utf8(header_lines(s)[k]));
                    assert(!header_decodes(s));
                }
                return Err(LineDecodeError);
            },
        }
    }
}

} // verus!
