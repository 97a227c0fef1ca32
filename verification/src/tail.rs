//! The content of a log file as lines of text.
//!
//! A log file is newline-delimited text in UTF-8. A line ends with a line
//! feed, which is no part of it, nor is a carriage return just before the
//! line feed. What follows the last line feed is a line too, unless it is
//! empty. A line that is not valid UTF-8 is left out.

use crate::entry::texts;
use vstd::prelude::*;
use vstd::slice::slice_subrange;
use vstd::string::StringExecFns;
use vstd::string::StringSliceAdditionalSpecFns;
use vstd::utf8::{decode_utf8, encode_utf8_decode_utf8, valid_utf8};

verus! {

/// The line feed, which ends a line.
pub const LINE_FEED: u8 = 0x0A;

/// The carriage return, which is dropped before a line feed.
pub const CARRIAGE_RETURN: u8 = 0x0D;

/// Number of bytes before the first line feed, or the length of `data` when
/// it holds none.
pub open spec fn line_end(data: Seq<u8>) -> int
    decreases data.len(),
{
    if data.len() == 0 || data[0] == LINE_FEED {
        0
    } else {
        1 + line_end(data.drop_first())
    }
}

/// The bytes of a line that is ended by a line feed, without the carriage
/// return that may stand at their end.
pub open spec fn without_cr(line: Seq<u8>) -> Seq<u8> {
    if line.len() > 0 && line.last() == CARRIAGE_RETURN {
        line.drop_last()
    } else {
        line
    }
}

/// The text of a line, as a sequence of no or one text: none when the bytes
/// are not valid UTF-8.
pub open spec fn line_text(line: Seq<u8>) -> Seq<Seq<char>> {
    if valid_utf8(line) {
        seq![decode_utf8(line)]
    } else {
        Seq::empty()
    }
}

/// The lines of text that a file's content holds, in order.
pub open spec fn text_lines(data: Seq<u8>) -> Seq<Seq<char>>
    decreases data.len(),
{
    if data.len() == 0 {
        Seq::empty()
    } else {
        let end = line_end(data);
        if 0 <= end < data.len() {
            line_text(without_cr(data.subrange(0, end))) + text_lines(
                data.subrange(end + 1, data.len() as int),
            )
        } else {
            line_text(data)
        }
    }
}

/// The first line feed is where `line_end` says: there is none before that
/// place, and one at that place unless it is the end of the data.
pub proof fn lemma_line_end(data: Seq<u8>)
    ensures
        0 <= line_end(data) <= data.len(),
        forall|i: int| 0 <= i < line_end(data) ==> data[i] != LINE_FEED,
        line_end(data) < data.len() ==> data[line_end(data)] == LINE_FEED,
    decreases data.len(),
{
    if data.len() == 0 || data[0] == LINE_FEED {
    } else {
        let rest = data.drop_first();
        lemma_line_end(rest);
        assert forall|i: int| 0 <= i < line_end(data) implies data[i] != LINE_FEED by {
            if i > 0 {
                assert(data[i] == rest[i - 1]);
            }
        }
        assert(line_end(data) < data.len() ==> data[line_end(data)] == rest[line_end(rest)]);
    }
}

/// A place with no line feed before it, which holds a line feed or is the
/// end of the data, is the place that `line_end` gives.
pub proof fn lemma_line_end_is(data: Seq<u8>, end: int)
    requires
        0 <= end <= data.len(),
        forall|i: int| 0 <= i < end ==> data[i] != LINE_FEED,
        end < data.len() ==> data[end] == LINE_FEED,
    ensures
        line_end(data) == end,
{
    lemma_line_end(data);
    let found = line_end(data);
    if found < end {
        assert(data[found] == LINE_FEED);
    } else if end < found {
        assert(data[end] != LINE_FEED);
    }
}

/// `core::str::from_utf8`: succeeds exactly on valid UTF-8, and the text it
/// gives is made of the very bytes it was given. Believed from the standard
/// library's documentation.
#[verifier::external_body]
fn decode(bytes: &[u8]) -> (text: Option<&str>)
    ensures
        text.is_some() == valid_utf8(bytes@),
        text.is_some() ==> text.unwrap().spec_bytes() == bytes@,
{
    match core::str::from_utf8(bytes) {
        Ok(text) => Some(text),
        Err(_) => None,
    }
}

/// Appends the text of a line to `lines`, unless its bytes are not valid
/// UTF-8.
fn push_line(lines: &mut Vec<String>, line: &[u8])
    ensures
        texts(final(lines)@) == texts(old(lines)@) + line_text(line@),
{
    match decode(line) {
        Some(text) => {
            proof {
                encode_utf8_decode_utf8(text@);
            }
            lines.push(String::from_str(text));
            assert(texts(lines@) =~= texts(old(lines)@) + line_text(line@));
        },
        None => {
            assert(texts(lines@) =~= texts(old(lines)@) + line_text(line@));
        },
    }
}

/// Splits the content of a log file into its lines of text.
pub fn split_lines(data: &[u8]) -> (lines: Vec<String>)
    ensures
        texts(lines@) == text_lines(data@),
{
    let n = data.len();
    let mut lines: Vec<String> = Vec::new();
    let mut start: usize = 0;
    let mut i: usize = 0;
    proof {
        assert(data@.subrange(0, n as int) =~= data@);
        assert(texts(lines@) + text_lines(data@) =~= text_lines(data@));
    }
    while i < n
        invariant
            n == data@.len(),
            start <= i <= n,
            forall|k: int| start <= k < i ==> data@[k] != LINE_FEED,
            text_lines(data@) == texts(lines@) + text_lines(data@.subrange(start as int, n as int)),
        decreases n - i,
    {
        if data[i] == LINE_FEED {
            let ghost rest = data@.subrange(start as int, n as int);
            let ghost done = texts(lines@);
            let mut end = i;
            if end > start && data[end - 1] == CARRIAGE_RETURN {
                end -= 1;
            }
            push_line(&mut lines, slice_subrange(data, start, end));
            proof {
                lemma_line_end_is(rest, i - start);
                let raw = rest.subrange(0, i - start);
                assert(raw =~= data@.subrange(start as int, i as int));
                assert(without_cr(raw) =~= data@.subrange(start as int, end as int));
                assert(rest.subrange(i - start + 1, rest.len() as int) =~= data@.subrange(
                    i + 1,
                    n as int,
                ));
                let next = text_lines(data@.subrange(i + 1, n as int));
                assert(done + (line_text(without_cr(raw)) + next) =~= (done + line_text(
                    without_cr(raw),
                )) + next);
            }
            start = i + 1;
        }
        i += 1;
    }
    if start < n {
        let ghost rest = data@.subrange(start as int, n as int);
        proof {
            lemma_line_end_is(rest, n - start);
        }
        push_line(&mut lines, slice_subrange(data, start, n));
    } else {
        proof {
            assert(texts(lines@) + Seq::<Seq<char>>::empty() =~= texts(lines@));
        }
    }
    lines
}

} // verus!
