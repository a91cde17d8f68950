//! What a message of the user says besides the request itself: the document
//! that was open, and the model that was chosen.

use crate::text;
use crate::text::{chars_of, find_in, strip_end_of, text_of, trim_chars, CharClass};
use vstd::prelude::*;

verus! {

/// What stands behind the first `mark`, and `None` where there is no `mark`.
pub open spec fn behind(raw: Seq<char>, mark: Seq<char>) -> Option<Seq<char>> {
    match text::find(raw, mark) {
        Some(i) => Some(raw.skip(i + mark.len())),
        None => None,
    }
}

/// The request: what stands between the first opening tag and the closing tag
/// after it, or all that follows where that tag is missing. Without an opening
/// tag the whole text is the request.
pub open spec fn request_text(raw: Seq<char>) -> Seq<char> {
    match behind(raw, "<USER_REQUEST>"@) {
        Some(after) => text::trimmed(text::before(after, "</USER_REQUEST>"@)),
        None => text::trimmed(raw),
    }
}

/// The path of the open document: the rest of the line behind the first mark,
/// up to a blank and an opening bracket. An empty path counts as none.
pub open spec fn document_path(raw: Seq<char>) -> Option<Seq<char>> {
    match behind(raw, "Active Document:"@) {
        Some(after) => {
            let line = text::trimmed(text::before(after, "\n"@));
            let path = match text::find(line, " ("@) {
                Some(i) => text::trimmed(line.take(i)),
                None => line,
            };
            if path.len() == 0 {
                None
            } else {
                Some(path)
            }
        },
        None => None,
    }
}

/// Where the name of the chosen model ends: at the remark that follows it, else
/// at the full stop that ends a line, else at the end of the line.
pub open spec fn model_name_end(rest: Seq<char>) -> int {
    match text::find(rest, ". No need"@) {
        Some(i) => i,
        None => match text::find(rest, ".\r\n"@) {
            Some(i) => i,
            None => match text::find(rest, ".\n"@) {
                Some(i) => i,
                None => match text::find(rest, "\n"@) {
                    Some(i) => i,
                    None => rest.len() as int,
                },
            },
        },
    }
}

/// The model that the user changed to, without the full stops behind its name.
/// An empty name counts as none.
pub open spec fn chosen_model(raw: Seq<char>) -> Option<Seq<char>> {
    match text::find(raw, "Model Selection` from"@) {
        Some(at) => match behind(raw.skip(at), " to "@) {
            Some(rest) => {
                let name = text::strip_end(
                    text::trimmed(rest.take(model_name_end(rest))),
                    CharClass::Dot,
                );
                if name.len() == 0 {
                    None
                } else {
                    Some(name)
                }
            },
            None => None,
        },
        None => None,
    }
}

fn skip_behind<'a>(raw: &'a [char], mark: &str) -> (r: Option<&'a [char]>)
    ensures
        match r {
            Some(rest) => behind(raw@, mark@) == Some(rest@),
            None => behind(raw@, mark@) is None,
        },
{
    match find_in(raw, mark) {
        Some(i) => {
            let len: usize = raw.len();
            let width: usize = chars_of(mark).len();
            let rest = &raw[i + width..len];
            assert(rest@ =~= raw@.skip(i + mark@.len()));
            Some(rest)
        },
        None => None,
    }
}

fn cut_before<'a>(raw: &'a [char], mark: &str) -> (r: &'a [char])
    ensures
        r@ == text::before(raw@, mark@),
{
    match find_in(raw, mark) {
        Some(i) => {
            let head = &raw[0..i];
            assert(head@ =~= raw@.take(i as int));
            head
        },
        None => raw,
    }
}

fn find_request(raw: &[char]) -> (r: String)
    ensures
        r@ == request_text(raw@),
{
    match skip_behind(raw, "<USER_REQUEST>") {
        Some(after) => text_of(trim_chars(cut_before(after, "</USER_REQUEST>"))),
        None => text_of(trim_chars(raw)),
    }
}

fn find_document(raw: &[char]) -> (r: Option<String>)
    ensures
        r.deep_view() == document_path(raw@),
{
    match skip_behind(raw, "Active Document:") {
        Some(after) => {
            let line = trim_chars(cut_before(after, "\n"));
            let path = match find_in(line, " (") {
                Some(i) => {
                    let head = &line[0..i];
                    assert(head@ =~= line@.take(i as int));
                    trim_chars(head)
                },
                None => line,
            };
            if path.len() == 0 {
                None
            } else {
                Some(text_of(path))
            }
        },
        None => None,
    }
}

fn find_model_name_end(rest: &[char]) -> (r: usize)
    ensures
        r == model_name_end(rest@),
        r <= rest@.len(),
{
    match find_in(rest, ". No need") {
        Some(i) => i,
        None => match find_in(rest, ".\r\n") {
            Some(i) => i,
            None => match find_in(rest, ".\n") {
                Some(i) => i,
                None => match find_in(rest, "\n") {
                    Some(i) => i,
                    None => rest.len(),
                },
            },
        },
    }
}

fn find_model(raw: &[char]) -> (r: Option<String>)
    ensures
        r.deep_view() == chosen_model(raw@),
{
    match find_in(raw, "Model Selection` from") {
        Some(at) => {
            let tail = &raw[at..raw.len()];
            assert(tail@ =~= raw@.skip(at as int));
            match skip_behind(tail, " to ") {
                Some(rest) => {
                    let end: usize = find_model_name_end(rest);
                    let head = &rest[0..end];
                    assert(head@ =~= rest@.take(end as int));
                    let name = strip_end_of(trim_chars(head), CharClass::Dot);
                    if name.len() == 0 {
                        None
                    } else {
                        Some(text_of(name))
                    }
                },
                None => None,
            }
        },
        None => None,
    }
}

/// Takes a message of the user apart: the request, the path of the document
/// that was open, and the model that was chosen.
pub fn extract_user_request(raw: &str) -> (r: (String, Option<String>, Option<String>))
    ensures
        r.0@ == request_text(raw@),
        r.1.deep_view() == document_path(raw@),
        r.2.deep_view() == chosen_model(raw@),
{
    let chars = chars_of(raw);
    let raw = chars.as_slice();
    (find_request(raw), find_document(raw), find_model(raw))
}

} // verus!
