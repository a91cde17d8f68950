//! The directory of a conversation, from the list of workspace URIs that the
//! store keeps.

use crate::json;
use crate::text::{chars_of, starts_with, text_of};
use vstd::prelude::*;

verus! {

/// The value of a hexadecimal digit.
pub open spec fn hex_digit(b: u8) -> Option<u8> {
    if 48 <= b <= 57 {
        Some((b - 48) as u8)
    } else if 65 <= b <= 70 {
        Some((b - 55) as u8)
    } else if 97 <= b <= 102 {
        Some((b - 87) as u8)
    } else {
        None
    }
}

/// The byte that two characters behind a percent sign stand for: two
/// hexadecimal digits, or a plus sign and one.
pub open spec fn hex_pair(a: u8, b: u8) -> Option<u8> {
    match (hex_digit(a), hex_digit(b)) {
        (Some(x), Some(y)) => Some((16 * x + y) as u8),
        (None, Some(y)) => if a == 43 {
            Some(y)
        } else {
            None
        },
        _ => None,
    }
}

/// Bytes with each percent sign and the pair behind it replaced by the byte
/// that they stand for. A percent sign with no such pair stays.
pub open spec fn unescaped(bytes: Seq<u8>) -> Seq<u8>
    decreases bytes.len(),
{
    if bytes.len() == 0 {
        seq![]
    } else if bytes[0] == 37 && bytes.len() > 2 && hex_pair(bytes[1], bytes[2]) is Some {
        seq![hex_pair(bytes[1], bytes[2])->0] + unescaped(bytes.skip(3))
    } else {
        seq![bytes[0]] + unescaped(bytes.skip(1))
    }
}

/// What `String::from_utf8_lossy` makes of bytes that are not UTF-8.
pub uninterp spec fn utf8_lossy(bytes: Seq<u8>) -> Seq<char>;

/// The text that bytes hold, with replacements where they are not UTF-8.
pub open spec fn text_in(bytes: Seq<u8>) -> Seq<char> {
    if vstd::utf8::valid_utf8(bytes) {
        vstd::utf8::decode_utf8(bytes)
    } else {
        utf8_lossy(bytes)
    }
}

/// Pieces put together again.
pub open spec fn glued(pieces: Seq<Seq<u8>>) -> Seq<u8>
    decreases pieces.len(),
{
    if pieces.len() == 0 {
        seq![]
    } else {
        pieces[0] + glued(pieces.drop_first())
    }
}

/// How many bytes a text takes at most in which each piece that is UTF-8 is kept,
/// and in each other piece no byte gives more than one replacement character,
/// which takes three.
pub open spec fn replaced_size(pieces: Seq<Seq<u8>>) -> nat
    decreases pieces.len(),
{
    if pieces.len() == 0 {
        0
    } else if vstd::utf8::valid_utf8(pieces[0]) {
        pieces[0].len() + replaced_size(pieces.drop_first())
    } else {
        3 * pieces[0].len() + replaced_size(pieces.drop_first())
    }
}

/// `String::from_utf8_lossy`: the text that the bytes hold where they are
/// UTF-8, else one in which a replacement character, U+FFFD, stands for each
/// sequence that is not, and the rest is kept. Of the size of that text this
/// claims: however the bytes are cut into pieces, what is UTF-8 by itself is kept,
/// and elsewhere there is at most one replacement character for each byte.
#[verifier::external_body]
fn lossy_text(bytes: &[u8]) -> (r: String)
    ensures
        r@ == (if vstd::utf8::valid_utf8(bytes@) {
            vstd::utf8::decode_utf8(bytes@)
        } else {
            utf8_lossy(bytes@)
        }),
        forall|pieces: Seq<Seq<u8>>| #[trigger]
            glued(pieces) == bytes@ ==> vstd::utf8::encode_utf8(r@).len() <= replaced_size(pieces),
{
    String::from_utf8_lossy(bytes).into_owned()
}

/// Whether the pair behind each percent sign ends where a character does, so
/// that it can be looked at.
pub open spec fn pairs_are_whole(s: Seq<char>) -> bool {
    let bytes = vstd::utf8::encode_utf8(s);
    forall|i: int|
        #![trigger bytes[i]]
        0 <= i && i + 2 < bytes.len() && bytes[i] == 37 ==> vstd::utf8::is_char_boundary(
            bytes,
            i + 3,
        )
}

/// A text with the escapes of a URI resolved.
pub open spec fn percent_decoded(s: Seq<char>) -> Seq<char> {
    text_in(unescaped(vstd::utf8::encode_utf8(s)))
}

/// The bytes of a character of more than one byte are no percent sign, so that
/// nothing in them is resolved.
proof fn lemma_character_is_kept(bytes: Seq<u8>)
    requires
        bytes.len() > 0,
        vstd::utf8::valid_utf8(bytes),
        !(bytes[0] == 37 && bytes.len() > 2 && hex_pair(bytes[1], bytes[2]) is Some),
    ensures
        ({
            let n = vstd::utf8::length_of_first_scalar(bytes);
            &&& 1 <= n <= bytes.len()
            &&& unescaped(bytes) == bytes.take(n) + unescaped(bytes.skip(n))
        }),
{
    let n = vstd::utf8::length_of_first_scalar(bytes);
    lemma_plain_run(bytes, n);
}

/// Bytes before the first percent sign are kept as they are.
proof fn lemma_plain_run(bytes: Seq<u8>, n: int)
    requires
        1 <= n <= bytes.len(),
        !(bytes[0] == 37 && bytes.len() > 2 && hex_pair(bytes[1], bytes[2]) is Some),
        forall|i: int| #![trigger bytes[i]] 1 <= i < n ==> bytes[i] != 37,
    ensures
        unescaped(bytes) == bytes.take(n) + unescaped(bytes.skip(n)),
    decreases n,
{
    let rest = bytes.skip(1);
    if n > 1 {
        assert(rest[0] == bytes[1]);
        assert forall|i: int| #![trigger rest[i]] 1 <= i < n - 1 implies rest[i] != 37 by {
            assert(rest[i] == bytes[i + 1]);
        }
        lemma_plain_run(rest, n - 1);
        assert(rest.skip(n - 1) =~= bytes.skip(n));
        assert(seq![bytes[0]] + (rest.take(n - 1) + unescaped(bytes.skip(n))) =~= bytes.take(n)
            + unescaped(bytes.skip(n)));
    } else {
        assert(bytes.take(1) =~= seq![bytes[0]]);
    }
}

/// Behind a character of one byte the text goes on.
proof fn lemma_behind_one_byte(bytes: Seq<u8>)
    requires
        bytes.len() > 0,
        vstd::utf8::valid_utf8(bytes),
        bytes[0] < 128,
    ensures
        vstd::utf8::valid_utf8(bytes.skip(1)),
{
    assert(vstd::utf8::pop_first_scalar(bytes) =~= bytes.skip(1));
}

/// A text with its escapes resolved can be cut into its characters and what the
/// escapes stand for, which with its replacements is no larger than the text.
proof fn lemma_resolving_adds_nothing(bytes: Seq<u8>) -> (pieces: Seq<Seq<u8>>)
    requires
        vstd::utf8::valid_utf8(bytes),
    ensures
        glued(pieces) == unescaped(bytes),
        replaced_size(pieces) <= bytes.len(),
    decreases bytes.len(),
{
    if bytes.len() == 0 {
        seq![]
    } else if bytes[0] == 37 && bytes.len() > 2 && hex_pair(bytes[1], bytes[2]) is Some {
        lemma_behind_one_byte(bytes);
        lemma_behind_one_byte(bytes.skip(1));
        lemma_behind_one_byte(bytes.skip(1).skip(1));
        assert(bytes.skip(1).skip(1).skip(1) =~= bytes.skip(3));
        let rest = lemma_resolving_adds_nothing(bytes.skip(3));
        let pieces = seq![seq![hex_pair(bytes[1], bytes[2])->0]] + rest;
        assert(pieces.drop_first() =~= rest);
        pieces
    } else {
        let n = vstd::utf8::length_of_first_scalar(bytes);
        lemma_character_is_kept(bytes);
        assert(vstd::utf8::pop_first_scalar(bytes) =~= bytes.skip(n));
        let rest = lemma_resolving_adds_nothing(bytes.skip(n));
        assert(vstd::utf8::valid_utf8(bytes.take(n))) by {
            assert(vstd::utf8::is_char_boundary(bytes.skip(n), 0));
            assert(vstd::utf8::is_char_boundary(bytes, n));
            vstd::utf8::valid_utf8_split(bytes, n);
            assert(bytes.take(n) =~= bytes.subrange(0, n));
        }
        let pieces = seq![bytes.take(n)] + rest;
        assert(pieces.drop_first() =~= rest);
        pieces
    }
}

fn read_hex_digit(b: u8) -> (r: Option<u8>)
    ensures
        r == hex_digit(b),
{
    if 48 <= b && b <= 57 {
        Some(b - 48)
    } else if 65 <= b && b <= 70 {
        Some(b - 55)
    } else if 97 <= b && b <= 102 {
        Some(b - 87)
    } else {
        None
    }
}

fn read_hex_pair(a: u8, b: u8) -> (r: Option<u8>)
    ensures
        r == hex_pair(a, b),
{
    match (read_hex_digit(a), read_hex_digit(b)) {
        (Some(x), Some(y)) => Some(16 * x + y),
        (None, Some(y)) => if a == 43 {
            Some(y)
        } else {
            None
        },
        _ => None,
    }
}

/// Whether `percent_decode` can be asked about the text.
pub fn can_percent_decode(s: &str) -> (r: bool)
    ensures
        r == pairs_are_whole(s@),
{
    let bytes = s.as_bytes();
    let len: usize = bytes.len();
    let mut i: usize = 0;
    while i < len
        invariant
            len == bytes@.len(),
            bytes@ == vstd::utf8::encode_utf8(s@),
            i <= len,
            forall|j: int|
                #![trigger bytes@[j]]
                0 <= j < i && j + 2 < bytes@.len() && bytes@[j] == 37
                    ==> vstd::utf8::is_char_boundary(bytes@, j + 3),
        decreases len - i,
    {
        if bytes[i] == 37 && len - i > 2 {
            if !s.is_char_boundary(i + 3) {
                assert(bytes@[i as int] == 37);
                return false;
            }
        }
        i = i + 1;
    }
    true
}

/// Resolves the escapes of a URI. The result takes no more bytes than the text.
pub fn percent_decode(s: &str) -> (r: String)
    requires
        pairs_are_whole(s@),
    ensures
        r@ == percent_decoded(s@),
        vstd::utf8::encode_utf8(r@).len() <= vstd::utf8::encode_utf8(s@).len(),
{
    let bytes = s.as_bytes();
    let len: usize = bytes.len();
    let mut out: Vec<u8> = Vec::new();
    let mut i: usize = 0;
    assert(bytes@.skip(0) =~= bytes@);
    while i < len
        invariant
            len == bytes@.len(),
            i <= len,
            out@ + unescaped(bytes@.skip(i as int)) == unescaped(bytes@),
        decreases len - i,
    {
        let ghost rest = bytes@.skip(i as int);
        let ghost done = out@;
        assert(rest.skip(1) =~= bytes@.skip(i + 1));
        if bytes[i] == 37 && len - i > 2 {
            assert(rest[1] == bytes@[i + 1] && rest[2] == bytes@[i + 2]);
            match read_hex_pair(bytes[i + 1], bytes[i + 2]) {
                Some(b) => {
                    assert(rest.skip(3) =~= bytes@.skip(i + 3));
                    out.push(b);
                    assert(out@ + unescaped(rest.skip(3)) =~= done + (seq![b] + unescaped(
                        rest.skip(3),
                    )));
                    i = i + 3;
                    continue ;
                },
                None => {},
            }
        }
        out.push(bytes[i]);
        assert(out@ + unescaped(rest.skip(1)) =~= done + (seq![rest[0]] + unescaped(rest.skip(1))));
        i = i + 1;
    }
    proof {
        assert(out@ + unescaped(bytes@.skip(i as int)) =~= out@);
        vstd::utf8::encode_utf8_valid_utf8(s@);
        let pieces = lemma_resolving_adds_nothing(bytes@);
        assert(glued(pieces) == out@);
    }
    lossy_text(out.as_slice())
}

/// The first workspace URI of a list in JSON.
pub open spec fn first_uri(raw: Seq<char>) -> Option<Seq<char>> {
    match json::parsed_json(raw) {
        Some(value) => match value.items() {
            Some(items) => if items.len() > 0 {
                items[0].str()
            } else {
                None
            },
            None => None,
        },
        None => None,
    }
}

/// A URI without the scheme of files.
pub open spec fn without_scheme(uri: Seq<char>) -> Seq<char> {
    if "file://"@.is_prefix_of(uri) {
        uri.skip("file://"@.len() as int)
    } else {
        uri
    }
}

/// The directory that a workspace URI stands for.
pub open spec fn uri_path(uri: Seq<char>) -> Seq<char> {
    percent_decoded(without_scheme(uri))
}

/// The directory of the first workspace in a list; empty where there is none.
pub open spec fn first_workspace_in(raw: Seq<char>) -> Seq<char> {
    match first_uri(raw) {
        Some(uri) => uri_path(uri),
        None => Seq::empty(),
    }
}

/// Whether the first workspace URI, where there is one, can be resolved.
pub open spec fn can_resolve_first(raw: Seq<char>) -> bool {
    match first_uri(raw) {
        Some(uri) => pairs_are_whole(without_scheme(uri)),
        None => true,
    }
}

fn strip_scheme(uri: &str) -> (r: String)
    ensures
        r@ == without_scheme(uri@),
{
    let chars = chars_of(uri);
    let scheme = chars_of("file://");
    if starts_with(chars.as_slice(), scheme.as_slice()) {
        let rest = &chars.as_slice()[scheme.len()..chars.len()];
        assert(rest@ =~= uri@.skip("file://"@.len() as int));
        text_of(rest)
    } else {
        uri.to_string()
    }
}

/// The directory that a workspace URI stands for, and `None` where its escapes
/// cannot be resolved.
pub fn workspace_path(uri: &str) -> (r: Option<String>)
    ensures
        r.deep_view() == (if pairs_are_whole(without_scheme(uri@)) {
            Some(uri_path(uri@))
        } else {
            None
        }),
{
    let path = strip_scheme(uri);
    if can_percent_decode(path.as_str()) {
        Some(percent_decode(path.as_str()))
    } else {
        None
    }
}

fn read_first_uri(raw: &str) -> (r: Option<String>)
    ensures
        r.deep_view() == first_uri(raw@),
{
    match json::value_from_str(raw) {
        Some(value) => match value.as_array() {
            Some(items) => if items.len() > 0 {
                match items[0].as_str() {
                    Some(uri) => Some(uri.to_string()),
                    None => None,
                }
            } else {
                None
            },
            None => None,
        },
        None => None,
    }
}

/// The directory of the first workspace in a list; empty where there is none.
pub fn first_workspace(raw: &str) -> (r: String)
    requires
        can_resolve_first(raw@),
    ensures
        r@ == first_workspace_in(raw@),
{
    match read_first_uri(raw) {
        Some(uri) => percent_decode(strip_scheme(uri.as_str()).as_str()),
        None => String::new(),
    }
}

/// The directory of the first workspace in a list, empty where there is none,
/// and `None` where its escapes cannot be resolved.
pub fn try_first_workspace(raw: &str) -> (r: Option<String>)
    ensures
        r.deep_view() == (if can_resolve_first(raw@) {
            Some(first_workspace_in(raw@))
        } else {
            None
        }),
{
    match read_first_uri(raw) {
        Some(uri) => {
            if can_percent_decode(strip_scheme(uri.as_str()).as_str()) {
                Some(first_workspace(raw))
            } else {
                None
            }
        },
        None => Some(first_workspace(raw)),
    }
}

} // verus!
