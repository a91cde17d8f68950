//! Taking paths apart: the name at the end of a path, the path above it, and the
//! names from there upwards.
//!
//! Repeated separators, those at the end and parts that are a single full stop
//! count for nothing, but for a full stop at the very beginning. Where the
//! separator is a backslash, a path may begin with a drive, a share or a device,
//! which is no part of it. One that begins with two backslashes, a question mark
//! and a backslash is verbatim: behind its prefix only a backslash separates, and
//! a full stop is a part like any other, though not a name.

use crate::layout;
use crate::text::{chars_of, has_char, same_text, text_of};
use vstd::prelude::*;

verus! {

/// Whether a path is verbatim.
pub open spec fn is_verbatim(separator: char, path: Seq<char>) -> bool {
    &&& separator == '\\'
    &&& path.len() >= 4
    &&& path[0] == '\\'
    &&& path[1] == '\\'
    &&& path[2] == '?'
    &&& path[3] == '\\'
}

/// Whether a character separates the parts of a path.
pub open spec fn splits(separator: char, verbatim: bool, c: char) -> bool {
    c == separator || (!verbatim && c == '/')
}

/// The position of the first separator from `from` on; the length of the path
/// where there is none.
pub open spec fn next_separator(
    separator: char,
    verbatim: bool,
    path: Seq<char>,
    from: int,
) -> int
    decreases path.len() - from,
{
    if from >= path.len() {
        path.len() as int
    } else if splits(separator, verbatim, path[from]) {
        from
    } else {
        next_separator(separator, verbatim, path, from + 1)
    }
}

/// Whether a path begins with two separators, as a share does.
pub open spec fn begins_like_share(separator: char, path: Seq<char>) -> bool {
    path.len() >= 2 && layout::separates(separator, path[0]) && layout::separates(
        separator,
        path[1],
    )
}

/// Whether a path begins with two separators, a full stop and a separator.
pub open spec fn begins_like_device(separator: char, path: Seq<char>) -> bool {
    begins_like_share(separator, path) && path.len() >= 4 && path[2] == '.' && layout::separates(
        separator,
        path[3],
    )
}

/// Where the share at the beginning of a path ends: two separators, the name of a
/// server, a separator and the name of the share. Zero where there is none.
pub open spec fn share_end(separator: char, path: Seq<char>) -> int {
    let server_end = next_separator(separator, false, path, 2);
    let end = next_separator(separator, false, path, server_end + 1);
    if 2 < server_end < path.len() && server_end + 1 < end {
        end
    } else {
        0
    }
}

/// Whether a verbatim path names a share: three letters and a separator stand
/// before the name of the server.
pub open spec fn names_verbatim_share(separator: char, path: Seq<char>) -> bool {
    &&& path.len() >= 8
    &&& path[4] == 'U'
    &&& path[5] == 'N'
    &&& path[6] == 'C'
    &&& layout::separates(separator, path[7])
}

/// Whether a verbatim path names a drive.
pub open spec fn names_verbatim_drive(separator: char, path: Seq<char>) -> bool {
    &&& path.len() >= 6
    &&& layout::is_drive(path.subrange(4, 6))
    &&& path.len() == 6 || layout::separates(separator, path[6])
}

/// Where the prefix of a verbatim path ends: behind the server and the share, where
/// it names a server and a share, behind the drive, where it names one, else behind
/// its first part.
pub open spec fn verbatim_end(separator: char, path: Seq<char>) -> int {
    if names_verbatim_share(separator, path) {
        let server_end = next_separator(separator, true, path, 8);
        let end = next_separator(separator, true, path, server_end + 1);
        if server_end < path.len() && server_end + 1 < end {
            end
        } else {
            server_end
        }
    } else if names_verbatim_drive(separator, path) {
        6
    } else {
        next_separator(separator, true, path, 4)
    }
}

/// Where the prefix at the beginning of a path ends: a drive, a share, a device or
/// that of a verbatim path.
pub open spec fn prefix_end(separator: char, path: Seq<char>) -> int {
    if separator != '\\' {
        0
    } else if is_verbatim(separator, path) {
        verbatim_end(separator, path)
    } else if begins_like_device(separator, path) {
        next_separator(separator, false, path, 4)
    } else if begins_like_share(separator, path) {
        share_end(separator, path)
    } else if path.len() >= 2 && layout::is_drive(path.take(2)) {
        2
    } else {
        0
    }
}

/// Whether the parts of a path begin with a full stop.
pub open spec fn begins_here(separator: char, path: Seq<char>) -> bool {
    let at = prefix_end(separator, path);
    &&& at < path.len()
    &&& path[at] == '.'
    &&& !layout::separates(separator, path[at])
    &&& at + 1 == path.len() || layout::separates(separator, path[at + 1])
}

/// Where the parts of a path begin: behind the prefix, and behind the separator or
/// the full stop that follows.
pub open spec fn body_start(separator: char, path: Seq<char>) -> int {
    let at = prefix_end(separator, path);
    if at < path.len() && (layout::separates(separator, path[at]) || begins_here(separator, path)) {
        at + 1
    } else {
        at
    }
}

/// Where the last part before `end` ends: separators are passed over, and full
/// stops that are parts of their own, but in a verbatim path.
pub open spec fn body_end(
    separator: char,
    verbatim: bool,
    path: Seq<char>,
    start: int,
    end: int,
) -> int
    decreases end - start,
{
    if end <= start {
        start
    } else if splits(separator, verbatim, path[end - 1]) || (!verbatim && path[end - 1] == '.' && (
    end - 1 == start || splits(separator, verbatim, path[end - 2]))) {
        body_end(separator, verbatim, path, start, end - 1)
    } else {
        end
    }
}

/// Where the part that ends at `end` begins.
pub open spec fn part_start(
    separator: char,
    verbatim: bool,
    path: Seq<char>,
    start: int,
    end: int,
) -> int
    decreases end - start,
{
    if end <= start {
        start
    } else if splits(separator, verbatim, path[end - 1]) {
        end
    } else {
        part_start(separator, verbatim, path, start, end - 1)
    }
}

/// Where the last part of a path ends.
pub open spec fn last_end(separator: char, path: Seq<char>) -> int {
    body_end(
        separator,
        is_verbatim(separator, path),
        path,
        body_start(separator, path),
        path.len() as int,
    )
}

/// Where the last part of a path begins.
pub open spec fn last_start(separator: char, path: Seq<char>) -> int {
    part_start(
        separator,
        is_verbatim(separator, path),
        path,
        body_start(separator, path),
        last_end(separator, path),
    )
}

/// The name at the end of a path. One full stop is none, nor are two.
pub open spec fn file_name(separator: char, path: Seq<char>) -> Option<Seq<char>> {
    let end = last_end(separator, path);
    let name = path.subrange(last_start(separator, path), end);
    if end <= body_start(separator, path) || name == "."@ || name == ".."@ {
        None
    } else {
        Some(name)
    }
}

/// The path without its last part.
pub open spec fn parent(separator: char, path: Seq<char>) -> Option<Seq<char>> {
    let start = body_start(separator, path);
    if last_end(separator, path) > start {
        Some(
            path.take(
                body_end(
                    separator,
                    is_verbatim(separator, path),
                    path,
                    start,
                    last_start(separator, path),
                ),
            ),
        )
    } else if begins_here(separator, path) && prefix_end(separator, path) == 0 {
        Some(Seq::empty())
    } else {
        None
    }
}

/// The name at the end of a path, that of its parent, and so on upwards, as far as
/// there are parents.
pub open spec fn lineage_of(separator: char, path: Seq<char>) -> Seq<Option<Seq<char>>>
    decreases path.len(),
{
    proof {
        lemma_parent_is_shorter(separator, path);
    }
    match parent(separator, path) {
        Some(above) => seq![file_name(separator, path)] + lineage_of(separator, above),
        None => seq![file_name(separator, path)],
    }
}

/// The path three parts up.
pub open spec fn third_parent(separator: char, path: Seq<char>) -> Option<Seq<char>> {
    match parent(separator, path) {
        Some(first) => match parent(separator, first) {
            Some(second) => parent(separator, second),
            None => None,
        },
        None => None,
    }
}

/// Whether the name at the end of a path has an extension: a full stop that is not
/// its first character.
pub open spec fn has_extension(separator: char, path: Seq<char>) -> bool {
    match file_name(separator, path) {
        Some(name) => name.len() > 0 && name.drop_first().contains('.'),
        None => false,
    }
}

/// A text without the backslashes that are followed by another or by the end.
pub open spec fn squeezed(s: Seq<char>) -> Seq<char>
    decreases s.len(),
{
    if s.len() == 0 {
        s
    } else if s.last() == '\\' {
        squeezed(s.drop_last())
    } else if s.len() >= 2 && s[s.len() - 2] == '\\' {
        squeezed(s.drop_last()).push('\\').push(s.last())
    } else {
        squeezed(s.drop_last()).push(s.last())
    }
}

/// What follows the prefix of a path, its first separator written as a backslash.
pub open spec fn behind_prefix(separator: char, path: Seq<char>) -> Seq<char> {
    let at = prefix_end(separator, path);
    if at < path.len() {
        seq!['\\'] + path.skip(at + 1)
    } else {
        Seq::empty()
    }
}

/// A verbatim path as it is written when something is joined to it: with one
/// backslash between its parts, and none at its end.
pub open spec fn rewritten(separator: char, path: Seq<char>) -> Seq<char> {
    path.take(prefix_end(separator, path)) + squeezed(behind_prefix(separator, path))
}

/// What `next_separator` finds is the first separator, and it misses none.
pub proof fn lemma_next_separator(separator: char, verbatim: bool, path: Seq<char>, from: int)
    requires
        0 <= from <= path.len(),
    ensures
        ({
            let at = next_separator(separator, verbatim, path, from);
            &&& from <= at <= path.len()
            &&& at < path.len() ==> splits(separator, verbatim, path[at])
            &&& forall|i: int|
                #![trigger path[i]]
                from <= i < at ==> !splits(separator, verbatim, path[i])
        }),
    decreases path.len() - from,
{
    if from < path.len() && !splits(separator, verbatim, path[from]) {
        lemma_next_separator(separator, verbatim, path, from + 1);
    }
}

/// The prefix ends inside a path, and that of a share, a device or a verbatim path
/// before a separator or at the end.
pub proof fn lemma_prefix_end(separator: char, path: Seq<char>)
    ensures
        0 <= prefix_end(separator, path) <= path.len(),
        is_verbatim(separator, path) ==> prefix_end(separator, path) >= 4,
        ({
            let at = prefix_end(separator, path);
            is_verbatim(separator, path) && at < path.len() ==> layout::separates(
                separator,
                path[at],
            )
        }),
{
    if separator == '\\' {
        if is_verbatim(separator, path) {
            if names_verbatim_share(separator, path) {
                lemma_next_separator(separator, true, path, 8);
                let server_end = next_separator(separator, true, path, 8);
                if server_end < path.len() {
                    lemma_next_separator(separator, true, path, server_end + 1);
                }
            } else if !names_verbatim_drive(separator, path) {
                lemma_next_separator(separator, true, path, 4);
            }
        } else if begins_like_device(separator, path) {
            lemma_next_separator(separator, false, path, 4);
        } else if begins_like_share(separator, path) {
            lemma_next_separator(separator, false, path, 2);
            let server_end = next_separator(separator, false, path, 2);
            if server_end < path.len() {
                lemma_next_separator(separator, false, path, server_end + 1);
            }
        }
    }
}

/// The parts of a path begin inside it.
pub proof fn lemma_body_start(separator: char, path: Seq<char>)
    ensures
        0 <= prefix_end(separator, path) <= body_start(separator, path) <= path.len(),
{
    lemma_prefix_end(separator, path);
}

/// What is passed over at the end of a path: the part that is left neither ends
/// with a separator nor, but in a verbatim path, is a full stop, and a separator
/// follows it.
pub proof fn lemma_body_end(
    separator: char,
    verbatim: bool,
    path: Seq<char>,
    start: int,
    end: int,
)
    requires
        0 <= start <= end <= path.len(),
    ensures
        ({
            let e = body_end(separator, verbatim, path, start, end);
            &&& start <= e <= end
            &&& e > start ==> {
                &&& !splits(separator, verbatim, path[e - 1])
                &&& !(!verbatim && path[e - 1] == '.' && (e - 1 == start || splits(
                    separator,
                    verbatim,
                    path[e - 2],
                )))
                &&& e < end ==> splits(separator, verbatim, path[e])
            }
            &&& verbatim ==> forall|i: int|
                #![trigger path[i]]
                e <= i < end ==> splits(separator, verbatim, path[i])
        }),
    decreases end - start,
{
    if end > start && (splits(separator, verbatim, path[end - 1]) || (!verbatim && path[end - 1]
        == '.' && (end - 1 == start || splits(separator, verbatim, path[end - 2])))) {
        lemma_body_end(separator, verbatim, path, start, end - 1);
    }
}

/// A part begins behind the last separator before its end, and holds none.
pub proof fn lemma_part_start(
    separator: char,
    verbatim: bool,
    path: Seq<char>,
    start: int,
    end: int,
)
    requires
        0 <= start <= end <= path.len(),
    ensures
        ({
            let k = part_start(separator, verbatim, path, start, end);
            &&& start <= k <= end
            &&& k > start ==> splits(separator, verbatim, path[k - 1])
            &&& forall|i: int|
                #![trigger path[i]]
                k <= i < end ==> !splits(separator, verbatim, path[i])
        }),
    decreases end - start,
{
    if end > start && !splits(separator, verbatim, path[end - 1]) {
        lemma_part_start(separator, verbatim, path, start, end - 1);
    }
}

/// The parent of a path is shorter than the path.
pub proof fn lemma_parent_is_shorter(separator: char, path: Seq<char>)
    ensures
        parent(separator, path) matches Some(above) ==> above.len() < path.len(),
{
    let verbatim = is_verbatim(separator, path);
    let start = body_start(separator, path);
    lemma_body_start(separator, path);
    lemma_body_end(separator, verbatim, path, start, path.len() as int);
    let end = last_end(separator, path);
    lemma_part_start(separator, verbatim, path, start, end);
    if end > start {
        lemma_part_start(separator, verbatim, path, start, end - 1);
        lemma_body_end(separator, verbatim, path, start, last_start(separator, path));
    }
}

fn splits_at(separator: char, verbatim: bool, c: char) -> (r: bool)
    ensures
        r == splits(separator, verbatim, c),
{
    c == separator || (!verbatim && c == '/')
}

fn names_verbatim(separator: char, path: &[char]) -> (r: bool)
    ensures
        r == is_verbatim(separator, path@),
{
    separator == '\\' && path.len() >= 4 && path[0] == '\\' && path[1] == '\\' && path[2] == '?'
        && path[3] == '\\'
}

fn find_separator(separator: char, verbatim: bool, path: &[char], from: usize) -> (r: usize)
    requires
        from <= path@.len(),
    ensures
        r == next_separator(separator, verbatim, path@, from as int),
        from <= r <= path@.len(),
{
    let mut i: usize = from;
    while i < path.len() && !splits_at(separator, verbatim, path[i])
        invariant
            from <= i <= path@.len(),
            next_separator(separator, verbatim, path@, from as int) == next_separator(
                separator,
                verbatim,
                path@,
                i as int,
            ),
        decreases path@.len() - i,
    {
        i = i + 1;
    }
    i
}

fn find_verbatim_end(separator: char, path: &[char]) -> (r: usize)
    requires
        path@.len() >= 4,
    ensures
        r == verbatim_end(separator, path@),
        r <= path@.len(),
{
    let len: usize = path.len();
    if len >= 8 && path[4] == 'U' && path[5] == 'N' && path[6] == 'C' && layout::is_separator(
        separator,
        path[7],
    ) {
        let server_end: usize = find_separator(separator, true, path, 8);
        if server_end == len {
            return server_end;
        }
        let end: usize = find_separator(separator, true, path, server_end + 1);
        return if end > server_end + 1 {
            end
        } else {
            server_end
        };
    }
    if len >= 6 {
        let drive = &path[4..6];
        if layout::names_drive(drive) && (len == 6 || layout::is_separator(separator, path[6])) {
            return 6;
        }
    }
    find_separator(separator, true, path, 4)
}

fn find_prefix_end(separator: char, path: &[char]) -> (r: usize)
    ensures
        r == prefix_end(separator, path@),
        r <= path@.len(),
{
    let len: usize = path.len();
    if separator != '\\' || len < 2 {
        return 0;
    }
    if names_verbatim(separator, path) {
        return find_verbatim_end(separator, path);
    }
    if layout::is_separator(separator, path[0]) && layout::is_separator(separator, path[1]) {
        if len >= 4 && path[2] == '.' && layout::is_separator(separator, path[3]) {
            return find_separator(separator, false, path, 4);
        }
        let server_end: usize = find_separator(separator, false, path, 2);
        if server_end == 2 || server_end == len {
            return 0;
        }
        let end: usize = find_separator(separator, false, path, server_end + 1);
        return if end > server_end + 1 {
            end
        } else {
            0
        };
    }
    let head = &path[0..2];
    assert(head@ =~= path@.take(2));
    if layout::names_drive(head) {
        2
    } else {
        0
    }
}

/// Where the parts begin, and whether there is a parent where there are none: where
/// the path is a full stop.
fn find_body_start(separator: char, path: &[char]) -> (r: (usize, bool))
    ensures
        r.0 == body_start(separator, path@),
        r.0 <= path@.len(),
        r.1 == (begins_here(separator, path@) && prefix_end(separator, path@) == 0),
{
    let len: usize = path.len();
    let at: usize = find_prefix_end(separator, path);
    if at >= len {
        return (at, false);
    }
    if layout::is_separator(separator, path[at]) {
        return (at + 1, false);
    }
    if path[at] == '.' && (at + 1 == len || layout::is_separator(separator, path[at + 1])) {
        (at + 1, at == 0)
    } else {
        (at, false)
    }
}

fn find_body_end(separator: char, verbatim: bool, path: &[char], start: usize, end: usize) -> (r:
    usize)
    requires
        start <= end <= path@.len(),
    ensures
        r == body_end(separator, verbatim, path@, start as int, end as int),
        start <= r <= end,
{
    let mut e: usize = end;
    while e > start && (splits_at(separator, verbatim, path[e - 1]) || (!verbatim && path[e - 1]
        == '.' && (e - 1 == start || splits_at(separator, verbatim, path[e - 2]))))
        invariant
            start <= e <= end <= path@.len(),
            body_end(separator, verbatim, path@, start as int, end as int) == body_end(
                separator,
                verbatim,
                path@,
                start as int,
                e as int,
            ),
        decreases e,
    {
        e = e - 1;
    }
    e
}

fn find_part_start(separator: char, verbatim: bool, path: &[char], start: usize, end: usize) -> (r:
    usize)
    requires
        start <= end <= path@.len(),
    ensures
        r == part_start(separator, verbatim, path@, start as int, end as int),
        start <= r <= end,
{
    let mut k: usize = end;
    while k > start && !splits_at(separator, verbatim, path[k - 1])
        invariant
            start <= k <= end <= path@.len(),
            part_start(separator, verbatim, path@, start as int, end as int) == part_start(
                separator,
                verbatim,
                path@,
                start as int,
                k as int,
            ),
        decreases k,
    {
        k = k - 1;
    }
    k
}

fn name_in(separator: char, path: &[char]) -> (r: Option<String>)
    ensures
        r.deep_view() == file_name(separator, path@),
{
    let verbatim: bool = names_verbatim(separator, path);
    let (start, _) = find_body_start(separator, path);
    let end: usize = find_body_end(separator, verbatim, path, start, path.len());
    if end <= start {
        return None;
    }
    let name = text_of(&path[find_part_start(separator, verbatim, path, start, end)..end]);
    if same_text(name.as_str(), ".") || same_text(name.as_str(), "..") {
        None
    } else {
        Some(name)
    }
}

fn parent_in(separator: char, path: &[char]) -> (r: Option<&[char]>)
    ensures
        match r {
            Some(above) => parent(separator, path@) == Some(above@),
            None => parent(separator, path@) is None,
        },
{
    let verbatim: bool = names_verbatim(separator, path);
    let (start, here) = find_body_start(separator, path);
    let end: usize = find_body_end(separator, verbatim, path, start, path.len());
    if end > start {
        let last: usize = find_part_start(separator, verbatim, path, start, end);
        let above = &path[0..find_body_end(separator, verbatim, path, start, last)];
        assert(above@ =~= path@.take(
            body_end(separator, verbatim, path@, start as int, last as int),
        ));
        Some(above)
    } else if here {
        let above = &path[0..0];
        assert(above@ =~= Seq::empty());
        Some(above)
    } else {
        None
    }
}

fn squeeze(s: &[char]) -> (r: Vec<char>)
    ensures
        r@ == squeezed(s@),
{
    let mut out: Vec<char> = Vec::new();
    let mut i: usize = 0;
    assert(s@.take(0) =~= Seq::empty());
    while i < s.len()
        invariant
            i <= s@.len(),
            out@ == squeezed(s@.take(i as int)),
        decreases s@.len() - i,
    {
        assert(s@.take(i + 1).drop_last() =~= s@.take(i as int));
        if s[i] != '\\' {
            if i > 0 && s[i - 1] == '\\' {
                out.push('\\');
            }
            out.push(s[i]);
        }
        i = i + 1;
    }
    assert(s@.take(i as int) =~= s@);
    out
}

/// A path as it is written when something is joined to it, where it is verbatim.
pub(crate) fn rewrite_verbatim(separator: char, path: &[char]) -> (r: Option<String>)
    ensures
        r.deep_view() == (if is_verbatim(separator, path@) {
            Some(rewritten(separator, path@))
        } else {
            None
        }),
{
    if !names_verbatim(separator, path) {
        return None;
    }
    let at: usize = find_prefix_end(separator, path);
    let mut rest: Vec<char> = Vec::new();
    if at < path.len() {
        rest.push('\\');
        let mut i: usize = at + 1;
        while i < path.len()
            invariant
                at < i <= path@.len(),
                rest@ == seq!['\\'] + path@.subrange(at + 1, i as int),
            decreases path@.len() - i,
        {
            rest.push(path[i]);
            i = i + 1;
            assert(path@.subrange(at + 1, i as int) =~= path@.subrange(at + 1, i - 1).push(
                path@[i - 1],
            ));
        }
        assert(path@.subrange(at + 1, i as int) =~= path@.skip(at + 1));
    }
    assert(rest@ =~= behind_prefix(separator, path@));
    let mut out = text_of(&path[0..at]);
    out.push_str(text_of(squeeze(rest.as_slice()).as_slice()).as_str());
    assert(out@ =~= rewritten(separator, path@));
    Some(out)
}

/// The name at the end of a path.
pub fn path_name(separator: char, path: &str) -> (r: Option<String>)
    ensures
        r.deep_view() == file_name(separator, path@),
{
    let chars = chars_of(path);
    name_in(separator, chars.as_slice())
}

/// The path without its last part.
pub fn path_parent(separator: char, path: &str) -> (r: Option<String>)
    ensures
        r.deep_view() == parent(separator, path@),
{
    let chars = chars_of(path);
    match parent_in(separator, chars.as_slice()) {
        Some(above) => Some(text_of(above)),
        None => None,
    }
}

/// The path three parts up.
pub fn path_third_parent(separator: char, path: &str) -> (r: Option<String>)
    ensures
        r.deep_view() == third_parent(separator, path@),
{
    let chars = chars_of(path);
    match parent_in(separator, chars.as_slice()) {
        Some(first) => match parent_in(separator, first) {
            Some(second) => match parent_in(separator, second) {
                Some(third) => Some(text_of(third)),
                None => None,
            },
            None => None,
        },
        None => None,
    }
}

/// Whether the name at the end of a path has an extension.
pub fn path_has_extension(separator: char, path: &str) -> (r: bool)
    ensures
        r == has_extension(separator, path@),
{
    match path_name(separator, path) {
        Some(name) => {
            let chars = chars_of(name.as_str());
            if chars.len() == 0 {
                return false;
            }
            let rest = text_of(&chars.as_slice()[1..chars.len()]);
            assert(rest@ =~= name@.drop_first());
            has_char(rest.as_str(), '.')
        },
        None => false,
    }
}

/// The name at the end of a path, that of its parent, and so on upwards, as far as
/// there are parents.
pub fn path_lineage(separator: char, path: &str) -> (r: Vec<Option<String>>)
    ensures
        r.deep_view() == lineage_of(separator, path@),
{
    let chars = chars_of(path);
    let mut names: Vec<Option<String>> = Vec::new();
    let mut rest: &[char] = chars.as_slice();
    loop
        invariant_except_break
            names.deep_view() + lineage_of(separator, rest@) == lineage_of(separator, path@),
        ensures
            names.deep_view() == lineage_of(separator, path@),
        decreases rest@.len(),
    {
        let ghost done = names.deep_view();
        let ghost here = rest@;
        let name = name_in(separator, rest);
        names.push(name);
        assert(names.deep_view() =~= done.push(file_name(separator, here)));
        match parent_in(separator, rest) {
            Some(above) => {
                proof {
                    lemma_parent_is_shorter(separator, here);
                    assert(names.deep_view() + lineage_of(separator, above@) =~= done + (seq![
                        file_name(separator, here),
                    ] + lineage_of(separator, above@)));
                }
                rest = above;
            },
            None => {
                assert(names.deep_view() =~= done + seq![file_name(separator, here)]);
                break;
            },
        }
    }
    names
}

} // verus!
