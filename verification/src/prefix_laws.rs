//! Where the prefix of a path ends, and what the last part of a path and its parent
//! are behind it.

use crate::path_laws::{lemma_no_separator, lemma_part_of_name, lemma_separator_found};
use crate::paths;
use vstd::prelude::*;

verus! {

/// Whether a character is a slash or a backslash.
pub open spec fn is_stroke(c: char) -> bool {
    c == '/' || c == '\\'
}

/// Whether a text holds neither a slash nor a backslash.
pub open spec fn is_unbroken(s: Seq<char>) -> bool {
    forall|i: int| #![trigger s[i]] 0 <= i < s.len() ==> !is_stroke(s[i])
}

/// Whether a text holds no backslash.
pub open spec fn holds_no_backslash(s: Seq<char>) -> bool {
    forall|i: int| #![trigger s[i]] 0 <= i < s.len() ==> s[i] != '\\'
}

/// Whether a character is a letter that a drive can have.
pub open spec fn is_drive_letter(c: char) -> bool {
    ('a' <= c && c <= 'z') || ('A' <= c && c <= 'Z')
}

/// Where the name from `from` to `to` is followed by a separator or the end, that is
/// where the next separator is found.
proof fn lemma_name_ends(verbatim: bool, path: Seq<char>, from: int, to: int)
    requires
        0 <= from <= to <= path.len(),
        to < path.len() ==> paths::splits('\\', verbatim, path[to]),
        forall|i: int|
            #![trigger path[i]]
            from <= i < to ==> !paths::splits('\\', verbatim, path[i]),
    ensures
        paths::next_separator('\\', verbatim, path, from) == to,
{
    if to < path.len() {
        lemma_separator_found('\\', verbatim, path, from, to);
    } else {
        lemma_no_separator('\\', verbatim, path, from);
    }
}

/// A path has no prefix where the separator is no backslash, where it is empty, where
/// it begins with neither a stroke nor a drive, and where one stroke alone stands at
/// its beginning.
pub proof fn law_most_paths_have_no_prefix(separator: char, path: Seq<char>)
    ensures
        separator != '\\' ==> paths::prefix_end(separator, path) == 0,
        path.len() < 2 ==> paths::prefix_end(separator, path) == 0,
        path.len() >= 2 && !is_stroke(path[0]) && !(is_drive_letter(path[0]) && path[1] == ':')
            ==> paths::prefix_end(separator, path) == 0,
        path.len() >= 2 && is_stroke(path[0]) && !is_stroke(path[1]) ==> paths::prefix_end(
            separator,
            path,
        ) == 0,
{
    if path.len() >= 2 {
        let two = path.take(2);
        assert(two[0] == path[0] && two[1] == path[1]);
    }
}

/// A letter and a colon are a prefix.
pub proof fn law_a_drive_is_a_prefix(letter: char, rest: Seq<char>)
    requires
        is_drive_letter(letter),
    ensures
        paths::prefix_end('\\', seq![letter, ':'] + rest) == 2,
{
    let path = seq![letter, ':'] + rest;
    assert(path[0] == letter && path[1] == ':');
    assert(path.take(2) =~= seq![letter, ':']);
}

/// Two strokes, the name of a server, a stroke and the name of a share are a prefix,
/// unless they begin a device or a verbatim path.
pub proof fn law_a_share_is_a_prefix(
    a: char,
    b: char,
    server: Seq<char>,
    c: char,
    share: Seq<char>,
    rest: Seq<char>,
)
    requires
        is_stroke(a),
        is_stroke(b),
        is_stroke(c),
        is_unbroken(server),
        is_unbroken(share),
        server.len() > 0,
        share.len() > 0,
        server != seq!['.'],
        !(a == '\\' && b == '\\' && c == '\\' && server == seq!['?']),
        rest.len() > 0 ==> is_stroke(rest[0]),
    ensures
        paths::prefix_end('\\', seq![a, b] + server + seq![c] + share + rest) == 3 + server.len()
            + share.len(),
{
    let path = seq![a, b] + server + seq![c] + share + rest;
    let n = 2 + server.len() as int;
    let m = n + 1 + share.len() as int;
    assert(path[0] == a && path[1] == b && path[n] == c);
    assert forall|i: int| #![trigger path[i]] 2 <= i < n implies !is_stroke(path[i]) by {
        assert(path[i] == server[i - 2]);
    }
    assert forall|i: int| #![trigger path[i]] n < i < m implies !is_stroke(path[i]) by {
        assert(path[i] == share[i - n - 1]);
    }
    if m < path.len() {
        assert(path[m] == rest[0]);
    }
    assert(path[2] == server[0]);
    if server.len() == 1 {
        assert(path[3] == c);
        if server[0] == '.' {
            assert(server =~= seq!['.']);
        }
        if server[0] == '?' {
            assert(server =~= seq!['?']);
        }
    } else {
        assert(path[3] == server[1]);
    }
    lemma_name_ends(false, path, 2, n);
    lemma_name_ends(false, path, n + 1, m);
}

/// Two strokes are no prefix where no name of a server or none of a share follows.
pub proof fn law_half_a_share_is_no_prefix(
    a: char,
    b: char,
    server: Seq<char>,
    c: char,
    rest: Seq<char>,
)
    requires
        is_stroke(a),
        is_stroke(b),
        is_stroke(c),
        is_unbroken(server),
        server != seq!['.'],
        !(a == '\\' && b == '\\' && c == '\\' && server == seq!['?']),
    ensures
        paths::prefix_end('\\', seq![a, b] + server) == 0,
        server.len() == 0 ==> paths::prefix_end('\\', seq![a, b] + server + seq![c] + rest) == 0,
        rest.len() == 0 || is_stroke(rest[0]) ==> paths::prefix_end(
            '\\',
            seq![a, b] + server + seq![c] + rest,
        ) == 0,
{
    let n = 2 + server.len() as int;
    let alone = seq![a, b] + server;
    assert(alone[0] == a && alone[1] == b);
    assert forall|i: int| #![trigger alone[i]] 2 <= i < n implies !is_stroke(alone[i]) by {
        assert(alone[i] == server[i - 2]);
    }
    if server.len() >= 2 {
        assert(alone[3] == server[1]);
    }
    lemma_name_ends(false, alone, 2, n);
    let path = seq![a, b] + server + seq![c] + rest;
    assert(path[0] == a && path[1] == b && path[n] == c);
    assert forall|i: int| #![trigger path[i]] 2 <= i < n implies !is_stroke(path[i]) by {
        assert(path[i] == server[i - 2]);
    }
    if server.len() == 0 {
        assert(path[2] == c);
    } else {
        assert(path[2] == server[0]);
        if server.len() == 1 {
            assert(path[3] == c);
            if server[0] == '.' {
                assert(server =~= seq!['.']);
            }
            if server[0] == '?' {
                assert(server =~= seq!['?']);
            }
        } else {
            assert(path[3] == server[1]);
        }
    }
    lemma_name_ends(false, path, 2, n);
    if rest.len() == 0 || is_stroke(rest[0]) {
        if rest.len() > 0 {
            assert(path[n + 1] == rest[0]);
        }
        lemma_name_ends(false, path, n + 1, n + 1);
    }
}

/// Two strokes, a full stop, a stroke and a name are the prefix of a device.
pub proof fn law_a_device_is_a_prefix(
    a: char,
    b: char,
    c: char,
    name: Seq<char>,
    rest: Seq<char>,
)
    requires
        is_stroke(a),
        is_stroke(b),
        is_stroke(c),
        is_unbroken(name),
        rest.len() > 0 ==> is_stroke(rest[0]),
    ensures
        paths::prefix_end('\\', seq![a, b, '.', c] + name + rest) == 4 + name.len(),
{
    let path = seq![a, b, '.', c] + name + rest;
    let n = 4 + name.len() as int;
    assert(path[0] == a && path[1] == b && path[2] == '.' && path[3] == c);
    assert forall|i: int| #![trigger path[i]] 4 <= i < n implies !is_stroke(path[i]) by {
        assert(path[i] == name[i - 4]);
    }
    if n < path.len() {
        assert(path[n] == rest[0]);
    }
    lemma_name_ends(false, path, 4, n);
}

/// The beginning of a verbatim path.
pub open spec fn verbatim_mark() -> Seq<char> {
    seq!['\\', '\\', '?', '\\']
}

/// A verbatim path has its first part as a prefix, where that is neither a drive nor
/// the mark of a share.
pub proof fn law_a_verbatim_part_is_a_prefix(name: Seq<char>, rest: Seq<char>)
    requires
        holds_no_backslash(name),
        rest.len() > 0 ==> rest[0] == '\\',
        !(name.len() >= 2 && is_drive_letter(name[0]) && name[1] == ':' && (name.len() == 2
            || name[2] == '/')),
        !(name.len() >= 3 && name[0] == 'U' && name[1] == 'N' && name[2] == 'C' && (name.len() == 3
            || name[3] == '/')),
    ensures
        paths::prefix_end('\\', verbatim_mark() + name + rest) == 4 + name.len(),
{
    let path = verbatim_mark() + name + rest;
    let n = 4 + name.len() as int;
    assert(path[0] == '\\' && path[1] == '\\' && path[2] == '?' && path[3] == '\\');
    assert forall|i: int| #![trigger path[i]] 4 <= i < n implies path[i] == name[i - 4] by {}
    if n < path.len() {
        assert(path[n] == rest[0]);
    }
    assert(!paths::names_verbatim_share('\\', path));
    if path.len() >= 6 {
        let two = path.subrange(4, 6);
        assert(two[0] == path[4] && two[1] == path[5]);
    }
    assert(!paths::names_verbatim_drive('\\', path));
    lemma_name_ends(true, path, 4, n);
}

/// A verbatim path has its drive as a prefix.
pub proof fn law_a_verbatim_drive_is_a_prefix(letter: char, rest: Seq<char>)
    requires
        is_drive_letter(letter),
        rest.len() > 0 ==> is_stroke(rest[0]),
    ensures
        paths::prefix_end('\\', verbatim_mark() + seq![letter, ':'] + rest) == 6,
{
    let path = verbatim_mark() + seq![letter, ':'] + rest;
    assert(path[0] == '\\' && path[1] == '\\' && path[2] == '?' && path[3] == '\\');
    assert(path.subrange(4, 6) =~= seq![letter, ':']);
    assert(path[5] == ':');
    if rest.len() > 0 {
        assert(path[6] == rest[0]);
    }
}

/// A verbatim path that names a share has the server and the share as a prefix, and
/// the server alone where no share is named.
pub proof fn law_a_verbatim_share_is_a_prefix(
    c: char,
    server: Seq<char>,
    share: Seq<char>,
    rest: Seq<char>,
)
    requires
        is_stroke(c),
        holds_no_backslash(server),
        holds_no_backslash(share),
        rest.len() > 0 ==> rest[0] == '\\',
    ensures
        ({
            let mark = verbatim_mark() + seq!['U', 'N', 'C', c];
            let whole = mark + server + seq!['\\'] + share + rest;
            &&& paths::prefix_end('\\', mark + server) == 8 + server.len()
            &&& share.len() > 0 ==> paths::prefix_end('\\', whole) == 9 + server.len()
                + share.len()
            &&& share.len() == 0 ==> paths::prefix_end('\\', whole) == 8 + server.len()
        }),
{
    let mark = verbatim_mark() + seq!['U', 'N', 'C', c];
    let n = 8 + server.len() as int;
    let m = n + 1 + share.len() as int;
    let alone = mark + server;
    assert(alone[0] == '\\' && alone[1] == '\\' && alone[2] == '?' && alone[3] == '\\');
    assert(alone[4] == 'U' && alone[5] == 'N' && alone[6] == 'C' && alone[7] == c);
    assert forall|i: int| #![trigger alone[i]] 8 <= i < n implies alone[i] != '\\' by {
        assert(alone[i] == server[i - 8]);
    }
    lemma_name_ends(true, alone, 8, n);
    let whole = mark + server + seq!['\\'] + share + rest;
    assert(whole[0] == '\\' && whole[1] == '\\' && whole[2] == '?' && whole[3] == '\\');
    assert(whole[4] == 'U' && whole[5] == 'N' && whole[6] == 'C' && whole[7] == c);
    assert(whole[n] == '\\');
    assert forall|i: int| #![trigger whole[i]] 8 <= i < n implies whole[i] != '\\' by {
        assert(whole[i] == server[i - 8]);
    }
    assert forall|i: int| #![trigger whole[i]] n < i < m implies whole[i] != '\\' by {
        assert(whole[i] == share[i - n - 1]);
    }
    if m < whole.len() {
        assert(whole[m] == rest[0]);
    }
    lemma_name_ends(true, whole, 8, n);
    lemma_name_ends(true, whole, n + 1, m);
}

/// Whether the parts of a path are separated by a character: by the separator of the
/// system, and by a slash but in a verbatim path.
pub open spec fn parts_end_at(separator: char, path: Seq<char>, c: char) -> bool {
    if separator == '\\' && path.len() >= 4 && path.take(4) == verbatim_mark() {
        c == '\\'
    } else {
        c == separator || c == '/'
    }
}

/// What separates the parts is what splits a path.
proof fn lemma_parts_end(separator: char, path: Seq<char>, c: char)
    ensures
        parts_end_at(separator, path, c) == paths::splits(
            separator,
            paths::is_verbatim(separator, path),
            c,
        ),
{
    if path.len() >= 4 {
        let four = path.take(4);
        assert(four[0] == path[0] && four[1] == path[1] && four[2] == path[2] && four[3]
            == path[3]);
        if paths::is_verbatim(separator, path) {
            assert(four =~= verbatim_mark());
        }
    }
}

/// The name behind the last separator of a path, as far as that stands behind the
/// prefix, is its last part; but two full stops are no name. The parent is what
/// stands before the separator, and the separator belongs to it where nothing but a
/// prefix does.
pub proof fn law_what_stands_behind_the_prefix(
    separator: char,
    above: Seq<char>,
    c: char,
    name: Seq<char>,
)
    requires
        ({
            let path = above.push(c) + name;
            &&& parts_end_at(separator, path, c)
            &&& paths::prefix_end(separator, path) <= above.len()
            &&& name.len() > 0
            &&& name != "."@
            &&& forall|i: int|
                #![trigger name[i]]
                0 <= i < name.len() ==> !parts_end_at(separator, path, name[i])
        }),
    ensures
        ({
            let path = above.push(c) + name;
            let prefix = paths::prefix_end(separator, path);
            &&& name != ".."@ ==> paths::file_name(separator, path) == Some(name)
            &&& name == ".."@ ==> paths::file_name(separator, path) is None
            &&& above.len() == prefix ==> paths::parent(separator, path) == Some(above.push(c))
            &&& above.len() > prefix && above.last() != '.' && !parts_end_at(
                separator,
                path,
                above.last(),
            ) ==> paths::parent(separator, path) == Some(above)
            &&& name != ".."@ ==> (paths::has_extension(separator, path) <==> exists|i: int|
                #![trigger name[i]]
                0 < i < name.len() && name[i] == '.')
        }),
{
    let path = above.push(c) + name;
    let verbatim = paths::is_verbatim(separator, path);
    let start = paths::body_start(separator, path);
    let prefix = paths::prefix_end(separator, path);
    let n = above.len() as int;
    let len = path.len() as int;
    paths::lemma_body_start(separator, path);
    assert(path[n] == c);
    lemma_parts_end(separator, path, c);
    assert forall|i: int| #![trigger path[i]] n < i < len implies !paths::splits(
        separator,
        verbatim,
        path[i],
    ) by {
        assert(path[i] == name[i - n - 1]);
        lemma_parts_end(separator, path, name[i - n - 1]);
    }
    assert(path.skip(n + 1) =~= name);
    assert(path.subrange(n + 1, len) =~= name);
    assert(path.take(n) =~= above);
    assert(path.take(n + 1) =~= above.push(c));
    assert(path[len - 1] == name.last());
    if name.len() == 1 && name[0] == '.' {
        reveal_strlit(".");
        assert(name =~= "."@);
    }
    if name.len() >= 2 {
        assert(path[len - 2] == name[name.len() - 2]);
    }
    assert(paths::last_end(separator, path) == len);
    lemma_part_of_name(separator, verbatim, path, start, n + 1, len);
    assert(paths::last_start(separator, path) == n + 1);
    if n == prefix {
        assert(start == n + 1);
    } else {
        assert(path[n - 1] == above.last());
        lemma_parts_end(separator, path, above.last());
        if above.last() != '.' && !parts_end_at(separator, path, above.last()) {
            assert(paths::body_end(separator, verbatim, path, start, n) == n);
            assert(paths::body_end(separator, verbatim, path, start, n + 1) == n);
        }
    }
    if name == ".."@ {
        reveal_strlit("..");
        assert(name =~= seq!['.', '.']);
    }
    assert(start < len);
    if name != ".."@ {
        let rest = name.drop_first();
        assert forall|i: int|
            #![trigger name[i]]
            0 < i < name.len() && name[i] == '.' implies rest.contains('.') by {
            assert(rest[i - 1] == '.');
        }
        if rest.contains('.') {
            let i = choose|i: int| 0 <= i < rest.len() && rest[i] == '.';
            assert(name[i + 1] == '.');
        }
    }
}

/// A path with nothing but separators behind its prefix has neither a last part nor
/// a parent. With one full stop before them it has no last part, and its parent is
/// empty where there is no prefix.
pub proof fn law_a_root_has_no_parent(separator: char, path: Seq<char>, from: int)
    requires
        0 <= from <= path.len(),
        from == paths::prefix_end(separator, path) || (from == paths::prefix_end(separator, path)
            + 1 && path[from - 1] == '.' && !paths::is_verbatim(separator, path) && separator
            != '.'),
        forall|i: int| #![trigger path[i]] from <= i < path.len() ==> parts_end_at(
            separator,
            path,
            path[i],
        ),
    ensures
        paths::file_name(separator, path) is None,
        from == paths::prefix_end(separator, path) ==> paths::parent(separator, path) is None,
        from == 1 && paths::prefix_end(separator, path) == 0 ==> paths::parent(separator, path)
            == Some(Seq::<char>::empty()),
{
    let start = paths::body_start(separator, path);
    let verbatim = paths::is_verbatim(separator, path);
    let prefix = paths::prefix_end(separator, path);
    paths::lemma_body_start(separator, path);
    assert forall|i: int| #![trigger path[i]] from <= i < path.len() implies paths::splits(
        separator,
        verbatim,
        path[i],
    ) by {
        lemma_parts_end(separator, path, path[i]);
    }
    lemma_only_separators(separator, verbatim, path, start, path.len() as int);
}

/// Where there are only separators, nothing is left.
proof fn lemma_only_separators(
    separator: char,
    verbatim: bool,
    path: Seq<char>,
    start: int,
    end: int,
)
    requires
        0 <= start <= end <= path.len(),
        forall|i: int|
            #![trigger path[i]]
            start <= i < end ==> paths::splits(separator, verbatim, path[i]),
    ensures
        paths::body_end(separator, verbatim, path, start, end) == start,
    decreases end - start,
{
    if end > start {
        assert(paths::splits(separator, verbatim, path[end - 1]));
        lemma_only_separators(separator, verbatim, path, start, end - 1);
    }
}

} // verus!
