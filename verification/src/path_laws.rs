//! What holds of joining paths and taking them apart, and so of finding a
//! transcript by its path.

use crate::adapter::AdapterModel;
use crate::layout;
use crate::paths;
use crate::sessions;
use crate::sessions::{EntryModel, FileFacts};
use vstd::prelude::*;

verus! {

/// Whether a path names a server, and nothing that the name of its share could be.
pub open spec fn leaves_share_open(separator: char, path: Seq<char>) -> bool {
    if separator != '\\' {
        false
    } else if paths::is_verbatim(separator, path) {
        paths::names_verbatim_share(separator, path) && paths::prefix_end(separator, path)
            == paths::next_separator(separator, true, path, 8)
    } else {
        paths::begins_like_share(separator, path) && !paths::begins_like_device(separator, path)
            && paths::next_separator(separator, false, path, 2) > 2 && paths::next_separator(
            separator,
            false,
            path,
            2,
        ) + 1 >= path.len()
    }
}

/// Whether joining makes the last name of a path, or the first one below it, the
/// name of a share: where a path names a server alone, and where a verbatim one has
/// no more than one name behind an empty share, since it is written without the
/// empty one.
pub open spec fn is_half_share(separator: char, path: Seq<char>) -> bool {
    if paths::is_verbatim(separator, path) {
        paths::file_name(separator, paths::rewritten(separator, path)) is None
    } else {
        leaves_share_open(separator, path)
    }
}

/// Whether a text can be the name of one part of a path.
pub open spec fn is_plain_name(separator: char, verbatim: bool, name: Seq<char>) -> bool {
    &&& name.len() > 0
    &&& name != "."@
    &&& name != ".."@
    &&& forall|i: int|
        #![trigger name[i]]
        0 <= i < name.len() ==> !paths::splits(separator, verbatim, name[i])
}

/// A path as that of something below it goes on from it: a verbatim one as it is
/// rewritten, any other without what counts for nothing at its end.
pub open spec fn tidied(separator: char, path: Seq<char>) -> Seq<char> {
    if paths::is_verbatim(separator, path) {
        paths::rewritten(separator, path)
    } else {
        path.take(paths::last_end(separator, path))
    }
}

/// The first separator is the one that has none before it.
pub proof fn lemma_separator_found(
    separator: char,
    verbatim: bool,
    path: Seq<char>,
    from: int,
    at: int,
)
    requires
        0 <= from <= at < path.len(),
        paths::splits(separator, verbatim, path[at]),
        forall|i: int|
            #![trigger path[i]]
            from <= i < at ==> !paths::splits(separator, verbatim, path[i]),
    ensures
        paths::next_separator(separator, verbatim, path, from) == at,
    decreases at - from,
{
    if from < at {
        assert(!paths::splits(separator, verbatim, path[from]));
        lemma_separator_found(separator, verbatim, path, from + 1, at);
    }
}

/// Where a name at the end of a path ends, and where it begins, is told by what
/// stands before that.
proof fn lemma_same_ends(
    separator: char,
    verbatim: bool,
    path: Seq<char>,
    whole: Seq<char>,
    start: int,
    end: int,
)
    requires
        0 <= start <= end <= path.len(),
        path.is_prefix_of(whole),
    ensures
        paths::body_end(separator, verbatim, path, start, end) == paths::body_end(
            separator,
            verbatim,
            whole,
            start,
            end,
        ),
        paths::part_start(separator, verbatim, path, start, end) == paths::part_start(
            separator,
            verbatim,
            whole,
            start,
            end,
        ),
    decreases end - start,
{
    if end > start {
        assert(path == whole.subrange(0, path.len() as int));
        assert(path[end - 1] == whole[end - 1]);
        if end - 1 > start {
            assert(path[end - 2] == whole[end - 2]);
        }
        lemma_same_ends(separator, verbatim, path, whole, start, end - 1);
    }
}

/// Two separators are found at the same places in two paths that agree up to the
/// second.
proof fn lemma_same_separators(
    separator: char,
    verbatim: bool,
    a: Seq<char>,
    b: Seq<char>,
    from: int,
)
    requires
        0 <= from <= a.len(),
        ({
            let first = paths::next_separator(separator, verbatim, a, from);
            let second = paths::next_separator(separator, verbatim, a, first + 1);
            &&& first < a.len()
            &&& second < a.len()
            &&& second < b.len()
            &&& forall|i: int| #![trigger b[i]] 0 <= i <= second ==> b[i] == a[i]
        }),
    ensures
        ({
            let first = paths::next_separator(separator, verbatim, a, from);
            let second = paths::next_separator(separator, verbatim, a, first + 1);
            &&& paths::next_separator(separator, verbatim, b, from) == first
            &&& paths::next_separator(separator, verbatim, b, first + 1) == second
        }),
{
    let first = paths::next_separator(separator, verbatim, a, from);
    let second = paths::next_separator(separator, verbatim, a, first + 1);
    paths::lemma_next_separator(separator, verbatim, a, from);
    paths::lemma_next_separator(separator, verbatim, a, first + 1);
    assert(b[first] == a[first]);
    assert(b[second] == a[second]);
    assert forall|i: int| #![trigger b[i]] from <= i < first implies !paths::splits(
        separator,
        verbatim,
        b[i],
    ) by {
        assert(b[i] == a[i]);
    }
    assert forall|i: int| #![trigger b[i]] first < i < second implies !paths::splits(
        separator,
        verbatim,
        b[i],
    ) by {
        assert(b[i] == a[i]);
    }
    lemma_separator_found(separator, verbatim, b, from, first);
    lemma_separator_found(separator, verbatim, b, first + 1, second);
}

/// A separator is found at the same place in two paths that agree up to it.
proof fn lemma_same_separator(
    separator: char,
    verbatim: bool,
    a: Seq<char>,
    b: Seq<char>,
    from: int,
)
    requires
        0 <= from <= a.len(),
        ({
            let at = paths::next_separator(separator, verbatim, a, from);
            &&& at < a.len()
            &&& at < b.len()
            &&& forall|i: int| #![trigger b[i]] 0 <= i <= at ==> b[i] == a[i]
        }),
    ensures
        paths::next_separator(separator, verbatim, b, from) == paths::next_separator(
            separator,
            verbatim,
            a,
            from,
        ),
{
    let at = paths::next_separator(separator, verbatim, a, from);
    paths::lemma_next_separator(separator, verbatim, a, from);
    assert(b[at] == a[at]);
    assert forall|i: int| #![trigger b[i]] from <= i < at implies !paths::splits(
        separator,
        verbatim,
        b[i],
    ) by {
        assert(b[i] == a[i]);
    }
    lemma_separator_found(separator, verbatim, b, from, at);
}

/// The prefix of a verbatim path is told by what stands before its end and by the
/// separator there.
proof fn lemma_same_verbatim_prefix(separator: char, path: Seq<char>, other: Seq<char>)
    requires
        paths::is_verbatim(separator, path),
        !leaves_share_open(separator, path),
        ({
            let at = paths::prefix_end(separator, path);
            &&& at < path.len()
            &&& at < other.len()
            &&& forall|i: int| #![trigger other[i]] 0 <= i < at ==> other[i] == path[i]
            &&& other[at] == '\\'
        }),
    ensures
        paths::is_verbatim(separator, other),
        paths::prefix_end(separator, other) == paths::prefix_end(separator, path),
        !leaves_share_open(separator, other),
{
    let at = paths::prefix_end(separator, path);
    paths::lemma_prefix_end(separator, path);
    assert(other[0] == path[0] && other[1] == path[1] && other[2] == path[2] && other[3]
        == path[3]);
    if paths::names_verbatim_share(separator, path) {
        paths::lemma_next_separator(separator, true, path, 8);
        let server_end = paths::next_separator(separator, true, path, 8);
        paths::lemma_next_separator(separator, true, path, server_end + 1);
        assert(path[at] == '\\');
        assert forall|i: int| #![trigger other[i]] 0 <= i <= at implies other[i] == path[i] by {}
        lemma_same_separators(separator, true, path, other, 8);
        assert(other[4] == path[4] && other[5] == path[5] && other[6] == path[6] && other[7]
            == path[7]);
    } else if paths::names_verbatim_drive(separator, path) {
        assert(other[4] == path[4] && other[5] == path[5]);
        assert(path.subrange(4, 6)[1] == path[5]);
        assert(other.subrange(4, 6) =~= path.subrange(4, 6));
        assert(!paths::names_verbatim_share(separator, other));
    } else {
        paths::lemma_next_separator(separator, true, path, 4);
        assert(path[at] == '\\');
        assert forall|i: int| #![trigger other[i]] 0 <= i <= at implies other[i] == path[i] by {}
        lemma_same_separator(separator, true, path, other, 4);
        assert(!paths::names_verbatim_share(separator, other)) by {
            if at >= 7 {
                assert(other[4] == path[4] && other[5] == path[5] && other[6] == path[6]
                    && other[7] == path[7]);
            }
        }
        assert(!paths::names_verbatim_drive(separator, other)) by {
            if other.len() >= 6 {
                let two = other.subrange(4, 6);
                assert(two[0] == other[4] && two[1] == other[5]);
                if at >= 6 {
                    assert(other[4] == path[4] && other[5] == path[5] && other[6] == path[6]);
                    assert(two =~= path.subrange(4, 6));
                }
            }
        }
    }
}

/// The prefix of a path that is not verbatim, and where its parts begin, do not
/// depend on what follows one of its parts.
proof fn lemma_same_start(separator: char, path: Seq<char>, whole: Seq<char>)
    requires
        path.is_prefix_of(whole),
        !paths::is_verbatim(separator, path),
        path.len() > paths::body_start(separator, path),
        !leaves_share_open(separator, path),
        whole.len() > path.len() ==> layout::separates(separator, whole[path.len() as int])
            || layout::separates(separator, path.last()),
        paths::file_name(separator, path) is Some,
    ensures
        !paths::is_verbatim(separator, whole),
        !leaves_share_open(separator, whole),
        paths::prefix_end(separator, whole) == paths::prefix_end(separator, path),
        paths::body_start(separator, whole) == paths::body_start(separator, path),
{
    assert(path == whole.subrange(0, path.len() as int));
    paths::lemma_body_start(separator, path);
    let at = paths::prefix_end(separator, path);
    let len = path.len() as int;
    assert forall|i: int| #![trigger whole[i]] 0 <= i < len implies whole[i] == path[i] by {
        assert(path[i] == whole[i]);
    }
    assert(path[0] == whole[0]);
    if separator == '\\' {
        if len >= 2 {
            assert(path[1] == whole[1]);
            assert(path.take(2) =~= whole.take(2));
            if paths::begins_like_share(separator, path) {
                lemma_same_share(separator, path, whole);
            }
        } else if whole.len() >= 2 {
            assert(!layout::separates(separator, path[0])) by {
                if layout::separates(separator, path[0]) {
                    assert(paths::body_start(separator, path) == 1);
                }
            }
            assert(whole.take(2)[1] == whole[1]);
            assert(!layout::is_drive(whole.take(2)));
        }
    }
    assert(path[at] == whole[at]);
    if at + 1 < len {
        assert(path[at + 1] == whole[at + 1]);
    }
}

/// As above, for a path that begins like a share.
proof fn lemma_same_share(separator: char, path: Seq<char>, whole: Seq<char>)
    requires
        separator == '\\',
        path.len() <= whole.len(),
        forall|i: int| #![trigger whole[i]] 0 <= i < path.len() ==> whole[i] == path[i],
        !paths::is_verbatim(separator, path),
        paths::begins_like_share(separator, path),
        path.len() > paths::body_start(separator, path),
        !leaves_share_open(separator, path),
        paths::file_name(separator, path) is Some,
    ensures
        !paths::is_verbatim(separator, whole),
        !leaves_share_open(separator, whole),
        paths::prefix_end(separator, whole) == paths::prefix_end(separator, path),
{
    let len = path.len() as int;
    let at = paths::prefix_end(separator, path);
    paths::lemma_prefix_end(separator, path);
    assert(whole[0] == path[0] && whole[1] == path[1]);
    paths::lemma_next_separator(separator, false, path, 2);
    let server_end = paths::next_separator(separator, false, path, 2);
    assert(len >= 3) by {
        if len == 2 {
            assert(at == 0);
            assert(paths::body_start(separator, path) == 1);
            assert(paths::last_end(separator, path) <= 1) by {
                reveal_with_fuel(paths::body_end, 3);
            }
        }
    }
    assert(whole[2] == path[2]);
    if len == 3 {
        assert(server_end == 2);
        assert(layout::separates(separator, path[2]));
    } else {
        assert(whole[3] == path[3]);
    }
    if paths::begins_like_device(separator, path) {
        paths::lemma_next_separator(separator, false, path, 4);
        lemma_same_separator(separator, false, path, whole, 4);
    } else {
        lemma_same_separator(separator, false, path, whole, 2);
        if server_end > 2 {
            assert(server_end + 1 < len);
            paths::lemma_next_separator(separator, false, path, server_end + 1);
            let end = paths::next_separator(separator, false, path, server_end + 1);
            assert(end < len);
            lemma_same_separator(separator, false, path, whole, server_end + 1);
        }
    }
}

/// A name that follows a separator, or stands where the parts begin, is the last
/// part of a path, and what stands before it, without separators at its end, is the
/// parent.
proof fn lemma_last_part(separator: char, path: Seq<char>, k: int)
    requires
        paths::body_start(separator, path) <= k < path.len(),
        k > paths::body_start(separator, path) ==> paths::splits(
            separator,
            paths::is_verbatim(separator, path),
            path[k - 1],
        ),
        is_plain_name(separator, paths::is_verbatim(separator, path), path.skip(k)),
    ensures
        paths::file_name(separator, path) == Some(path.skip(k)),
        paths::parent(separator, path) == Some(
            path.take(
                paths::body_end(
                    separator,
                    paths::is_verbatim(separator, path),
                    path,
                    paths::body_start(separator, path),
                    k,
                ),
            ),
        ),
        paths::last_end(separator, path) == path.len(),
{
    let verbatim = paths::is_verbatim(separator, path);
    let start = paths::body_start(separator, path);
    let len = path.len() as int;
    let name = path.skip(k);
    paths::lemma_body_start(separator, path);
    assert forall|i: int| #![trigger path[i]] k <= i < len implies !paths::splits(
        separator,
        verbatim,
        path[i],
    ) by {
        assert(path[i] == name[i - k]);
    }
    assert(paths::last_end(separator, path) == len) by {
        reveal_strlit(".");
        if path[len - 1] == '.' && (len - 1 == start || paths::splits(
            separator,
            verbatim,
            path[len - 2],
        )) {
            assert(len - 1 == k);
            assert(name =~= "."@);
        }
    }
    lemma_part_of_name(separator, verbatim, path, start, k, len);
    assert(path.subrange(k, len) =~= name);
}

pub proof fn lemma_part_of_name(
    separator: char,
    verbatim: bool,
    path: Seq<char>,
    start: int,
    k: int,
    end: int,
)
    requires
        0 <= start <= k <= end <= path.len(),
        k > start ==> paths::splits(separator, verbatim, path[k - 1]),
        forall|i: int|
            #![trigger path[i]]
            k <= i < end ==> !paths::splits(separator, verbatim, path[i]),
    ensures
        paths::part_start(separator, verbatim, path, start, end) == k,
    decreases end - k,
{
    if end > k {
        assert(!paths::splits(separator, verbatim, path[end - 1]));
        lemma_part_of_name(separator, verbatim, path, start, k, end - 1);
    }
}

/// The name at the end of a path is the name of a part.
proof fn lemma_name_is_plain(separator: char, path: Seq<char>)
    requires
        paths::file_name(separator, path) is Some,
    ensures
        is_plain_name(
            separator,
            paths::is_verbatim(separator, path),
            paths::file_name(separator, path)->0,
        ),
        paths::body_start(separator, path) < paths::last_end(separator, path) <= path.len(),
        paths::body_start(separator, path) <= paths::last_start(separator, path)
            < paths::last_end(separator, path),
        paths::last_start(separator, path) > paths::body_start(separator, path) ==> paths::splits(
            separator,
            paths::is_verbatim(separator, path),
            path[paths::last_start(separator, path) - 1],
        ),
{
    let verbatim = paths::is_verbatim(separator, path);
    let start = paths::body_start(separator, path);
    let end = paths::last_end(separator, path);
    paths::lemma_body_start(separator, path);
    paths::lemma_body_end(separator, verbatim, path, start, path.len() as int);
    paths::lemma_part_start(separator, verbatim, path, start, end);
    let k = paths::last_start(separator, path);
    let name = path.subrange(k, end);
    assert forall|i: int| #![trigger name[i]] 0 <= i < name.len() implies !paths::splits(
        separator,
        verbatim,
        name[i],
    ) by {
        assert(name[i] == path[k + i]);
    }
}

/// Where the parts of a path that is not verbatim begin stays the same when it is
/// cut behind one.
proof fn lemma_cut_start(separator: char, path: Seq<char>, end: int)
    requires
        !paths::is_verbatim(separator, path),
        !leaves_share_open(separator, path),
        paths::body_start(separator, path) < end <= path.len(),
        end < path.len() ==> layout::separates(separator, path[end]),
        !layout::separates(separator, path[end - 1]),
    ensures
        !paths::is_verbatim(separator, path.take(end)),
        paths::body_start(separator, path.take(end)) == paths::body_start(separator, path),
{
    let cut = path.take(end);
    let at = paths::prefix_end(separator, path);
    paths::lemma_body_start(separator, path);
    assert(cut[0] == path[0]);
    assert forall|i: int| #![trigger cut[i]] 0 <= i < end implies cut[i] == path[i] by {}
    assert(paths::prefix_end(separator, cut) == at) by {
        if separator == '\\' {
            if end >= 2 {
                assert(cut[1] == path[1]);
                assert(cut.take(2) =~= path.take(2));
                if paths::begins_like_share(separator, path) {
                    lemma_cut_share(separator, path, end);
                }
            } else if path.len() >= 2 {
                assert(path.take(2)[1] == path[1]);
                assert(!layout::is_drive(path.take(2)));
            }
        }
    }
    assert(cut[at] == path[at]);
    if at + 1 < end {
        assert(cut[at + 1] == path[at + 1]);
    }
}

/// As above, for a path that begins like a share.
proof fn lemma_cut_share(separator: char, path: Seq<char>, end: int)
    requires
        separator == '\\',
        !paths::is_verbatim(separator, path),
        !leaves_share_open(separator, path),
        paths::begins_like_share(separator, path),
        paths::body_start(separator, path) < end <= path.len(),
        end < path.len() ==> layout::separates(separator, path[end]),
        !layout::separates(separator, path[end - 1]),
        end >= 2,
    ensures
        paths::prefix_end(separator, path.take(end)) == paths::prefix_end(separator, path),
{
    let cut = path.take(end);
    let at = paths::prefix_end(separator, path);
    assert forall|i: int| #![trigger cut[i]] 0 <= i < end implies cut[i] == path[i] by {}
    assert(cut[0] == path[0] && cut[1] == path[1]);
    assert(end >= 3);
    assert(cut[2] == path[2]);
    if end >= 4 {
        assert(cut[3] == path[3]);
    }
    paths::lemma_prefix_end(separator, path);
    if paths::begins_like_device(separator, path) {
        paths::lemma_next_separator(separator, false, path, 4);
        lemma_same_separator(separator, false, path, cut, 4);
    } else {
        paths::lemma_next_separator(separator, false, path, 2);
        let server_end = paths::next_separator(separator, false, path, 2);
        if server_end > 2 {
            assert(server_end + 1 < path.len());
            paths::lemma_next_separator(separator, false, path, server_end + 1);
            let second = paths::next_separator(separator, false, path, server_end + 1);
            if second > server_end + 1 {
                assert(at == second);
                lemma_same_separators(separator, false, path, cut, 2);
            } else {
                assert(path[server_end + 1] == path[second]);
                if end > second {
                    lemma_same_separators(separator, false, path, cut, 2);
                } else {
                    assert(end <= server_end);
                    assert(end == server_end);
                    lemma_no_separator(separator, false, cut, 2);
                }
            }
        } else {
            lemma_same_separator(separator, false, path, cut, 2);
        }
    }
}

/// Where there is no separator, none is found.
pub proof fn lemma_no_separator(separator: char, verbatim: bool, path: Seq<char>, from: int)
    requires
        0 <= from <= path.len(),
        forall|i: int|
            #![trigger path[i]]
            from <= i < path.len() ==> !paths::splits(separator, verbatim, path[i]),
    ensures
        paths::next_separator(separator, verbatim, path, from) == path.len(),
    decreases path.len() - from,
{
    if from < path.len() {
        assert(!paths::splits(separator, verbatim, path[from]));
        lemma_no_separator(separator, verbatim, path, from + 1);
    }
}

/// A name behind a backslash is kept by squeezing.
proof fn lemma_squeezed_name(s: Seq<char>, name: Seq<char>)
    requires
        name.len() > 0,
        forall|i: int| #![trigger name[i]] 0 <= i < name.len() ==> name[i] != '\\',
    ensures
        paths::squeezed(s.push('\\') + name) == paths::squeezed(s).push('\\') + name,
    decreases name.len(),
{
    let whole = s.push('\\') + name;
    let rest = name.drop_last();
    assert(whole.last() == name[name.len() - 1]);
    assert(whole.drop_last() =~= s.push('\\') + rest);
    if rest.len() == 0 {
        assert(whole[whole.len() - 2] == '\\');
        assert(whole.drop_last() =~= s.push('\\'));
        assert(s.push('\\').drop_last() =~= s);
        assert(paths::squeezed(s.push('\\')) == paths::squeezed(s));
        assert(paths::squeezed(whole) =~= paths::squeezed(s).push('\\') + name);
    } else {
        assert(whole[whole.len() - 2] == name[name.len() - 2]);
        assert forall|i: int| #![trigger rest[i]] 0 <= i < rest.len() implies rest[i] != '\\' by {
            assert(rest[i] == name[i]);
        }
        lemma_squeezed_name(s, rest);
        assert(paths::squeezed(whole) =~= paths::squeezed(s).push('\\') + name);
    }
}

/// What squeezing leaves holds no two backslashes in a row, ends with none, begins
/// with one where the text does, and is not changed by squeezing it again.
proof fn lemma_squeezed(s: Seq<char>)
    ensures
        ({
            let q = paths::squeezed(s);
            &&& has_no_double(q)
            &&& q.len() > 0 ==> q.last() != '\\'
            &&& q.len() > 0 && s[0] == '\\' ==> q[0] == '\\'
            &&& paths::squeezed(q) == q
        }),
    decreases s.len(),
{
    if s.len() > 0 {
        let rest = s.drop_last();
        let q = paths::squeezed(rest);
        lemma_squeezed(rest);
        if s.last() != '\\' {
            if s.len() >= 2 && s[s.len() - 2] == '\\' {
                assert(q.push('\\').push(s.last()) =~= q.push('\\') + seq![s.last()]);
                lemma_squeezed_name(q, seq![s.last()]);
            } else {
                let now = q.push(s.last());
                assert(now.drop_last() =~= q);
                if s.len() >= 2 {
                    assert(rest.last() == s[s.len() - 2]);
                }
            }
        }
    }
}

/// Whether no two backslashes stand in a row.
spec fn has_no_double(s: Seq<char>) -> bool {
    forall|i: int|
        #![trigger s[i]]
        0 <= i && i + 1 < s.len() && s[i] == '\\' ==> s[i + 1] != '\\'
}

/// A text without two backslashes in a row is squeezed by its last one at most.
proof fn lemma_nothing_to_squeeze(s: Seq<char>)
    requires
        has_no_double(s),
    ensures
        paths::squeezed(s) == (if s.len() > 0 && s.last() == '\\' {
            s.drop_last()
        } else {
            s
        }),
    decreases s.len(),
{
    if s.len() > 0 {
        let rest = s.drop_last();
        assert forall|i: int|
            #![trigger rest[i]]
            0 <= i && i + 1 < rest.len() && rest[i] == '\\' implies rest[i + 1] != '\\' by {
            assert(rest[i] == s[i] && rest[i + 1] == s[i + 1]);
        }
        lemma_nothing_to_squeeze(rest);
        if s.len() >= 2 {
            assert(rest.last() == s[s.len() - 2]);
        }
        assert(paths::squeezed(s) =~= (if s.last() == '\\' {
            rest
        } else {
            s
        }));
    }
}

/// Backslashes at the end are squeezed away.
proof fn lemma_squeezed_end(s: Seq<char>, end: int)
    requires
        0 <= end <= s.len(),
        forall|i: int| #![trigger s[i]] end <= i < s.len() ==> s[i] == '\\',
    ensures
        paths::squeezed(s) == paths::squeezed(s.take(end)),
    decreases s.len() - end,
{
    if end < s.len() {
        assert(s[s.len() - 1] == '\\');
        assert(s.drop_last().take(end) =~= s.take(end));
        lemma_squeezed_end(s.drop_last(), end);
    } else {
        assert(s.take(end) =~= s);
    }
}

/// A verbatim path that ends with a name is rewritten as one that ends with a
/// backslash and the name.
proof fn lemma_rewritten(separator: char, path: Seq<char>) -> (before: Seq<char>)
    requires
        paths::is_verbatim(separator, path),
        paths::file_name(separator, path) is Some,
    ensures
        ({
            let at = paths::prefix_end(separator, path);
            let name = paths::file_name(separator, path)->0;
            &&& at < path.len()
            &&& paths::squeezed(paths::behind_prefix(separator, path)) == before.push('\\') + name
            &&& before.len() > 0 ==> before[0] == '\\' && before.last() != '\\'
            &&& paths::rewritten(separator, path) == path.take(at) + before.push('\\') + name
        }),
{
    let at = paths::prefix_end(separator, path);
    let start = paths::body_start(separator, path);
    let end = paths::last_end(separator, path);
    let k = paths::last_start(separator, path);
    let name = paths::file_name(separator, path)->0;
    let rest = paths::behind_prefix(separator, path);
    paths::lemma_prefix_end(separator, path);
    paths::lemma_body_start(separator, path);
    lemma_name_is_plain(separator, path);
    paths::lemma_body_end(separator, true, path, start, path.len() as int);
    assert(start == at + 1);
    let cut = end - at;
    let before = rest.take(k - 1 - at);
    assert forall|i: int| #![trigger rest[i]] cut <= i < rest.len() implies rest[i] == '\\' by {
        assert(rest[i] == path[at + i]);
    }
    lemma_squeezed_end(rest, cut);
    assert(rest[k - 1 - at] == '\\') by {
        if k > start {
            assert(rest[k - 1 - at] == path[k - 1]);
        }
    }
    assert forall|i: int| k <= i < end implies rest[i - at] == #[trigger] path[i] by {}
    assert(rest.take(cut) =~= before.push('\\') + name);
    lemma_squeezed_name(before, name);
    lemma_squeezed(before);
    let kept = paths::squeezed(before);
    if kept.len() > 0 {
        assert(before.len() > 0);
        assert(before[0] == rest[0]);
    }
    assert(paths::rewritten(separator, path) =~= path.take(at) + kept.push('\\') + name);
    kept
}

/// A verbatim path with an empty share and more than one name behind it: once it
/// is rewritten, the first of the names is that of the share, and the last is what
/// it was.
proof fn lemma_share_moves_on(separator: char, path: Seq<char>)
    requires
        paths::is_verbatim(separator, path),
        paths::file_name(separator, path) is Some,
        leaves_share_open(separator, path),
        !is_half_share(separator, path),
    ensures
        ({
            let again = paths::rewritten(separator, path);
            &&& paths::is_verbatim(separator, again)
            &&& !leaves_share_open(separator, again)
            &&& paths::rewritten(separator, again) == again
            &&& paths::file_name(separator, again) == paths::file_name(separator, path)
        }),
{
    let at = paths::prefix_end(separator, path);
    let name = paths::file_name(separator, path)->0;
    let again = paths::rewritten(separator, path);
    let before = lemma_rewritten(separator, path);
    let rest = before.push('\\') + name;
    lemma_name_is_plain(separator, path);
    lemma_squeezed(paths::behind_prefix(separator, path));
    assert(has_no_double(rest));
    paths::lemma_next_separator(separator, true, path, 8);
    assert(again =~= path.take(at) + rest);
    assert forall|i: int| #![trigger again[i]] 0 <= i < at implies again[i] == path[i] by {}
    assert forall|i: int| #![trigger again[i]] at <= i < again.len() implies again[i]
        == rest[i - at] by {}
    assert(rest[0] == '\\') by {
        if before.len() > 0 {
            assert(rest[0] == before[0]);
        }
    }
    assert(again[at] == '\\');
    assert(again[0] == path[0] && again[1] == path[1] && again[2] == path[2] && again[3] == path[3]);
    assert(again[4] == path[4] && again[5] == path[5] && again[6] == path[6] && again[7] == path[7]);
    lemma_separator_found(separator, true, again, 8, at);
    let k = again.len() - name.len();
    assert(again.skip(k) =~= name);
    assert(rest.len() >= 2);
    assert(rest[1] != '\\');
    assert(again[at + 1] == rest[1]);
    paths::lemma_next_separator(separator, true, again, at + 1);
    let end = paths::next_separator(separator, true, again, at + 1);
    assert(end > at + 1) by {
        if end == at + 1 {
            assert(paths::splits(separator, true, again[end]));
        }
    }
    assert(paths::prefix_end(separator, again) == end);
    assert(before.len() > 0) by {
        if before.len() == 0 {
            assert forall|i: int| #![trigger again[i]] at + 1 <= i < again.len() implies again[i]
                != '\\' by {
                assert(again[i] == name[i - at - 1]);
            }
            lemma_no_separator(separator, true, again, at + 1);
            assert(paths::body_start(separator, again) == again.len());
            assert(paths::last_end(separator, again) == again.len());
        }
    }
    assert(again[k - 1] == rest[before.len() as int]);
    assert(again[k - 1] == '\\');
    assert(end <= k - 1);
    assert(again[end] == '\\');
    lemma_last_part(separator, again, k);
    let tail = paths::behind_prefix(separator, again);
    assert(tail =~= rest.skip(end - at));
    assert forall|i: int|
        #![trigger tail[i]]
        0 <= i && i + 1 < tail.len() && tail[i] == '\\' implies tail[i + 1] != '\\' by {
        assert(tail[i] == rest[i + end - at] && tail[i + 1] == rest[i + 1 + end - at]);
    }
    assert(tail.last() == name[name.len() - 1]);
    lemma_nothing_to_squeeze(tail);
    assert(paths::rewritten(separator, again) =~= again);
}

/// What is needed of a path that something was joined to.
spec fn is_joined(separator: char, base: Seq<char>, name: Seq<char>, whole: Seq<char>) -> bool {
    &&& paths::file_name(separator, whole) == Some(name)
    &&& paths::parent(separator, whole) == Some(tidied(separator, base))
    &&& tidied(separator, whole) == whole
    &&& !leaves_share_open(separator, whole)
    &&& paths::file_name(separator, tidied(separator, base)) == paths::file_name(separator, base)
}

/// A path with the prefix of a verbatim one, and behind it some text that is empty
/// or begins with a backslash, a backslash and a name.
proof fn lemma_verbatim_with_name(
    separator: char,
    base: Seq<char>,
    before: Seq<char>,
    name: Seq<char>,
    path: Seq<char>,
)
    requires
        paths::is_verbatim(separator, base),
        !leaves_share_open(separator, base),
        paths::prefix_end(separator, base) < base.len(),
        before.len() > 0 ==> before[0] == '\\',
        is_plain_name(separator, true, name),
        path == base.take(paths::prefix_end(separator, base)) + before.push('\\') + name,
    ensures
        paths::is_verbatim(separator, path),
        !leaves_share_open(separator, path),
        paths::prefix_end(separator, path) == paths::prefix_end(separator, base),
        paths::body_start(separator, path) == paths::prefix_end(separator, base) + 1,
        paths::behind_prefix(separator, path) == before.push('\\') + name,
        paths::file_name(separator, path) == Some(name),
        paths::parent(separator, path) == Some(
            path.take(
                paths::body_end(
                    separator,
                    true,
                    path,
                    paths::prefix_end(separator, base) + 1,
                    path.len() - name.len(),
                ),
            ),
        ),
{
    let at = paths::prefix_end(separator, base);
    let rest = before.push('\\') + name;
    paths::lemma_prefix_end(separator, base);
    assert(path =~= base.take(at) + rest);
    assert(rest[0] == '\\') by {
        if before.len() > 0 {
            assert(rest[0] == before[0]);
        }
    }
    assert forall|i: int| #![trigger path[i]] 0 <= i < at implies path[i] == base[i] by {}
    assert(path[at] == rest[0]);
    lemma_same_verbatim_prefix(separator, base, path);
    let k = path.len() - name.len();
    assert(path[k - 1] == '\\');
    assert(path.skip(k) =~= name);
    lemma_last_part(separator, path, k);
    assert(path.skip(at + 1) =~= rest.skip(1));
    assert(seq!['\\'] + rest.skip(1) =~= rest);
}

/// One separator at the end is passed over.
proof fn lemma_one_separator(path: Seq<char>, start: int, end: int)
    requires
        0 <= start,
        start + 2 <= end <= path.len(),
        path[end - 1] == '\\',
        path[end - 2] != '\\',
    ensures
        paths::body_end('\\', true, path, start, end) == end - 1,
{
    assert(paths::body_end('\\', true, path, start, end - 1) == end - 1);
}

/// A verbatim path that something was joined to is written as it is rewritten.
proof fn lemma_joined_is_rewritten(
    separator: char,
    base: Seq<char>,
    rest: Seq<char>,
    name: Seq<char>,
    whole: Seq<char>,
)
    requires
        0 <= paths::prefix_end(separator, base) <= base.len(),
        paths::prefix_end(separator, whole) == paths::prefix_end(separator, base),
        paths::behind_prefix(separator, whole) == rest.push('\\') + name,
        paths::squeezed(rest) == rest,
        whole == base.take(paths::prefix_end(separator, base)) + rest.push('\\') + name,
        name.len() > 0,
        forall|i: int| #![trigger name[i]] 0 <= i < name.len() ==> name[i] != '\\',
    ensures
        paths::rewritten(separator, whole) == whole,
{
    let at = paths::prefix_end(separator, base);
    lemma_squeezed_name(rest, name);
    assert(whole.take(at) =~= base.take(at));
    assert(paths::rewritten(separator, whole) =~= whole);
}

/// Joining a name to a verbatim path.
#[verifier::spinoff_prover]
#[verifier::rlimit(40)]
proof fn lemma_joined_verbatim(separator: char, base: Seq<char>, name: Seq<char>)
    requires
        paths::is_verbatim(separator, base),
        paths::file_name(separator, base) is Some,
        !leaves_share_open(separator, base),
        is_plain_name(separator, true, name),
    ensures
        is_joined(separator, base, name, layout::joined_path(separator, base, name)),
{
    let at = paths::prefix_end(separator, base);
    let last = paths::file_name(separator, base)->0;
    let before = lemma_rewritten(separator, base);
    let tidy = paths::rewritten(separator, base);
    let whole = layout::joined_path(separator, base, name);
    let rest = before.push('\\') + last;
    paths::lemma_prefix_end(separator, base);
    lemma_name_is_plain(separator, base);
    lemma_verbatim_with_name(separator, base, before, last, tidy);
    assert(rest[0] == '\\') by {
        if before.len() > 0 {
            assert(rest[0] == before[0]);
        }
    }
    assert(whole =~= base.take(at) + rest.push('\\') + name);
    lemma_verbatim_with_name(separator, base, rest, name, whole);
    let k = whole.len() - name.len();
    assert(whole[k - 1] == '\\');
    assert(whole[k - 2] == last[last.len() - 1]);
    lemma_one_separator(whole, at + 1, k);
    assert(whole.take(k - 1) =~= tidy);
    lemma_squeezed(paths::behind_prefix(separator, base));
    assert forall|i: int| #![trigger name[i]] 0 <= i < name.len() implies name[i] != '\\' by {
        assert(!paths::splits(separator, true, name[i]));
    }
    lemma_joined_is_rewritten(separator, base, rest, name, whole);
}

/// Joining a name to a path that is not verbatim.
proof fn lemma_joined_plainly(separator: char, base: Seq<char>, name: Seq<char>)
    requires
        !paths::is_verbatim(separator, base),
        paths::file_name(separator, base) is Some,
        !leaves_share_open(separator, base),
        is_plain_name(separator, false, name),
    ensures
        is_joined(separator, base, name, layout::joined_path(separator, base, name)),
{
    let whole = layout::joined_path(separator, base, name);
    let start = paths::body_start(separator, base);
    let len = base.len() as int;
    let end = paths::last_end(separator, base);
    let k = whole.len() - name.len();
    lemma_name_is_plain(separator, base);
    paths::lemma_body_start(separator, base);
    paths::lemma_body_end(separator, false, base, start, len);
    assert(!(separator == '\\' && layout::is_drive(base))) by {
        if separator == '\\' && layout::is_drive(base) {
            assert(base.take(2) =~= base);
        }
    }
    assert(base =~= whole.subrange(0, len));
    assert(base.is_prefix_of(whole));
    lemma_same_start(separator, base, whole);
    assert(whole.skip(k) =~= name);
    if layout::separates(separator, base.last()) {
        assert(k == len);
        assert(whole[k - 1] == base.last());
    } else {
        assert(k == len + 1);
        assert(whole[k - 1] == separator);
    }
    lemma_last_part(separator, whole, k);
    lemma_same_ends(separator, false, base, whole, start, len);
    assert(paths::body_end(separator, false, whole, start, k) == end);
    assert(whole.take(end) =~= base.take(end));
    assert(whole.take(whole.len() as int) =~= whole);
    // The base without what counts for nothing at its end.
    let tidy = base.take(end);
    assert(tidy.is_prefix_of(base));
    lemma_cut_start(separator, base, end);
    lemma_same_ends(separator, false, tidy, base, start, end);
    assert(paths::body_end(separator, false, base, start, end) == end);
    let first = paths::part_start(separator, false, base, start, end);
    assert(tidy.subrange(first, end) =~= base.subrange(first, end));
}

/// The names that the path of a transcript ends with are names of parts.
proof fn lemma_fixed_names(separator: char, verbatim: bool)
    requires
        separator == '/' || separator == '\\',
    ensures
        is_plain_name(separator, verbatim, ".system_generated"@),
        is_plain_name(separator, verbatim, "logs"@),
        is_plain_name(separator, verbatim, "transcript.jsonl"@),
{
    reveal_strlit(".system_generated");
    reveal_strlit("logs");
    reveal_strlit("transcript.jsonl");
    reveal_strlit(".");
    reveal_strlit("..");
    assert("."@.len() == 1);
    assert(".."@.len() == 2);
}

/// The lineage of a name below a path begins with the name, and goes on with the
/// lineage of the path; the whole can be joined to again.
proof fn lemma_joined_lineage(separator: char, base: Seq<char>, name: Seq<char>)
    requires
        paths::file_name(separator, base) is Some,
        !is_half_share(separator, base),
        is_plain_name(separator, true, name),
        is_plain_name(separator, false, name),
    ensures
        ({
            let whole = layout::joined_path(separator, base, name);
            &&& paths::lineage_of(separator, whole) == seq![Some(name)] + paths::lineage_of(
                separator,
                tidied(separator, base),
            )
            &&& is_joined(separator, base, name, whole)
            &&& !is_half_share(separator, whole)
        }),
{
    if !paths::is_verbatim(separator, base) {
        lemma_joined_plainly(separator, base, name);
    } else if leaves_share_open(separator, base) {
        lemma_share_moves_on(separator, base);
        lemma_joined_verbatim(separator, paths::rewritten(separator, base), name);
    } else {
        lemma_joined_verbatim(separator, base, name);
    }
}

/// A lineage begins with the name at the end of the path.
proof fn lemma_lineage_begins(separator: char, path: Seq<char>)
    ensures
        paths::lineage_of(separator, path).len() > 0,
        paths::lineage_of(separator, path)[0] == paths::file_name(separator, path),
{
}

/// The last four parts of the path of a transcript are three fixed names and the
/// name of the directory of the conversation. A directory is left out whose path
/// names a server and whose name, or the first one below it, joining makes that of
/// the share.
pub proof fn law_the_path_of_a_transcript_names_its_conversation(separator: char, dir: Seq<char>)
    requires
        separator == '/' || separator == '\\',
        paths::file_name(separator, dir) is Some,
        !is_half_share(separator, dir),
    ensures
        ({
            let path = layout::transcript_file(separator, dir);
            let lineage = paths::lineage_of(separator, path);
            &&& lineage.len() >= 4
            &&& lineage[0] == Some("transcript.jsonl"@)
            &&& lineage[1] == Some("logs"@)
            &&& lineage[2] == Some(".system_generated"@)
            &&& lineage[3] == paths::file_name(separator, dir)
        }),
{
    let generated = layout::joined_path(separator, dir, ".system_generated"@);
    let logs = layout::joined_path(separator, generated, "logs"@);
    lemma_fixed_names(separator, true);
    lemma_fixed_names(separator, false);
    lemma_joined_lineage(separator, dir, ".system_generated"@);
    lemma_joined_lineage(separator, generated, "logs"@);
    lemma_joined_lineage(separator, logs, "transcript.jsonl"@);
    lemma_lineage_begins(separator, tidied(separator, dir));
}

/// The directory that a session of a transcript takes up is that of its
/// conversation, but for what counts for nothing at the end of its path.
pub proof fn law_a_transcript_lies_in_its_directory(separator: char, dir: Seq<char>)
    requires
        separator == '/' || separator == '\\',
        paths::file_name(separator, dir) is Some,
        !is_half_share(separator, dir),
    ensures
        paths::third_parent(separator, layout::transcript_file(separator, dir)) == Some(
            tidied(separator, dir),
        ),
{
    let generated = layout::joined_path(separator, dir, ".system_generated"@);
    let logs = layout::joined_path(separator, generated, "logs"@);
    lemma_fixed_names(separator, true);
    lemma_fixed_names(separator, false);
    lemma_joined_lineage(separator, dir, ".system_generated"@);
    lemma_joined_lineage(separator, generated, "logs"@);
    lemma_joined_lineage(separator, logs, "transcript.jsonl"@);
}

/// Finding a transcript by its path agrees with listing: each transcript that is
/// listed is found by the path that it is listed with, as the same reference. The
/// path of an entry ends with its name, and `facts` says what there is at a path.
pub proof fn law_file_ref_agrees_with_listing(
    adapter: AdapterModel,
    entries: Seq<EntryModel>,
    facts: spec_fn(Seq<char>) -> Option<FileFacts>,
    k: int,
)
    requires
        adapter.separator == '/' || adapter.separator == '\\',
        forall|i: int|
            #![trigger entries[i]]
            0 <= i < entries.len() ==> {
                &&& paths::file_name(adapter.separator, entries[i].path) == Some(entries[i].name)
                &&& !is_half_share(adapter.separator, entries[i].path)
                &&& entries[i].transcript == facts(
                    layout::transcript_file(adapter.separator, entries[i].path),
                )
            },
        0 <= k < sessions::listed_transcripts(adapter, entries).len(),
    ensures
        ({
            let r = sessions::listed_transcripts(adapter, entries)[k];
            sessions::path_ref(adapter.separator, r.file_path, facts(r.file_path)) == Some(r)
        }),
{
    let r = sessions::listed_transcripts(adapter, entries)[k];
    crate::laws::lemma_ide_refs(adapter.separator, entries);
    let i = choose|i: int|
        #![trigger entries[i]]
        0 <= i < entries.len() && sessions::entry_ref(adapter.separator, entries[i]) == Some(r);
    law_the_path_of_a_transcript_names_its_conversation(adapter.separator, entries[i].path);
}

/// The name at the end of a path is what stands behind its last separator, whatever
/// its length and whatever stands before, with or without separators behind it; the
/// parent is what stands before the separator; and a name has an extension where it
/// holds a full stop that is not its first character.
pub proof fn law_the_last_part_of_a_path(above: Seq<char>, name: Seq<char>)
    requires
        name.len() > 0,
        name != "."@,
        name != ".."@,
        forall|i: int| #![trigger name[i]] 0 <= i < name.len() ==> name[i] != '/',
    ensures
        ({
            let path = above.push('/') + name;
            &&& paths::file_name('/', path) == Some(name)
            &&& paths::file_name('/', path.push('/')) == Some(name)
            &&& paths::file_name('/', name) == Some(name)
            &&& above.len() == 0 ==> paths::parent('/', path) == Some(seq!['/'])
            &&& paths::parent('/', name) == Some(Seq::<char>::empty())
            &&& above.len() > 0 && above.last() != '/' && !(above.len() >= 2 && above.last() == '.'
                && above[above.len() - 2] == '/') ==> paths::parent('/', path) == Some(above)
            &&& paths::has_extension('/', path) <==> exists|i: int|
                #![trigger name[i]]
                0 < i < name.len() && name[i] == '.'
        }),
{
    let path = above.push('/') + name;
    let k = above.len() + 1;
    assert(is_plain_name('/', false, name));
    assert(path.skip(k as int) =~= name);
    assert(path[k - 1] == '/');
    lemma_last_part('/', path, k as int);
    assert(name.skip(0) =~= name);
    assert(paths::body_start('/', name) == 0) by {
        if name.len() == 1 && name[0] == '.' {
            reveal_strlit(".");
            assert(name =~= "."@);
        }
        if name.len() > 1 {
            assert(name[1] != '/');
        }
        assert(name[0] != '/');
    }
    lemma_last_part('/', name, 0);
    assert(name.take(0) =~= Seq::empty());
    let start = paths::body_start('/', path);
    if above.len() == 0 {
        assert(start == 1);
        assert(path.take(1) =~= seq!['/']);
    } else if above.last() != '/' && !(above.len() >= 2 && above.last() == '.' && above[above.len()
        - 2] == '/') {
        let n = above.len() as int;
        assert(path[n - 1] == above.last());
        if n >= 2 {
            assert(path[n - 2] == above[n - 2]);
        }
        assert(path[0] == above[0]);
        assert(paths::body_end('/', false, path, start, k as int) == paths::body_end(
            '/',
            false,
            path,
            start,
            n,
        ));
        assert(paths::body_end('/', false, path, start, n) == n);
        assert(path.take(n) =~= above);
    }
    let slashed = path.push('/');
    assert(slashed.is_prefix_of(slashed));
    assert(path =~= slashed.subrange(0, path.len() as int));
    assert(path.is_prefix_of(slashed));
    assert(slashed[0] == path[0]);
    if path.len() > 1 {
        assert(slashed[1] == path[1]);
    }
    assert(paths::body_start('/', slashed) == start);
    lemma_same_ends('/', false, path, slashed, start, path.len() as int);
    assert(paths::last_end('/', slashed) == path.len());
    lemma_part_of_name('/', false, path, start, k as int, path.len() as int);
    assert(slashed.subrange(k as int, path.len() as int) =~= name);
    let rest = name.drop_first();
    if rest.contains('.') {
        let j = choose|j: int| 0 <= j < rest.len() && rest[j] == '.';
        assert(name[j + 1] == '.');
    }
    assert forall|i: int|
        #![trigger name[i]]
        0 < i < name.len() && name[i] == '.' implies rest.contains('.') by {
        assert(rest[i - 1] == '.');
    }
}

/// The lineage of a path goes up to where there is no parent.
pub proof fn law_a_lineage_goes_all_the_way_up(separator: char, path: Seq<char>)
    ensures
        ({
            let lineage = paths::lineage_of(separator, path);
            &&& lineage.len() > 0
            &&& lineage[0] == paths::file_name(separator, path)
            &&& paths::parent(separator, path) is None ==> lineage.len() == 1
            &&& paths::parent(separator, path) matches Some(above) ==> lineage.skip(1)
                == paths::lineage_of(separator, above)
        }),
{
    match paths::parent(separator, path) {
        Some(above) => {
            assert(paths::lineage_of(separator, path).skip(1) =~= paths::lineage_of(
                separator,
                above,
            ));
        },
        None => {},
    }
}

} // verus!
