//! Where things lie: the directories and files below the home of the agent, and
//! the paths that stand for entries of a database.

use crate::paths;
use crate::text::chars_of;
use vstd::prelude::*;

verus! {

/// Whether a character separates the parts of a path, where `separator` is the
/// one that the system writes. A slash always does.
pub open spec fn separates(separator: char, c: char) -> bool {
    c == '/' || c == separator
}

/// Whether a path is a drive and nothing else: a letter and a colon.
pub open spec fn is_drive(path: Seq<char>) -> bool {
    &&& path.len() == 2
    &&& 'a' <= path[0] <= 'z' || 'A' <= path[0] <= 'Z'
    &&& path[1] == ':'
}

/// A path with a name below it. Where the separator is a backslash, what lies
/// below a drive is named without a separator, and a verbatim path is written with
/// one backslash between its parts.
pub open spec fn joined_path(separator: char, base: Seq<char>, name: Seq<char>) -> Seq<char> {
    if paths::is_verbatim(separator, base) {
        paths::rewritten(separator, base).push(separator) + name
    } else if base.len() == 0 || (separator == '\\' && is_drive(base)) {
        base + name
    } else if separates(separator, base.last()) {
        base + name
    } else {
        base.push(separator) + name
    }
}

/// The directory of the agent in a home directory.
pub open spec fn gemini_dir(separator: char, home: Seq<char>) -> Seq<char> {
    joined_path(separator, home, ".gemini"@)
}

/// The directory of the conversations of the IDE.
pub open spec fn ide_brain_dir(separator: char, root: Seq<char>) -> Seq<char> {
    joined_path(separator, joined_path(separator, root, "antigravity-ide"@), "brain"@)
}

/// The directory of the conversations of an older IDE.
pub open spec fn legacy_brain_dir(separator: char, root: Seq<char>) -> Seq<char> {
    joined_path(separator, joined_path(separator, root, "antigravity"@), "brain"@)
}

/// The database of the command line tool.
pub open spec fn summaries_file(separator: char, root: Seq<char>) -> Seq<char> {
    joined_path(
        separator,
        joined_path(separator, root, "antigravity-cli"@),
        "conversation_summaries.db"@,
    )
}

/// The file of the projects.
pub open spec fn projects_file(separator: char, root: Seq<char>) -> Seq<char> {
    joined_path(separator, root, "projects.json"@)
}

/// The transcript in the directory of a conversation.
pub open spec fn transcript_file(separator: char, dir: Seq<char>) -> Seq<char> {
    joined_path(
        separator,
        joined_path(separator, joined_path(separator, dir, ".system_generated"@), "logs"@),
        "transcript.jsonl"@,
    )
}

/// The path that stands for an entry of a database.
pub open spec fn entry_path(db: Seq<char>, id: Seq<char>) -> Seq<char> {
    db + "#"@ + id
}

pub(crate) fn is_separator(separator: char, c: char) -> (r: bool)
    ensures
        r == separates(separator, c),
{
    c == '/' || c == separator
}

pub(crate) fn names_drive(path: &[char]) -> (r: bool)
    ensures
        r == is_drive(path@),
{
    path.len() == 2 && (('a' <= path[0] && path[0] <= 'z') || ('A' <= path[0] && path[0] <= 'Z'))
        && path[1] == ':'
}

/// A path with a name below it.
pub fn join(separator: char, base: &str, name: &str) -> (r: String)
    ensures
        r@ == joined_path(separator, base@, name@),
{
    let chars = chars_of(base);
    let len: usize = chars.len();
    let mut out = match paths::rewrite_verbatim(separator, chars.as_slice()) {
        Some(mut text) => {
            text.push(separator);
            text
        },
        None => {
            let mut text = base.to_string();
            if len > 0 && !(separator == '\\' && names_drive(chars.as_slice())) {
                if !is_separator(separator, chars[len - 1]) {
                    text.push(separator);
                }
            }
            text
        },
    };
    out.push_str(name);
    assert(out@ =~= joined_path(separator, base@, name@));
    out
}

/// The directory of the agent in a home directory.
pub fn gemini_home(separator: char, home: &str) -> (r: String)
    ensures
        r@ == gemini_dir(separator, home@),
{
    join(separator, home, ".gemini")
}

/// The directory of the conversations of the IDE.
pub fn ide_brain(separator: char, root: &str) -> (r: String)
    ensures
        r@ == ide_brain_dir(separator, root@),
{
    join(separator, join(separator, root, "antigravity-ide").as_str(), "brain")
}

/// The directory of the conversations of an older IDE.
pub fn legacy_brain(separator: char, root: &str) -> (r: String)
    ensures
        r@ == legacy_brain_dir(separator, root@),
{
    join(separator, join(separator, root, "antigravity").as_str(), "brain")
}

/// The database of the command line tool.
pub fn summaries_db(separator: char, root: &str) -> (r: String)
    ensures
        r@ == summaries_file(separator, root@),
{
    join(
        separator,
        join(separator, root, "antigravity-cli").as_str(),
        "conversation_summaries.db",
    )
}

/// The file of the projects.
pub fn projects_json(separator: char, root: &str) -> (r: String)
    ensures
        r@ == projects_file(separator, root@),
{
    join(separator, root, "projects.json")
}

/// The transcript in the directory of a conversation.
pub fn transcript_path(separator: char, dir: &str) -> (r: String)
    ensures
        r@ == transcript_file(separator, dir@),
{
    let generated = join(separator, dir, ".system_generated");
    let logs = join(separator, generated.as_str(), "logs");
    join(separator, logs.as_str(), "transcript.jsonl")
}

/// The path that stands for an entry of a database.
pub fn virtual_path(db: &str, id: &str) -> (r: String)
    ensures
        r@ == entry_path(db@, id@),
{
    let mut out = db.to_string();
    out.push_str("#");
    out.push_str(id);
    out
}

} // verus!
