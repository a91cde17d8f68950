//! The arguments of a tool call: what to show of them, and the directory that
//! the tool worked in.

use crate::conventions::Conventions;
use crate::json;
use crate::pairs;
use crate::text;
use crate::text::{chars_of, strip_of, text_of, trim_chars, trim_text, CharClass};
use vstd::prelude::*;

verus! {

/// The arguments of a tool call.
pub enum ToolArgs {
    /// A text, which may itself be JSON.
    Text(String),
    /// A JSON value that is no string: its members that are strings, and its
    /// text.
    Tree { members: Vec<(String, String)>, text: String },
}

/// The model of the arguments of a tool call.
#[verifier::ext_equal]
pub enum ToolArgsModel {
    Text(Seq<char>),
    Tree { members: Map<Seq<char>, Seq<char>>, text: Seq<char> },
}

impl DeepView for ToolArgs {
    type V = ToolArgsModel;

    open spec fn deep_view(&self) -> ToolArgsModel {
        match *self {
            ToolArgs::Text(s) => ToolArgsModel::Text(s@),
            ToolArgs::Tree { members, text } => ToolArgsModel::Tree {
                members: pairs::pairs_map(members.deep_view()),
                text: text@,
            },
        }
    }
}

/// The arguments that a JSON value stands for.
pub open spec fn args_of(value: json::Json) -> ToolArgsModel {
    match value.str() {
        Some(s) => ToolArgsModel::Text(s),
        None => ToolArgsModel::Tree {
            members: value.str_members(),
            text: json::json_text(value),
        },
    }
}

/// The arguments that a JSON value stands for.
pub fn read_args(value: &serde_json::Value) -> (r: ToolArgs)
    ensures
        r.deep_view() == args_of(json::json_tree(*value)),
{
    match value.as_str() {
        Some(s) => ToolArgs::Text(s.to_string()),
        None => ToolArgs::Tree {
            members: json::str_members(value),
            text: json::value_text(value),
        },
    }
}

/// The members that tell where the tool worked, the most telling first.
pub open spec fn cwd_keys() -> Seq<Seq<char>> {
    seq!["Cwd"@, "DirectoryPath"@, "SearchPath"@]
}

/// The members that say what the call is about, the most telling first.
pub open spec fn preview_keys() -> Seq<Seq<char>> {
    seq![
        "toolSummary"@,
        "toolAction"@,
        "CommandLine"@,
        "TargetFile"@,
        "AbsolutePath"@,
        "Query"@,
        "DirectoryPath"@,
    ]
}

/// How many characters of the arguments are shown.
pub const PREVIEW_LIMIT: usize = 120;

/// A value without the quotation marks round it, and then without the white
/// space.
pub open spec fn bare(value: Seq<char>) -> Seq<char> {
    text::trimmed(text::strip(value, CharClass::Quote))
}

/// The first of the members that has anything to say.
pub open spec fn first_telling(
    members: Map<Seq<char>, Seq<char>>,
    keys: Seq<Seq<char>>,
) -> Option<Seq<char>>
    decreases keys.len(),
{
    if keys.len() == 0 {
        None
    } else if members.contains_key(keys[0]) && bare(members[keys[0]]).len() > 0 {
        Some(bare(members[keys[0]]))
    } else {
        first_telling(members, keys.drop_first())
    }
}

/// The members of the arguments that are strings. A text that is JSON has those
/// of the value in it.
pub open spec fn telling_members(args: ToolArgsModel) -> Map<Seq<char>, Seq<char>> {
    match args {
        ToolArgsModel::Text(s) => match json::parsed_json(s) {
            Some(value) => value.str_members(),
            None => Map::empty(),
        },
        ToolArgsModel::Tree { members, .. } => members,
    }
}

/// The arguments as they were given.
pub open spec fn input_text(args: ToolArgsModel) -> Seq<char> {
    match args {
        ToolArgsModel::Text(s) => s,
        ToolArgsModel::Tree { text, .. } => text,
    }
}

/// What to show of arguments, before it is cut: what they are about, else a
/// text without the white space at its ends, else the text of the value.
pub open spec fn preview_text(
    args: ToolArgsModel,
    members: Map<Seq<char>, Seq<char>>,
) -> Seq<char> {
    match first_telling(members, preview_keys()) {
        Some(s) => s,
        None => match args {
            ToolArgsModel::Text(s) => text::trimmed(s),
            ToolArgsModel::Tree { text, .. } => text,
        },
    }
}

/// What a call shows of its arguments, the arguments as given, and the
/// directory that the tool worked in, where `members` are those of the
/// arguments that are strings.
pub open spec fn args_with<C: Conventions>(
    rules: &C,
    args: ToolArgsModel,
    members: Map<Seq<char>, Seq<char>>,
) -> (Seq<char>, Option<Seq<char>>, Option<Seq<char>>) {
    (
        rules.clipped(preview_text(args, members), PREVIEW_LIMIT as nat).0,
        Some(input_text(args)),
        first_telling(members, cwd_keys()),
    )
}

/// What a call shows of its arguments, the arguments as given, and the
/// directory that the tool worked in.
pub open spec fn args_parts<C: Conventions>(rules: &C, args: Option<ToolArgsModel>) -> (
    Seq<char>,
    Option<Seq<char>>,
    Option<Seq<char>>,
) {
    match args {
        Some(args) => args_with(rules, args, telling_members(args)),
        None => (Seq::empty(), None, None),
    }
}

fn find_telling(members: &Vec<(String, String)>, keys: &Vec<&str>) -> (r: Option<String>)
    ensures
        r.deep_view() == first_telling(pairs::pairs_map(members.deep_view()), keys.deep_view()),
{
    let ghost map = pairs::pairs_map(members.deep_view());
    let ghost all = keys.deep_view();
    assert(all.skip(0) =~= all);
    let mut i: usize = 0;
    while i < keys.len()
        invariant
            i <= keys@.len(),
            map == pairs::pairs_map(members.deep_view()),
            all == keys.deep_view(),
            first_telling(map, all) == first_telling(map, all.skip(i as int)),
        decreases keys@.len() - i,
    {
        let ghost rest = all.skip(i as int);
        assert(rest[0] == keys@[i as int]@);
        assert(rest.drop_first() =~= all.skip(i + 1));
        match pairs::lookup(members, keys[i]) {
            Some(value) => {
                let chars = chars_of(value.as_str());
                let inner = trim_chars(strip_of(chars.as_slice(), CharClass::Quote));
                if inner.len() > 0 {
                    return Some(text_of(inner));
                }
            },
            None => {},
        }
        i = i + 1;
    }
    None
}

/// What a call shows of its arguments, the arguments as given, and the
/// directory that the tool worked in, where `members` are those of the
/// arguments that are strings.
pub fn parse_args_with<C: Conventions>(
    rules: &C,
    args: &ToolArgs,
    members: &Vec<(String, String)>,
) -> (r: (String, Option<String>, Option<String>))
    ensures
        (r.0@, r.1.deep_view(), r.2.deep_view()) == args_with(
            rules,
            args.deep_view(),
            pairs::pairs_map(members.deep_view()),
        ),
{
    let dirs: Vec<&str> = vec!["Cwd", "DirectoryPath", "SearchPath"];
    assert(dirs.deep_view() =~= cwd_keys());
    let cwd = find_telling(members, &dirs);
    let topics: Vec<&str> = vec![
        "toolSummary",
        "toolAction",
        "CommandLine",
        "TargetFile",
        "AbsolutePath",
        "Query",
        "DirectoryPath",
    ];
    assert(topics.deep_view() =~= preview_keys());
    let preview = match find_telling(members, &topics) {
        Some(s) => s,
        None => match args {
            ToolArgs::Text(s) => trim_text(s.as_str()),
            ToolArgs::Tree { text, .. } => text.clone(),
        },
    };
    let input = match args {
        ToolArgs::Text(s) => s.clone(),
        ToolArgs::Tree { text, .. } => text.clone(),
    };
    (rules.clip(preview.as_str(), PREVIEW_LIMIT).0, Some(input), cwd)
}

/// What a call shows of its arguments, the arguments as given, and the
/// directory that the tool worked in. The name of the tool makes no difference.
pub fn parse_tool_args<C: Conventions>(
    rules: &C,
    _tool_name: &str,
    args: Option<&ToolArgs>,
) -> (r: (String, Option<String>, Option<String>))
    ensures
        (r.0@, r.1.deep_view(), r.2.deep_view()) == args_parts(rules, args.deep_view()),
{
    match args {
        None => (String::new(), None, None),
        Some(args) => match args {
            ToolArgs::Text(s) => {
                let members = match json::value_from_str(s.as_str()) {
                    Some(value) => json::str_members(&value),
                    None => Vec::new(),
                };
                parse_args_with(rules, args, &members)
            },
            ToolArgs::Tree { members, .. } => parse_args_with(rules, args, members),
        },
    }
}

} // verus!
