//! The adapter: where the conversations of the agent are, and what it keeps of
//! the files that it has read.

use crate::layout;
use crate::layout::{
    gemini_home, ide_brain, join, legacy_brain, projects_json, summaries_db,
};
use crate::models::AgentId;
use crate::pairs;
use crate::paths;
use crate::paths::path_name;
use crate::projects;
use crate::projects::{copy_projects, find_project_path, read_projects};
use crate::store::{copy_rows, AgRow, AgRowModel};
use crate::text::same_text;
use vstd::prelude::*;

verus! {

/// The adapter for the conversations of Antigravity. The IDE writes a full
/// transcript of each; the command line tool keeps a summary in a database.
pub struct AntigravityAdapter {
    separator: char,
    brain_root: Option<String>,
    cli_db: Option<String>,
    projects_json: String,
    rows_cache: Option<(i64, Vec<AgRow>)>,
    projects_cache: Option<(i64, Vec<(String, String)>)>,
}

/// The model of the adapter: its roots, and what it read last of the database
/// and of the file of projects, each with the stamp of what was read.
#[verifier::ext_equal]
pub struct AdapterModel {
    pub separator: char,
    pub brain_root: Option<Seq<char>>,
    pub cli_db: Option<Seq<char>>,
    pub projects_json: Seq<char>,
    pub rows_cache: Option<(i64, Seq<AgRowModel>)>,
    pub projects_cache: Option<(i64, Seq<(Seq<char>, Seq<char>)>)>,
}

impl AdapterModel {
    /// No project is kept twice.
    pub open spec fn well_formed(self) -> bool {
        match self.projects_cache {
            Some(cache) => pairs::distinct_keys(cache.1),
            None => true,
        }
    }

    /// The projects that were read last.
    pub open spec fn projects(self) -> Seq<(Seq<char>, Seq<char>)> {
        match self.projects_cache {
            Some(cache) => cache.1,
            None => Seq::empty(),
        }
    }

    /// An adapter for the given roots that has read nothing.
    pub open spec fn fresh(
        separator: char,
        brain_root: Option<Seq<char>>,
        cli_db: Option<Seq<char>>,
        projects_json: Seq<char>,
    ) -> AdapterModel {
        AdapterModel {
            separator,
            brain_root,
            cli_db,
            projects_json,
            rows_cache: None,
            projects_cache: None,
        }
    }

    /// Whether the projects of the given stamp have been read.
    pub open spec fn has_projects(self, stamp: i64) -> bool {
        match self.projects_cache {
            Some(cache) => cache.0 == stamp,
            None => false,
        }
    }

    /// Whether the summaries of the given stamp have been read.
    pub open spec fn has_rows(self, stamp: i64) -> bool {
        match self.rows_cache {
            Some(cache) => cache.0 == stamp,
            None => false,
        }
    }
}

impl DeepView for AntigravityAdapter {
    type V = AdapterModel;

    closed spec fn deep_view(&self) -> AdapterModel {
        AdapterModel {
            separator: self.separator,
            brain_root: self.brain_root.deep_view(),
            cli_db: self.cli_db.deep_view(),
            projects_json: self.projects_json@,
            rows_cache: self.rows_cache.deep_view(),
            projects_cache: self.projects_cache.deep_view(),
        }
    }
}

/// What there is at a directory that the user has named.
#[derive(Clone, Copy)]
pub struct RootProbes {
    /// It is a file.
    pub is_file: bool,
    /// There is a directory of conversations right below it.
    pub brain_is_dir: bool,
    /// There is a directory of conversations of the IDE below it.
    pub ide_brain_is_dir: bool,
    /// There is a database of the command line tool below it.
    pub nested_db_is_file: bool,
    /// There is a database right below it.
    pub db_is_file: bool,
    /// There is a file of projects right below it.
    pub projects_is_file: bool,
}

/// The directory of conversations and the database for a directory that the
/// user has named.
pub open spec fn custom_roots(separator: char, dir: Seq<char>, probes: RootProbes) -> (
    Option<Seq<char>>,
    Option<Seq<char>>,
) {
    if probes.is_file {
        (None, Some(dir))
    } else if paths::file_name(separator, dir) == Some("brain"@) {
        (Some(dir), None)
    } else if probes.brain_is_dir {
        (Some(layout::joined_path(separator, dir, "brain"@)), None)
    } else if probes.ide_brain_is_dir {
        (
            Some(layout::ide_brain_dir(separator, dir)),
            if probes.nested_db_is_file {
                Some(layout::summaries_file(separator, dir))
            } else {
                None
            },
        )
    } else if probes.db_is_file {
        (None, Some(layout::joined_path(separator, dir, "conversation_summaries.db"@)))
    } else if probes.nested_db_is_file {
        (None, Some(layout::summaries_file(separator, dir)))
    } else {
        (None, Some(layout::joined_path(separator, dir, "conversation_summaries.db"@)))
    }
}

/// The file of projects for a directory that the user has named: the one there,
/// else the one of the agent.
pub open spec fn custom_projects(
    separator: char,
    dir: Seq<char>,
    probes: RootProbes,
    home: Seq<char>,
) -> Seq<char> {
    if probes.projects_is_file {
        layout::projects_file(separator, dir)
    } else {
        layout::projects_file(separator, layout::gemini_dir(separator, home))
    }
}

/// The adapter for a directory that the user has named.
pub open spec fn custom_adapter(
    separator: char,
    dir: Seq<char>,
    probes: RootProbes,
    home: Seq<char>,
) -> AdapterModel {
    AdapterModel::fresh(
        separator,
        custom_roots(separator, dir, probes).0,
        custom_roots(separator, dir, probes).1,
        custom_projects(separator, dir, probes, home),
    )
}

impl AntigravityAdapter {
    /// The adapter for a home directory. An older IDE's conversations are taken
    /// where those are there and the present one's are not.
    pub fn new(
        separator: char,
        home: &str,
        ide_brain_is_dir: bool,
        legacy_brain_is_dir: bool,
    ) -> (r: AntigravityAdapter)
        ensures
            r.deep_view() == ({
                let root = layout::gemini_dir(separator, home@);
                AdapterModel::fresh(
                    separator,
                    Some(
                        if !ide_brain_is_dir && legacy_brain_is_dir {
                            layout::legacy_brain_dir(separator, root)
                        } else {
                            layout::ide_brain_dir(separator, root)
                        },
                    ),
                    Some(layout::summaries_file(separator, root)),
                    layout::projects_file(separator, root),
                )
            }),
            r.deep_view().well_formed(),
    {
        let root = gemini_home(separator, home);
        let brain = if !ide_brain_is_dir && legacy_brain_is_dir {
            legacy_brain(separator, root.as_str())
        } else {
            ide_brain(separator, root.as_str())
        };
        AntigravityAdapter {
            separator,
            brain_root: Some(brain),
            cli_db: Some(summaries_db(separator, root.as_str())),
            projects_json: projects_json(separator, root.as_str()),
            rows_cache: None,
            projects_cache: None,
        }
    }

    /// The agent whose conversations these are.
    pub fn agent(&self) -> (r: AgentId)
        ensures
            r == AgentId::Antigravity,
    {
        AgentId::Antigravity
    }

    /// The adapter for a directory that the user has named. It has nothing of this
    /// one.
    pub fn with_custom_root(&self, separator: char, dir: &str, probes: &RootProbes, home: &str) -> (
    r: AntigravityAdapter)
        ensures
            r.deep_view() == custom_adapter(separator, dir@, *probes, home@),
            r.deep_view().well_formed(),
    {
        let is_brain = match path_name(separator, dir) {
            Some(name) => same_text(name.as_str(), "brain"),
            None => false,
        };
        let (brain_root, cli_db) = if probes.is_file {
            (None, Some(dir.to_string()))
        } else if is_brain {
            (Some(dir.to_string()), None)
        } else if probes.brain_is_dir {
            (Some(join(separator, dir, "brain")), None)
        } else if probes.ide_brain_is_dir {
            let db = if probes.nested_db_is_file {
                Some(summaries_db(separator, dir))
            } else {
                None
            };
            (Some(ide_brain(separator, dir)), db)
        } else if probes.db_is_file {
            (None, Some(join(separator, dir, "conversation_summaries.db")))
        } else if probes.nested_db_is_file {
            (None, Some(summaries_db(separator, dir)))
        } else {
            (None, Some(join(separator, dir, "conversation_summaries.db")))
        };
        let projects_json = if probes.projects_is_file {
            projects_json(separator, dir)
        } else {
            projects_json(separator, gemini_home(separator, home).as_str())
        };
        AntigravityAdapter {
            separator,
            brain_root,
            cli_db,
            projects_json,
            rows_cache: None,
            projects_cache: None,
        }
    }

    /// The directory of conversations and the database, as far as there are any.
    pub fn data_roots(&self) -> (r: Vec<String>)
        ensures
            r.deep_view() == roots_of(self.deep_view()),
    {
        let mut roots: Vec<String> = Vec::new();
        match &self.brain_root {
            Some(dir) => {
                roots.push(dir.clone());
            },
            None => {},
        }
        match &self.cli_db {
            Some(db) => {
                roots.push(db.clone());
            },
            None => {},
        }
        assert(roots.deep_view() =~= roots_of(self.deep_view()));
        roots
    }

    /// The separator of the paths.
    pub fn separator(&self) -> (r: char)
        ensures
            r == self.deep_view().separator,
    {
        self.separator
    }

    /// The directory of the conversations of the IDE.
    pub fn brain_root(&self) -> (r: Option<&String>)
        ensures
            r.deep_view() == self.deep_view().brain_root,
    {
        self.brain_root.as_ref()
    }

    /// The database of the command line tool.
    pub fn cli_db(&self) -> (r: Option<&String>)
        ensures
            r.deep_view() == self.deep_view().cli_db,
    {
        self.cli_db.as_ref()
    }

    /// The file of the projects.
    pub fn projects_file(&self) -> (r: &String)
        ensures
            r@ == self.deep_view().projects_json,
    {
        &self.projects_json
    }

    /// Whether the summaries of the given stamp have been read.
    pub fn rows_are_cached(&self, stamp: i64) -> (r: bool)
        ensures
            r == self.deep_view().has_rows(stamp),
    {
        match &self.rows_cache {
            Some(cache) => cache.0 == stamp,
            None => false,
        }
    }

    /// The summaries of the given stamp: those kept, where they have that stamp,
    /// else those loaded, which are then kept. `None` stands for summaries that
    /// could not be loaded; without a database there are none.
    pub fn rows(&mut self, stamp: i64, loaded: Option<Vec<AgRow>>) -> (r: Option<Vec<AgRow>>)
        ensures
            r.deep_view() == rows_after(old(self).deep_view(), stamp, loaded.deep_view()),
            final(self).deep_view() == (AdapterModel {
                rows_cache: match r.deep_view() {
                    Some(rows) => Some((stamp, rows)),
                    None => old(self).deep_view().rows_cache,
                },
                ..old(self).deep_view()
            }),
            old(self).deep_view().well_formed() ==> final(self).deep_view().well_formed(),
    {
        if self.cli_db.is_none() {
            return None;
        }
        match &self.rows_cache {
            Some(cache) => {
                if cache.0 == stamp {
                    return Some(copy_rows(&cache.1));
                }
            },
            None => {},
        }
        match loaded {
            Some(rows) => {
                self.rows_cache = Some((stamp, copy_rows(&rows)));
                Some(rows)
            },
            None => None,
        }
    }

    /// Whether the projects of the given stamp have been read.
    pub fn projects_are_cached(&self, stamp: i64) -> (r: bool)
        ensures
            r == self.deep_view().has_projects(stamp),
    {
        match &self.projects_cache {
            Some(cache) => cache.0 == stamp,
            None => false,
        }
    }

    /// The projects of the given stamp: those kept, where they have that stamp,
    /// else those in the text, which are then kept. `None` stands for a text that
    /// could not be had.
    pub fn projects_map(&mut self, stamp: i64, raw: Option<&str>) -> (r: Vec<(String, String)>)
        ensures
            final(self).deep_view() == (AdapterModel {
                projects_cache: Some((stamp, r.deep_view())),
                ..old(self).deep_view()
            }),
            old(self).deep_view().has_projects(stamp) ==> r.deep_view() == old(
                self,
            ).deep_view().projects(),
            !old(self).deep_view().has_projects(stamp) ==> {
                &&& pairs::pairs_map(r.deep_view()) == projects::projects_in(raw.deep_view())
                &&& pairs::distinct_keys(r.deep_view())
            },
            old(self).deep_view().well_formed() ==> final(self).deep_view().well_formed(),
    {
        match &self.projects_cache {
            Some(cache) => {
                if cache.0 == stamp {
                    return copy_projects(&cache.1);
                }
            },
            None => {},
        }
        let found = read_projects(raw);
        self.projects_cache = Some((stamp, copy_projects(&found)));
        found
    }

    /// The directory of the project that a path belongs to, among the projects
    /// that were read last.
    pub fn lookup_project_path(&self, candidate: &str) -> (r: Option<String>)
        ensures
            r.deep_view() == projects::project_path_of(self.deep_view().projects(), candidate@),
    {
        match &self.projects_cache {
            Some(cache) => find_project_path(&cache.1, candidate),
            None => None,
        }
    }
}

/// The directory of conversations and the database, as far as there are any.
pub open spec fn roots_of(adapter: AdapterModel) -> Seq<Seq<char>> {
    (match adapter.brain_root {
        Some(dir) => seq![dir],
        None => Seq::empty(),
    }) + (match adapter.cli_db {
        Some(db) => seq![db],
        None => Seq::empty(),
    })
}

/// The summaries of a stamp, where `loaded` are those that could be loaded.
pub open spec fn rows_after(
    adapter: AdapterModel,
    stamp: i64,
    loaded: Option<Seq<AgRowModel>>,
) -> Option<Seq<AgRowModel>> {
    if adapter.cli_db is None {
        None
    } else {
        match adapter.rows_cache {
            Some(cache) => if cache.0 == stamp {
                Some(cache.1)
            } else {
                loaded
            },
            None => loaded,
        }
    }
}

} // verus!
