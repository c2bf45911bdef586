//! Query options and the choice of pattern and macros for a log table.

use vstd::prelude::*;
use crate::error::Error;
use crate::parser::{concat_macros, macros_view, profile_index_from, CustomMacro, CustomMacroView, Profiles, lemma_profile_index_from};
use crate::parser::opt_string_view;
use crate::provider::LogTableProvider;
use crate::scanner::{build_failure, built_from, Scanner};

verus! {

/// What to register: a log file, the pattern (a profile's, or given), the
/// table's name and the table's options.
#[derive(Debug, Clone)]
pub struct QueryOptions {
    /// The log file (a glob) to query.
    pub log_file: String,
    /// The profile whose pattern and macros to use.
    pub profile_name: Option<String>,
    /// A pattern that takes the place of the profile's.
    pub pattern_override: Option<String>,
    /// The name of the table in queries.
    pub table_name: String,
    /// Whether the table offers the `__FILE__` column.
    pub add_file_path: bool,
    /// Whether the table offers the `__RAW__` column.
    pub add_raw: bool,
    /// How many chunks to scan a file in.
    pub num_threads: Option<usize>,
}

impl Default for QueryOptions {
    fn default() -> (r: QueryOptions)
        ensures
            r.log_file@.len() == 0,
            r.profile_name is None,
            r.pattern_override is None,
            r.table_name@ == "log"@,
            !r.add_file_path,
            !r.add_raw,
            r.num_threads is None,
    {
        QueryOptions {
            log_file: String::new(),
            profile_name: None,
            pattern_override: None,
            table_name: String::from_str("log"),
            add_file_path: false,
            add_raw: false,
            num_threads: None,
        }
    }
}

impl QueryOptions {
    /// Options for `log_file`, with all else at its default.
    pub fn new(log_file: &str) -> (r: QueryOptions)
        ensures
            r.log_file@ == log_file@,
            r.profile_name is None,
            r.pattern_override is None,
            r.table_name@ == "log"@,
            !r.add_file_path,
            !r.add_raw,
            r.num_threads is None,
    {
        let mut o = QueryOptions::default();
        o.log_file = String::from_str(log_file);
        o
    }

    pub fn with_profile(self, profile: &str) -> (r: QueryOptions)
        ensures
            opt_string_view(r.profile_name) == Some(profile@),
            r == (QueryOptions { profile_name: r.profile_name, ..self }),
    {
        QueryOptions { profile_name: Some(String::from_str(profile)), ..self }
    }

    pub fn with_pattern(self, pattern: &str) -> (r: QueryOptions)
        ensures
            opt_string_view(r.pattern_override) == Some(pattern@),
            r == (QueryOptions { pattern_override: r.pattern_override, ..self }),
    {
        QueryOptions { pattern_override: Some(String::from_str(pattern)), ..self }
    }

    pub fn with_table_name(self, name: &str) -> (r: QueryOptions)
        ensures
            r.table_name@ == name@,
            r == (QueryOptions { table_name: r.table_name, ..self }),
    {
        QueryOptions { table_name: String::from_str(name), ..self }
    }

    pub fn with_add_file_path(self, add_file_path: bool) -> (r: QueryOptions)
        ensures
            r == (QueryOptions { add_file_path, ..self }),
    {
        QueryOptions { add_file_path, ..self }
    }

    pub fn with_add_raw(self, add_raw: bool) -> (r: QueryOptions)
        ensures
            r == (QueryOptions { add_raw, ..self }),
    {
        QueryOptions { add_raw, ..self }
    }

    pub fn with_num_threads(self, num_threads: Option<u32>) -> (r: QueryOptions)
        ensures
            r.num_threads == (match num_threads {
                Some(n) => Some(n as usize),
                None => None::<usize>,
            }),
            r == (QueryOptions { num_threads: r.num_threads, ..self }),
    {
        let n = match num_threads {
            Some(n) => Some(n as usize),
            None => None,
        };
        QueryOptions { num_threads: n, ..self }
    }
}

/// The registry of profiles that log tables are made with.
#[derive(Debug, Clone)]
pub struct LfLog {
    pub profiles: Option<Profiles>,
}

/// The pattern and the custom macros that a table is made with: a given
/// pattern comes first, with the named profile's macros (or, without a
/// profile name, the shared macros); else the named profile's pattern and
/// macros. `None` where neither a pattern nor a known profile is given.
pub open spec fn pattern_source(profiles: Option<Profiles>, o: QueryOptions) -> Option<(Seq<char>, Seq<CustomMacroView>)> {
    match o.pattern_override {
        Some(p) => Some(
            (
                p@,
                match profiles {
                    Some(ps) => match o.profile_name {
                        Some(n) => match profile_index_from(ps.profiles@, n@, 0) {
                            Some(k) => macros_view(ps.profiles@[k].custom_macros@),
                            None => Seq::empty(),
                        },
                        None => macros_view(ps.custom_macros@),
                    },
                    None => Seq::empty(),
                },
            ),
        ),
        None => match o.profile_name {
            Some(n) => match profiles {
                Some(ps) => match profile_index_from(ps.profiles@, n@, 0) {
                    Some(k) => Some((ps.profiles@[k].pattern@, macros_view(ps.profiles@[k].custom_macros@))),
                    None => None,
                },
                None => None,
            },
            None => None,
        },
    }
}

impl LfLog {
    /// A registry without profiles: tables need a pattern of their own.
    pub fn new() -> (r: LfLog)
        ensures
            r.profiles is None,
    {
        LfLog { profiles: None }
    }

    pub fn from_profiles(profiles: Profiles) -> (r: LfLog)
        ensures
            r.profiles == Some(profiles),
    {
        LfLog { profiles: Some(profiles) }
    }

    /// The pattern and custom macros that `options` ask for.
    pub fn resolve_pattern(&self, options: &QueryOptions) -> (r: Result<(String, Vec<CustomMacro>), Error>)
        ensures
            r matches Ok((p, ms)) ==> pattern_source(self.profiles, *options) == Some((p@, macros_view(ms@))),
            r matches Err(e) ==> pattern_source(self.profiles, *options) is None && e is Config,
    {
        let empty: Vec<CustomMacro> = Vec::new();
        assert(macros_view(empty@) =~= Seq::<CustomMacroView>::empty());
        match &options.pattern_override {
            Some(p) => {
                let macros = match &self.profiles {
                    Some(ps) => match &options.profile_name {
                        Some(n) => match ps.get_profile(n.as_str()) {
                            Some(profile) => {
                                proof {
                                    lemma_profile_index_from(ps.profiles@, n@, 0);
                                }
                                concat_macros(&profile.custom_macros, &empty)
                            },
                            None => concat_macros(&empty, &empty),
                        },
                        None => concat_macros(&ps.custom_macros, &empty),
                    },
                    None => concat_macros(&empty, &empty),
                };
                proof {
                    assert forall|s: Seq<CustomMacroView>| s + Seq::<CustomMacroView>::empty() == s by {
                        assert(s + Seq::<CustomMacroView>::empty() =~= s);
                    }
                }
                Ok((p.clone(), macros))
            },
            None => match &options.profile_name {
                Some(n) => match &self.profiles {
                    Some(ps) => match ps.get_profile(n.as_str()) {
                        Some(profile) => {
                            proof {
                                lemma_profile_index_from(ps.profiles@, n@, 0);
                                assert(macros_view(profile.custom_macros@) + Seq::<CustomMacroView>::empty() =~= macros_view(profile.custom_macros@));
                            }
                            Ok((profile.pattern.clone(), concat_macros(&profile.custom_macros, &empty)))
                        },
                        None => {
                            let mut msg = String::from_str("Profile '");
                            msg.append(n.as_str());
                            msg.append("' not found");
                            Err(Error::Config(msg))
                        },
                    },
                    None => Err(Error::Config(String::from_str("No profiles loaded, cannot use --profile"))),
                },
                None => Err(Error::Config(String::from_str("Either --profile or --pattern must be provided"))),
            },
        }
    }

    /// The table that `options` describe: its scanner is built from the
    /// resolved pattern and macros.
    pub fn register(&self, options: QueryOptions) -> (r: Result<LogTableProvider, Error>)
        ensures
            r matches Ok(t) ==> (pattern_source(self.profiles, options) matches Some((p, ms))
                && built_from(t.scanner, p, ms)),
            r matches Ok(t) ==> t.file_path@ == options.log_file@ && t.add_file_path == options.add_file_path
                && t.add_raw == options.add_raw && t.num_threads == options.num_threads,
            r matches Err(e) ==> match pattern_source(self.profiles, options) {
                None => e is Config,
                Some((p, ms)) => build_failure(e, p, ms),
            },
    {
        let (pattern, macros) = match self.resolve_pattern(&options) {
            Ok(x) => x,
            Err(e) => {
                return Err(e);
            },
        };
        let scanner = match Scanner::with_custom_macros(pattern, Some(macros.as_slice())) {
            Ok(s) => s,
            Err(e) => {
                return Err(e);
            },
        };
        Ok(LogTableProvider::new(scanner, options.log_file, options.add_file_path, options.add_raw, options.num_threads))
    }
}

} // verus!
