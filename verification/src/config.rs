//! Where the command line looks for its configuration, grammars and compiled parsers.
use vstd::prelude::*;
use vstd::string::{StringExecFns, StrSliceExecFns};

use crate::parser::{names_view, path_join, spec_path_join};

verus! {

/// The `parser-directories` entry of a tree-sitter configuration, as the JSON holds it.
pub enum DirectoriesValue {
    /// The configuration has no such entry.
    Missing,
    /// The entry is not an array.
    NotArray,
    /// The entry is an array; each item is a string or (`None`) something else.
    Array(Vec<Option<String>>),
}

/// The `parser-directories` entry of a configuration as plain values: `None` where the entry
/// is missing, `Some(None)` where it is not an array, else each item's text (`None` for an item
/// that is not a string).
pub open spec fn directories_view(v: DirectoriesValue) -> Option<Option<Seq<Option<Seq<char>>>>> {
    match v {
        DirectoriesValue::Missing => None,
        DirectoriesValue::NotArray => Some(None),
        DirectoriesValue::Array(items) => Some(Some(names_view(items@))),
    }
}

/// The `parser-directories` entry of a JSON configuration text, as `directories_view` gives it;
/// `None` where the text is not JSON.
pub uninterp spec fn spec_config_directories(text: Seq<char>) -> Option<Option<Option<Seq<Option<Seq<char>>>>>>;

/// Parses the text with `serde_json::from_str` into a `serde_json::Value`, takes its
/// `parser-directories` entry (`Value::get`) and tells an array (`Value::as_array`) and string
/// items (`Value::as_str`) apart. The claim is that the outcome is a function of the text; the
/// message of a JSON error is not described.
#[verifier::external_body]
fn read_directories_entry(text: &str) -> (r: Result<DirectoriesValue, String>)
    ensures
        match r {
            Ok(v) => spec_config_directories(text@) == Some(directories_view(v)),
            Err(_) => spec_config_directories(text@) is None,
        },
{
    let config: serde_json::Value = serde_json::from_str(text).map_err(|err| err.to_string())?;
    Ok(match config.get("parser-directories") {
        None => DirectoriesValue::Missing,
        Some(value) => match value.as_array() {
            None => DirectoriesValue::NotArray,
            Some(items) => DirectoriesValue::Array(items.iter().map(|item| item.as_str().map(String::from)).collect()),
        },
    })
}

/// Reads the `parser-directories` entry of a tree-sitter configuration text; the error is the
/// JSON parser's message where the text is not JSON.
pub fn directories_value(text: &str) -> (r: Result<DirectoriesValue, String>)
    ensures
        match r {
            Ok(v) => spec_config_directories(text@) == Some(directories_view(v)),
            Err(_) => spec_config_directories(text@) is None,
        },
{
    read_directories_entry(text)
}

/// Why the parser directories could not be read from the configuration.
#[derive(Debug, PartialEq, Eq, Structural)]
pub enum ConfigError {
    /// "failed to retrieve 'parser-directories' value from config"
    MissingDirectories,
    /// "\"parser-directories\" must be an array"
    NotAnArray,
    /// "\"parser-directories\" contains no directories"
    NoDirectories,
    /// "\"parser-directories\" must contain only strings"
    NotAString,
}

impl ConfigError {
    /// The message of the error.
    pub fn message(&self) -> (m: &'static str)
        ensures
            m@ == (match *self {
                ConfigError::MissingDirectories => "failed to retrieve 'parser-directories' value from config"@,
                ConfigError::NotAnArray => "\"parser-directories\" must be an array"@,
                ConfigError::NoDirectories => "\"parser-directories\" contains no directories"@,
                ConfigError::NotAString => "\"parser-directories\" must contain only strings"@,
            }),
    {
        match self {
            ConfigError::MissingDirectories => "failed to retrieve 'parser-directories' value from config",
            ConfigError::NotAnArray => "\"parser-directories\" must be an array",
            ConfigError::NoDirectories => "\"parser-directories\" contains no directories",
            ConfigError::NotAString => "\"parser-directories\" must contain only strings",
        }
    }
}

/// The parser directories that the configuration names: a non-empty array of strings.
#[verifier::loop_isolation(false)]
pub fn parser_directories(value: &DirectoriesValue) -> (r: Result<Vec<String>, ConfigError>)
    ensures
        match value {
            DirectoriesValue::Missing => r == Err::<Vec<String>, ConfigError>(ConfigError::MissingDirectories),
            DirectoriesValue::NotArray => r == Err::<Vec<String>, ConfigError>(ConfigError::NotAnArray),
            DirectoriesValue::Array(items) => if items@.len() == 0 {
                r == Err::<Vec<String>, ConfigError>(ConfigError::NoDirectories)
            } else if exists|i: int| 0 <= i < items@.len() && #[trigger] items@[i] is None {
                r == Err::<Vec<String>, ConfigError>(ConfigError::NotAString)
            } else {
                r matches Ok(dirs) && dirs@.len() == items@.len() && forall|i: int|
                    0 <= i < items@.len() ==> (#[trigger] items@[i] matches Some(s) && s@ == dirs@[i]@)
            },
        },
{
    match value {
        DirectoriesValue::Missing => Err(ConfigError::MissingDirectories),
        DirectoriesValue::NotArray => Err(ConfigError::NotAnArray),
        DirectoriesValue::Array(items) => {
            if items.len() == 0 {
                return Err(ConfigError::NoDirectories);
            }
            let mut dirs: Vec<String> = Vec::new();
            let mut i: usize = 0;
            while i < items.len()
                invariant
                    i <= items@.len(),
                    dirs@.len() == i,
                    forall|j: int| 0 <= j < i ==> (#[trigger] items@[j] matches Some(s) && s@ == dirs@[j]@),
                decreases items@.len() - i,
            {
                match &items[i] {
                    Some(s) => {
                        dirs.push(s.clone());
                    },
                    None => {
                        assert(items@[i as int] is None);
                        return Err(ConfigError::NotAString);
                    },
                }
                i = i + 1;
            }
            assert forall|j: int| 0 <= j < items@.len() implies !(#[trigger] items@[j] is None) by {
                assert(items@[j] matches Some(s) && s@ == dirs@[j]@);
            }
            Ok(dirs)
        },
    }
}

/// Where the tree-sitter configuration file is: the path given, else under `XDG_CONFIG_HOME`,
/// else under `HOME`; `None` when none of these is known.
pub fn config_location(explicit: Option<String>, xdg_config_home: Option<String>, home: Option<String>) -> (r: Option<String>)
    ensures
        match explicit {
            Some(p) => r == Some(p),
            None => match xdg_config_home {
                Some(x) => r matches Some(p) && p@ == spec_path_join(x@, "tree-sitter/config.json"@),
                None => match home {
                    Some(h) => r matches Some(p) && p@ == spec_path_join(h@, ".config/tree-sitter/config.json"@),
                    None => r is None,
                },
            },
        },
{
    match explicit {
        Some(p) => Some(p),
        None => match xdg_config_home {
            Some(x) => Some(path_join(x.as_str(), "tree-sitter/config.json")),
            None => match home {
                Some(h) => Some(path_join(h.as_str(), ".config/tree-sitter/config.json")),
                None => None,
            },
        },
    }
}

/// The directory of compiled parsers: `tree-sitter/lib` under `XDG_CACHE_HOME`, else under
/// `HOME/.cache`; `None` when neither is known.
pub fn parser_cache_dir(xdg_cache_home: Option<String>, home: Option<String>) -> (r: Option<String>)
    ensures
        match xdg_cache_home {
            Some(x) => r matches Some(p) && p@ == spec_path_join(spec_path_join(x@, "tree-sitter"@), "lib"@),
            None => match home {
                Some(h) => r matches Some(p) && p@ == spec_path_join(
                    spec_path_join(spec_path_join(h@, ".cache"@), "tree-sitter"@),
                    "lib"@,
                ),
                None => r is None,
            },
        },
{
    let base = match xdg_cache_home {
        Some(x) => x,
        None => match home {
            Some(h) => path_join(h.as_str(), ".cache"),
            None => {
                return None;
            },
        },
    };
    let tree_sitter = path_join(base.as_str(), "tree-sitter");
    Some(path_join(tree_sitter.as_str(), "lib"))
}

/// The compiled parser of language `lang`: `lang.so` in `cache_dir`.
pub fn parser_library_path(cache_dir: &str, lang: &str) -> (r: String)
    ensures
        r@ == spec_path_join(cache_dir@, lang@ + ".so"@),
{
    let mut file = lang.to_owned();
    file.append(".so");
    path_join(cache_dir, file.as_str())
}

/// The highlighting query of a grammar: `queries/highlights.scm` in its directory.
pub fn highlights_query_path(grammar_dir: &str) -> (r: String)
    ensures
        r@ == spec_path_join(spec_path_join(grammar_dir@, "queries"@), "highlights.scm"@),
{
    let queries = path_join(grammar_dir, "queries");
    path_join(queries.as_str(), "highlights.scm")
}

/// Why a library file name gives no language symbol.
#[derive(Debug, PartialEq, Eq, Structural)]
pub enum LibraryNameError {
    /// The name does not end in `.so`.
    NotSharedObject,
    /// Nothing stands before `.so`.
    EmptyName,
}

impl LibraryNameError {
    /// The message of the error for the library file `file_name`.
    pub fn message(&self, file_name: &str) -> (m: String)
        ensures
            m@ == (match *self {
                LibraryNameError::NotSharedObject => "invalid language library: "@ + file_name@,
                LibraryNameError::EmptyName => "invalid language library name"@,
            }),
    {
        match self {
            LibraryNameError::NotSharedObject => {
                let mut m = "invalid language library: ".to_owned();
                m.append(file_name);
                m
            },
            LibraryNameError::EmptyName => "invalid language library name".to_owned(),
        }
    }
}

/// The language symbol that a library file is expected to export: `tree_sitter_` followed by
/// the file name without its `.so` ending.
pub fn library_symbol(file_name: &str) -> (r: Result<String, LibraryNameError>)
    ensures
        match r {
            Ok(s) => {
                let n = file_name@.len();
                &&& n > 3
                &&& file_name@.subrange(n - 3, n as int) == seq!['.', 's', 'o']
                &&& s@ == "tree_sitter_"@ + file_name@.subrange(0, n - 3)
            },
            Err(LibraryNameError::NotSharedObject) => !(file_name@.len() >= 3 && file_name@.subrange(
                file_name@.len() - 3,
                file_name@.len() as int,
            ) == seq!['.', 's', 'o']),
            Err(LibraryNameError::EmptyName) => file_name@ == seq!['.', 's', 'o'],
        },
{
    let n = file_name.unicode_len();
    if n < 3 {
        proof {
            assert(!(file_name@.len() >= 3));
        }
        return Err(LibraryNameError::NotSharedObject);
    }
    let a = file_name.get_char(n - 3);
    let b = file_name.get_char(n - 2);
    let c = file_name.get_char(n - 1);
    let ghost tail = file_name@.subrange(n - 3, n as int);
    assert(tail[0] == a && tail[1] == b && tail[2] == c);
    if !(a == '.' && b == 's' && c == 'o') {
        return Err(LibraryNameError::NotSharedObject);
    }
    assert(tail =~= seq!['.', 's', 'o']);
    if n == 3 {
        assert(file_name@ =~= tail);
        return Err(LibraryNameError::EmptyName);
    }
    let stem = file_name.substring_char(0, n - 3);
    let mut symbol = "tree_sitter_".to_owned();
    symbol.append(stem);
    Ok(symbol)
}

} // verus!
