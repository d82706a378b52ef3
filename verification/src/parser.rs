//! Captures of highlighting queries, and the search for grammars and their language symbols.
use vstd::prelude::*;

use object::{Object, ObjectSymbol};
use tree_sitter::StreamingIterator;
use vstd::string::{StringSliceAdditionalSpecFns, StringExecFns, StrSliceExecFns};
use vstd::utf8::encode_utf8;

use crate::text::{Cmp, compare_str};
use crate::tree_sitter_config::{Grammar, TreeSitterConfig};

verus! {

#[verifier::external_type_specification]
#[verifier::external_body]
pub struct ExLanguage(tree_sitter::Language);

#[verifier::external_type_specification]
#[verifier::external_body]
pub struct ExQuery(tree_sitter::Query);

#[verifier::external_type_specification]
#[verifier::external_body]
pub struct ExLanguageError(tree_sitter::LanguageError);

/// The captures that tree-sitter finds when `source` is parsed in `language` and `query` is run
/// over the tree, as (start byte, end byte, capture index) in the order the cursor yields them;
/// `None` where the parser refuses the language or gives no tree.
pub uninterp spec fn spec_source_captures(
    language: tree_sitter::Language,
    query: tree_sitter::Query,
    source: Seq<u8>,
) -> Option<Seq<(usize, usize, u32)>>;

/// The capture names of a query, in the order of their indices.
pub uninterp spec fn spec_capture_names(query: tree_sitter::Query) -> Seq<Seq<char>>;

/// Whether `tree_sitter::Query::new` accepts the query text `source` for `language`.
pub uninterp spec fn spec_query_compiles(language: tree_sitter::Language, source: Seq<char>) -> bool;

/// Makes a `tree_sitter::Parser` (`Parser::new`), sets its language (`Parser::set_language`),
/// parses the whole source (`Parser::parse`, no earlier tree) and runs
/// `tree_sitter::QueryCursor::captures` for `query` over the root node, listing each capture as
/// its node's start byte, end byte and capture index. The claim is that the outcome is a
/// function of the language, the query and the source bytes, and that each capture's range lies
/// within the source and its index is below the number of the query's capture names (tree-sitter
/// numbers captures by their names); which captures there are is tree-sitter's and is not
/// described.
#[verifier::external_body]
fn source_captures(language: &tree_sitter::Language, query: &tree_sitter::Query, source: &[u8]) -> (r: Result<Vec<(usize, usize, u32)>, CaptureError>)
    ensures
        match r {
            Ok(raw) => spec_source_captures(*language, *query, source@) == Some(raw@),
            Err(_) => spec_source_captures(*language, *query, source@) is None,
        },
        r matches Ok(raw) ==> forall|i: int|
            0 <= i < raw@.len() ==> (#[trigger] raw@[i]).0 <= raw@[i].1 <= source@.len() && (raw@[i].2 as int)
                < spec_capture_names(*query).len(),
{
    let mut parser = tree_sitter::Parser::new();
    parser.set_language(language).map_err(CaptureError::Language)?;
    let tree = parser.parse(source, None).ok_or(CaptureError::ParseFailed)?;
    let mut cursor = tree_sitter::QueryCursor::new();
    let mut iter = cursor.captures(query, tree.root_node(), source);
    let mut raw = Vec::new();
    while let Some((m, index)) = iter.next() {
        let capture = m.captures()[*index];
        raw.push((capture.node.start_byte(), capture.node.end_byte(), capture.index));
    }
    Ok(raw)
}

/// Lists `tree_sitter::Query::capture_names` as owned strings, in order; the claim is that they
/// are a function of the query.
#[verifier::external_body]
fn capture_names(query: &tree_sitter::Query) -> (r: Vec<String>)
    ensures
        r@.map_values(|n: String| n@) == spec_capture_names(*query),
{
    query.capture_names().iter().map(|name| name.to_string()).collect()
}

/// `tree_sitter::Query::new` of `source` for `language`, with the error as its message. The
/// claim is that success is a function of the language and the text.
#[verifier::external_body]
fn query_new(language: &tree_sitter::Language, source: &str) -> (r: Result<tree_sitter::Query, String>)
    ensures
        r is Ok == spec_query_compiles(*language, source@),
{
    tree_sitter::Query::new(language, source).map_err(|err| err.to_string())
}

/// A captured byte range of the source and the name of its capture group.
#[derive(Clone, Debug, PartialEq, Eq)]
pub struct Capture {
    /// Start byte offset of the captured range.
    pub start: usize,
    /// End byte offset of the captured range.
    pub end: usize,
    /// Name of the capture group.
    pub group: String,
}

/// The range and group name of each capture.
pub open spec fn captures_view(v: Seq<Capture>) -> Seq<(usize, usize, Seq<char>)> {
    v.map_values(|c: Capture| (c.start, c.end, c.group@))
}

/// The captures that a list of raw captures (start, end, group index) gives: empty ranges are
/// dropped, and each other one takes the name of its group; `None` where such a capture has a
/// group index beyond the names.
pub open spec fn kept_captures(raw: Seq<(usize, usize, u32)>, names: Seq<Seq<char>>) -> Option<Seq<(usize, usize, Seq<char>)>>
    decreases raw.len(),
{
    if raw.len() == 0 {
        Some(Seq::empty())
    } else {
        let (start, end, index) = raw.last();
        match kept_captures(raw.drop_last(), names) {
            None => None,
            Some(prev) => if start == end {
                Some(prev)
            } else if (index as int) < names.len() {
                Some(prev.push((start, end, names[index as int])))
            } else {
                None
            },
        }
    }
}

/// Turns raw captures into named ones, dropping those with an empty range.
pub fn captures_from_raw(raw: &[(usize, usize, u32)], names: &[String]) -> (r: Option<Vec<Capture>>)
    ensures
        match r {
            Some(v) => kept_captures(raw@, names@.map_values(|n: String| n@)) == Some(captures_view(v@)),
            None => kept_captures(raw@, names@.map_values(|n: String| n@)) is None,
        },
{
    let ghost nv = names@.map_values(|n: String| n@);
    let mut out: Vec<Capture> = Vec::new();
    let mut i: usize = 0;
    while i < raw.len()
        invariant
            i <= raw@.len(),
            nv == names@.map_values(|n: String| n@),
            kept_captures(raw@.take(i as int), nv) == Some(captures_view(out@)),
        decreases raw@.len() - i,
    {
        let (start, end, index) = raw[i];
        let ghost prev = out@;
        assert(raw@.take(i + 1).drop_last() =~= raw@.take(i as int));
        assert(raw@.take(i + 1).last() == raw@[i as int]);
        if start != end {
            if (index as usize) < names.len() {
                let group = names[index as usize].clone();
                out.push(Capture { start, end, group });
                assert(captures_view(out@) =~= captures_view(prev).push((start, end, nv[index as int])));
            } else {
                proof {
                    lemma_kept_none_extends(raw@, nv, i + 1);
                }
                return None;
            }
        }
        i = i + 1;
    }
    assert(raw@.take(raw@.len() as int) =~= raw@);
    Some(out)
}

/// Why the captures of a query could not be collected.
#[derive(Debug)]
pub enum CaptureError {
    /// The parser refused the language.
    Language(tree_sitter::LanguageError),
    /// The parser gave no tree.
    ParseFailed,
}

/// What the `Display` of a `tree_sitter::LanguageError` writes.
pub uninterp spec fn spec_language_error_message(e: tree_sitter::LanguageError) -> Seq<char>;

/// The text that `tree_sitter::LanguageError`'s `Display` writes; the claim is that it is a
/// function of the error.
#[verifier::external_body]
fn language_error_message(e: &tree_sitter::LanguageError) -> (m: String)
    ensures
        m@ == spec_language_error_message(*e),
{
    e.to_string()
}

impl CaptureError {
    /// The message of the error.
    pub fn message(&self) -> (m: String)
        ensures
            m@ == (match *self {
                CaptureError::Language(e) => spec_language_error_message(e),
                CaptureError::ParseFailed => "failed to parse source"@,
            }),
    {
        match self {
            CaptureError::Language(e) => language_error_message(e),
            CaptureError::ParseFailed => "failed to parse source".to_owned(),
        }
    }
}

/// Where every group index is below the number of names, every capture is kept.
pub proof fn lemma_kept_total(raw: Seq<(usize, usize, u32)>, names: Seq<Seq<char>>)
    requires
        forall|i: int| 0 <= i < raw.len() ==> ((#[trigger] raw[i]).2 as int) < names.len(),
    ensures
        kept_captures(raw, names) is Some,
        forall|k: int| 0 <= k < kept_captures(raw, names)->0.len() ==> exists|i: int|
            0 <= i < raw.len() && (#[trigger] kept_captures(raw, names)->0[k]).0 == raw[i].0
                && kept_captures(raw, names)->0[k].1 == raw[i].1,
    decreases raw.len(),
{
    if raw.len() > 0 {
        let rest = raw.drop_last();
        assert forall|i: int| 0 <= i < rest.len() implies ((#[trigger] rest[i]).2 as int) < names.len() by {
            assert(rest[i] == raw[i]);
        }
        lemma_kept_total(rest, names);
        let prev = kept_captures(rest, names)->0;
        let v = kept_captures(raw, names)->0;
        assert(raw.last() == raw[raw.len() - 1]);
        assert forall|k: int| 0 <= k < v.len() implies exists|i: int|
            0 <= i < raw.len() && (#[trigger] v[k]).0 == raw[i].0 && v[k].1 == raw[i].1 by {
            if k < prev.len() {
                assert(v[k] == prev[k]);
                let i = choose|i: int| 0 <= i < rest.len() && prev[k].0 == rest[i].0 && prev[k].1 == rest[i].1;
                assert(rest[i] == raw[i]);
            } else {
                assert(v[k].0 == raw[raw.len() - 1].0 && v[k].1 == raw[raw.len() - 1].1);
            }
        }
    }
}

/// Parses `source` in `language`, runs the highlighting `query` over the tree, and lists its
/// captures with a non-empty range, each with its group name, in the order the query cursor
/// yields them.
pub fn collect_captures(source: &[u8], language: &tree_sitter::Language, query: &tree_sitter::Query) -> (r: Result<Vec<Capture>, CaptureError>)
    ensures
        match spec_source_captures(*language, *query, source@) {
            None => r is Err,
            Some(raw) => r is Ok && Some(captures_view(r->Ok_0@)) == kept_captures(raw, spec_capture_names(*query)),
        },
        r matches Ok(v) ==> forall|k: int|
            0 <= k < v@.len() ==> (#[trigger] v@[k]).start < v@[k].end && v@[k].end <= source@.len(),
{
    let raw = match source_captures(language, query, source) {
        Ok(raw) => raw,
        Err(e) => {
            return Err(e);
        },
    };
    let names = capture_names(query);
    let raw_slice = raw.as_slice();
    let name_slice = names.as_slice();
    let ghost nv = name_slice@.map_values(|n: String| n@);
    proof {
        assert(nv == spec_capture_names(*query));
        assert(raw_slice@ == raw@);
        lemma_kept_total(raw_slice@, nv);
    }
    match captures_from_raw(raw_slice, name_slice) {
        Some(v) => {
            proof {
                let cv = captures_view(v@);
                assert(kept_captures(raw_slice@, nv) == Some(cv));
                lemma_kept_nonempty(raw_slice@, nv, cv);
                assert forall|k: int| 0 <= k < v@.len() implies (#[trigger] v@[k]).start < v@[k].end && v@[k].end
                    <= source@.len() by {
                    assert(cv[k] == (v@[k].start, v@[k].end, v@[k].group@));
                    assert(cv[k].0 != cv[k].1);
                    assert(kept_captures(raw_slice@, nv)->0[k] == cv[k]);
                    let i = choose|i: int| 0 <= i < raw_slice@.len() && cv[k].0 == raw_slice@[i].0 && cv[k].1 == raw_slice@[i].1;
                    assert(raw@[i].0 <= raw@[i].1 <= source@.len());
                }
            }
            Ok(v)
        },
        None => {
            assert(false);
            Err(CaptureError::ParseFailed)
        },
    }
}

/// Compiles a highlighting query for `language`.
pub fn compile_query(language: &tree_sitter::Language, source: &str) -> (r: Result<tree_sitter::Query, LoadError>)
    ensures
        r is Ok == spec_query_compiles(*language, source@),
        r matches Err(e) ==> e is InvalidInput,
{
    match query_new(language, source) {
        Ok(query) => Ok(query),
        Err(message) => Err(LoadError::InvalidInput(message, None)),
    }
}

proof fn lemma_kept_none_extends(raw: Seq<(usize, usize, u32)>, names: Seq<Seq<char>>, i: int)
    requires
        0 <= i <= raw.len(),
        kept_captures(raw.take(i), names) is None,
    ensures
        kept_captures(raw, names) is None,
    decreases raw.len() - i,
{
    if i == raw.len() {
        assert(raw.take(i) =~= raw);
    } else {
        assert(raw.take(i + 1).drop_last() =~= raw.take(i));
        lemma_kept_none_extends(raw, names, i + 1);
    }
}

/// A raw capture with a non-empty range.
pub open spec fn is_nonempty_raw(e: (usize, usize, u32)) -> bool {
    e.0 != e.1
}

/// The captures kept from raw ones are exactly the raw captures with a non-empty range, all of
/// them and in their order, each with the name of its group index: as many as there are such raw
/// captures, the `k`-th kept one being the `k`-th of them. The list is refused exactly when such a
/// capture's group index has no name.
pub proof fn lemma_kept_are_nonempty_raw(raw: Seq<(usize, usize, u32)>, names: Seq<Seq<char>>)
    ensures
        kept_captures(raw, names) is Some <==> forall|i: int|
            0 <= i < raw.len() && (#[trigger] raw[i]).0 != raw[i].1 ==> (raw[i].2 as int) < names.len(),
        kept_captures(raw, names) is Some ==> kept_captures(raw, names)->0 == raw.filter(
            |e: (usize, usize, u32)| is_nonempty_raw(e),
        ).map_values(|e: (usize, usize, u32)| (e.0, e.1, names[e.2 as int])),
    decreases raw.len(),
{
    reveal(Seq::filter);
    let pred = |e: (usize, usize, u32)| is_nonempty_raw(e);
    let f = |e: (usize, usize, u32)| (e.0, e.1, names[e.2 as int]);
    if raw.len() == 0 {
        assert(raw.filter(pred).map_values(f) =~= Seq::empty());
    } else {
        let rest = raw.drop_last();
        lemma_kept_are_nonempty_raw(rest, names);
        let e = raw.last();
        assert(e == raw[raw.len() - 1]);
        assert forall|i: int| 0 <= i < rest.len() implies #[trigger] rest[i] == raw[i] by {}
        let all_named = forall|i: int|
            0 <= i < raw.len() && (#[trigger] raw[i]).0 != raw[i].1 ==> (raw[i].2 as int) < names.len();
        let rest_named = forall|i: int|
            0 <= i < rest.len() && (#[trigger] rest[i]).0 != rest[i].1 ==> (rest[i].2 as int) < names.len();
        if all_named {
            assert(rest_named) by {
                assert forall|i: int| 0 <= i < rest.len() && (#[trigger] rest[i]).0 != rest[i].1 implies (rest[i].2 as int)
                    < names.len() by {
                    assert(rest[i] == raw[i]);
                }
            }
        }
        if rest_named && (e.0 == e.1 || (e.2 as int) < names.len()) {
            assert(all_named) by {
                assert forall|i: int| 0 <= i < raw.len() && (#[trigger] raw[i]).0 != raw[i].1 implies (raw[i].2 as int)
                    < names.len() by {
                    if i < rest.len() {
                        assert(rest[i] == raw[i]);
                    }
                }
            }
        }
        if kept_captures(raw, names) is Some {
            let prev = rest.filter(pred).map_values(f);
            if pred(e) {
                assert(raw.filter(pred) == rest.filter(pred).push(e));
                assert(raw.filter(pred).map_values(f) =~= prev.push(f(e)));
            } else {
                assert(raw.filter(pred) == rest.filter(pred));
            }
        }
    }
}

/// Every capture that is kept has a non-empty range.
pub proof fn lemma_kept_nonempty(raw: Seq<(usize, usize, u32)>, names: Seq<Seq<char>>, v: Seq<(usize, usize, Seq<char>)>)
    requires
        kept_captures(raw, names) == Some(v),
    ensures
        forall|k: int| 0 <= k < v.len() ==> (#[trigger] v[k]).0 != v[k].1,
    decreases raw.len(),
{
    if raw.len() > 0 {
        let prev = kept_captures(raw.drop_last(), names)->0;
        lemma_kept_nonempty(raw.drop_last(), names, prev);
        assert forall|k: int| 0 <= k < v.len() implies (#[trigger] v[k]).0 != v[k].1 by {
            if k < prev.len() {
                assert(v[k] == prev[k]);
            }
        }
    }
}


/// An error encountered while loading a resource.
#[derive(Debug)]
pub enum LoadError {
    /// Accessing the resource failed: the kind of I/O error, and a message that says how.
    Io(IoKind, String),
    /// The resource was accessible but held invalid input: a message that says how, and the
    /// kind of I/O error where the cause is one.
    InvalidInput(String, Option<IoKind>),
}

/// The kind of an I/O error.
#[derive(Clone, Copy, Debug, PartialEq, Eq, Structural)]
pub enum IoKind {
    NotFound,
    PermissionDenied,
    NotADirectory,
    IsADirectory,
    InvalidInput,
    Other,
}

/// Whether the UTF-8 bytes of `s` begin with `prefix`.
pub open spec fn has_byte_prefix(s: Seq<char>, prefix: Seq<u8>) -> bool {
    encode_utf8(s).len() >= prefix.len() && encode_utf8(s).take(prefix.len() as int) == prefix
}

fn starts_with_bytes(s: &str, prefix: &[u8]) -> (r: bool)
    ensures
        r == has_byte_prefix(s@, prefix@),
{
    let bytes = s.as_bytes();
    if bytes.len() < prefix.len() {
        return false;
    }
    let mut i: usize = 0;
    while i < prefix.len()
        invariant
            i <= prefix@.len() <= bytes@.len(),
            bytes@ == encode_utf8(s@),
            forall|j: int| 0 <= j < i ==> bytes@[j] == prefix@[j],
        decreases prefix@.len() - i,
    {
        if bytes[i] != prefix[i] {
            assert(bytes@.take(prefix@.len() as int)[i as int] != prefix@[i as int]);
            return false;
        }
        i = i + 1;
    }
    assert(bytes@.take(prefix@.len() as int) =~= prefix@);
    true
}

/// The bytes of `tree-sitter-`.
pub open spec fn grammar_dir_prefix() -> Seq<u8> {
    seq![116u8, 114, 101, 101, 45, 115, 105, 116, 116, 101, 114, 45]
}

/// The bytes of `tree_sitter_`.
pub open spec fn symbol_prefix() -> Seq<u8> {
    seq![116u8, 114, 101, 101, 95, 115, 105, 116, 116, 101, 114, 95]
}

/// Whether a directory entry named `name` is a grammar repository: its name begins with
/// `tree-sitter-`.
pub fn is_grammar_dir_name(name: &str) -> (r: bool)
    ensures
        r == has_byte_prefix(name@, grammar_dir_prefix()),
{
    let prefix: [u8; 12] = [116, 114, 101, 101, 45, 115, 105, 116, 116, 101, 114, 45];
    assert(prefix@ =~= grammar_dir_prefix());
    starts_with_bytes(name, prefix.as_slice())
}

/// The names of the symbols of an object file, as `object` reads them from its bytes.
pub uninterp spec fn object_symbol_names(data: Seq<u8>) -> Option<Seq<Option<Seq<char>>>>;

/// The text of each optional name.
pub open spec fn names_view(v: Seq<Option<String>>) -> Seq<Option<Seq<char>>> {
    v.map_values(|o: Option<String>| match o {
        Some(s) => Some(s@),
        None => None,
    })
}

/// Parses `data` with `object::File::parse` and lists, in the order of `Object::symbols`, the
/// name of each symbol (`None` where `ObjectSymbol::name` fails). The claim is that the list is
/// a function of the bytes alone; the error message of a failed parse is not described.
#[verifier::external_body]
fn symbol_names(data: &[u8]) -> (r: Result<Vec<Option<String>>, String>)
    ensures
        match r {
            Ok(v) => object_symbol_names(data@) == Some(names_view(v@)),
            Err(_) => object_symbol_names(data@) is None,
        },
{
    match object::File::parse(data) {
        Ok(file) => Ok(file.symbols().map(|symbol| symbol.name().ok().map(|name| name.to_string())).collect()),
        Err(err) => Err(err.to_string()),
    }
}

/// Whether `name` is a language symbol: it begins with `tree_sitter_`.
pub open spec fn is_language_symbol(name: Option<Seq<char>>) -> bool {
    name matches Some(n) && has_byte_prefix(n, symbol_prefix())
}

/// The byte length of a symbol name after `tree_sitter_`.
pub open spec fn suffix_len(name: Seq<char>) -> int {
    encode_utf8(name).len() - 12
}

/// Index `i` holds the language symbol with the shortest suffix, the first such where several are
/// equally short.
pub open spec fn is_chosen_symbol(names: Seq<Option<Seq<char>>>, i: int) -> bool {
    &&& 0 <= i < names.len()
    &&& is_language_symbol(names[i])
    &&& forall|j: int|
        0 <= j < names.len() && is_language_symbol(#[trigger] names[j]) ==> suffix_len(names[j]->0) >= suffix_len(
            names[i]->0,
        ) && (j < i ==> suffix_len(names[j]->0) > suffix_len(names[i]->0))
}

/// What the choice of a language symbol among `names` gives.
pub open spec fn symbol_choice(names: Seq<Option<Seq<char>>>, r: Option<Seq<char>>) -> bool {
    match r {
        Some(s) => exists|i: int| is_chosen_symbol(names, i) && names[i] == Some(s),
        None => forall|i: int| 0 <= i < names.len() ==> !is_language_symbol(#[trigger] names[i]),
    }
}

/// The best language symbol among the first `i` names is at `best`, with suffix length `best_len`.
spec fn best_so_far(nv: Seq<Option<Seq<char>>>, i: int, best: Option<usize>, best_len: int) -> bool {
    match best {
        Some(b) => {
            &&& b < i
            &&& is_language_symbol(nv[b as int])
            &&& best_len == suffix_len(nv[b as int]->0)
            &&& forall|j: int|
                0 <= j < i && is_language_symbol(#[trigger] nv[j]) ==> suffix_len(nv[j]->0) >= best_len && (j < b
                    ==> suffix_len(nv[j]->0) > best_len)
        },
        None => forall|j: int| 0 <= j < i ==> !is_language_symbol(#[trigger] nv[j]),
    }
}

/// The suffix length of a name if it is a language symbol.
fn symbol_suffix_len(name: &Option<String>, prefix: &[u8]) -> (r: Option<usize>)
    requires
        prefix@ == symbol_prefix(),
    ensures
        match r {
            Some(l) => is_language_symbol(match name {
                Some(s) => Some(s@),
                None => None::<Seq<char>>,
            }) && l == suffix_len(name->0@),
            None => !is_language_symbol(match name {
                Some(s) => Some(s@),
                None => None::<Seq<char>>,
            }),
        },
{
    match name {
        Some(n) => {
            let s = n.as_str();
            if starts_with_bytes(s, prefix) {
                assert(symbol_prefix().len() == 12);
                Some(s.as_bytes().len() - 12)
            } else {
                None
            }
        },
        None => None,
    }
}

/// Chooses the language symbol among the names of a library's symbols: of those that begin
/// with `tree_sitter_`, the one with the shortest rest, the first where several tie.
pub fn select_language_symbol(names: &[Option<String>]) -> (r: Option<String>)
    ensures
        symbol_choice(
            names_view(names@),
            match r {
                Some(s) => Some(s@),
                None => None,
            },
        ),
{
    let ghost nv = names_view(names@);
    let prefix: [u8; 12] = [116, 114, 101, 101, 95, 115, 105, 116, 116, 101, 114, 95];
    assert(prefix@ =~= symbol_prefix());
    let mut best: Option<usize> = None;
    let mut best_len: usize = 0;
    let mut i: usize = 0;
    while i < names.len()
        invariant
            i <= names@.len(),
            nv == names_view(names@),
            nv.len() == names@.len(),
            prefix@ == symbol_prefix(),
            best_so_far(nv, i as int, best, best_len as int),
        decreases names@.len() - i,
    {
        assert(nv[i as int] == match names@[i as int] {
            Some(s) => Some(s@),
            None => None::<Seq<char>>,
        });
        let found = symbol_suffix_len(&names[i], prefix.as_slice());
        let ghost pb = best;
        let ghost pl = best_len;
        match found {
            Some(len) => {
                let replace = match best {
                    None => true,
                    Some(_) => len < best_len,
                };
                if replace {
                    best = Some(i);
                    best_len = len;
                }
            },
            None => {},
        }
        proof {
            assert forall|j: int| 0 <= j < i + 1 && is_language_symbol(#[trigger] nv[j]) implies (match best {
                Some(b) => suffix_len(nv[j]->0) >= best_len && (j < b ==> suffix_len(nv[j]->0) > best_len),
                None => false,
            }) by {
                if j < i {
                    assert(best_so_far(nv, i as int, pb, pl as int));
                }
            }
        }
        i = i + 1;
    }
    match best {
        Some(b) => match &names[b] {
            Some(name) => {
                let chosen = name.clone();
                proof {
                    assert(nv[b as int] == Some(name@));
                    assert(is_chosen_symbol(nv, b as int));
                }
                Some(chosen)
            },
            None => {
                assert(nv[b as int] is None);
                None
            },
        },
        None => None,
    }
}

/// Infers the language symbol that a library exports, from the bytes of its file.
pub fn get_symbol(data: &[u8]) -> (r: Result<Option<String>, LoadError>)
    ensures
        r is Err <==> object_symbol_names(data@) is None,
        r matches Ok(s) ==> symbol_choice(
            object_symbol_names(data@)->0,
            match s {
                Some(n) => Some(n@),
                None => None,
            },
        ),
        r matches Err(e) ==> e is InvalidInput,
{
    match symbol_names(data) {
        Ok(names) => Ok(select_language_symbol(names.as_slice())),
        Err(message) => Err(LoadError::InvalidInput(message, None)),
    }
}

/// What joining `rel` onto the directory `base` gives, read back as text.
pub uninterp spec fn spec_path_join(base: Seq<char>, rel: Seq<char>) -> Seq<char>;

/// `std::path::Path::join` of two UTF-8 paths; the joined path is UTF-8 again and is returned as
/// text. The claim is that the result is a function of the two paths alone.
#[verifier::external_body]
pub(crate) fn path_join(base: &str, rel: &str) -> (r: String)
    ensures
        r@ == spec_path_join(base@, rel@),
{
    std::path::Path::new(base).join(rel).to_string_lossy().into_owned()
}

/// Where a grammar lives: its path joined onto its repository, or the repository itself.
pub open spec fn grammar_location(dir: Seq<char>, g: Grammar) -> Seq<char> {
    match g.path {
        Some(p) => spec_path_join(dir, p@),
        None => dir,
    }
}

/// Grammar `i` of `gs` is the first named `name`.
pub open spec fn is_first_grammar(gs: Seq<Grammar>, name: Seq<char>, i: int) -> bool {
    0 <= i < gs.len() && gs[i].name@ == name && forall|j: int| 0 <= j < i ==> (#[trigger] gs[j]).name@ != name
}

/// The entry is a repository with no grammar named `name`.
pub open spec fn entry_misses(e: Result<(String, TreeSitterConfig), LoadError>, name: Seq<char>) -> bool {
    e matches Ok((_, config)) && forall|j: int| 0 <= j < config.grammars@.len() ==> (#[trigger] config.grammars@[j]).name@ != name
}

/// What searching the grammar repositories of a directory for `name` gives, entry by entry.
pub open spec fn dir_search(entries: Seq<Result<(String, TreeSitterConfig), LoadError>>, name: Seq<char>, r: Result<Option<Seq<char>>, LoadError>) -> bool {
    match r {
        Ok(None) => forall|k: int| 0 <= k < entries.len() ==> entry_misses(#[trigger] entries[k], name),
        Ok(Some(p)) => exists|k: int, i: int|
            {
                &&& 0 <= k < entries.len()
                &&& forall|j: int| 0 <= j < k ==> entry_misses(#[trigger] entries[j], name)
                &&& entries[k] is Ok
                &&& #[trigger] is_first_grammar(entries[k]->Ok_0.1.grammars@, name, i)
                &&& p == grammar_location(entries[k]->Ok_0.0@, entries[k]->Ok_0.1.grammars@[i])
            },
        Err(e) => exists|k: int|
            0 <= k < entries.len() && (forall|j: int| 0 <= j < k ==> entry_misses(#[trigger] entries[j], name))
                && #[trigger] entries[k] == Err::<(String, TreeSitterConfig), LoadError>(e),
    }
}

/// A directory search is decided by exact names. A location found is that of a grammar named
/// exactly `name`, the first such in its repository, and every repository before that one is
/// readable and holds no grammar of exactly that name; where nothing is found, every repository
/// is readable and none holds a grammar of exactly that name.
pub proof fn lemma_dir_search_exact_names(
    entries: Seq<Result<(String, TreeSitterConfig), LoadError>>,
    name: Seq<char>,
    r: Result<Option<Seq<char>>, LoadError>,
)
    requires
        dir_search(entries, name, r),
    ensures
        r matches Ok(Some(p)) ==> exists|k: int, i: int|
            {
                &&& 0 <= k < entries.len()
                &&& entries[k] is Ok
                &&& 0 <= i < entries[k]->Ok_0.1.grammars@.len()
                &&& (#[trigger] entries[k]->Ok_0.1.grammars@[i]).name@ == name
                &&& p == grammar_location(entries[k]->Ok_0.0@, entries[k]->Ok_0.1.grammars@[i])
                &&& forall|g: int| 0 <= g < i ==> (#[trigger] entries[k]->Ok_0.1.grammars@[g]).name@ != name
                &&& forall|j: int| 0 <= j < k ==> (#[trigger] entries[j]) is Ok
                &&& forall|j: int, g: int|
                    0 <= j < k && 0 <= g < entries[j]->Ok_0.1.grammars@.len() ==> (
                    #[trigger] entries[j]->Ok_0.1.grammars@[g]).name@ != name
            },
        r matches Ok(None) ==> (forall|j: int| 0 <= j < entries.len() ==> (#[trigger] entries[j]) is Ok) && (forall|
            j: int,
            g: int,
        |
            0 <= j < entries.len() && 0 <= g < entries[j]->Ok_0.1.grammars@.len() ==> (
            #[trigger] entries[j]->Ok_0.1.grammars@[g]).name@ != name),
{
    match r {
        Ok(Some(p)) => {
            let (k, i) = choose|k: int, i: int|
                {
                    &&& 0 <= k < entries.len()
                    &&& forall|j: int| 0 <= j < k ==> entry_misses(#[trigger] entries[j], name)
                    &&& entries[k] is Ok
                    &&& #[trigger] is_first_grammar(entries[k]->Ok_0.1.grammars@, name, i)
                    &&& p == grammar_location(entries[k]->Ok_0.0@, entries[k]->Ok_0.1.grammars@[i])
                };
            assert forall|j: int, g: int|
                0 <= j < k && 0 <= g < entries[j]->Ok_0.1.grammars@.len() implies (
                #[trigger] entries[j]->Ok_0.1.grammars@[g]).name@ != name by {
                assert(entry_misses(entries[j], name));
            }
            assert forall|j: int| 0 <= j < k implies (#[trigger] entries[j]) is Ok by {
                assert(entry_misses(entries[j], name));
            }
            assert(entries[k]->Ok_0.1.grammars@[i].name@ == name);
        },
        Ok(None) => {
            assert forall|j: int, g: int|
                0 <= j < entries.len() && 0 <= g < entries[j]->Ok_0.1.grammars@.len() implies (
                #[trigger] entries[j]->Ok_0.1.grammars@[g]).name@ != name by {
                assert(entry_misses(entries[j], name));
            }
            assert forall|j: int| 0 <= j < entries.len() implies (#[trigger] entries[j]) is Ok by {
                assert(entry_misses(entries[j], name));
            }
        },
        Err(_) => {},
    }
}

/// One step of the search of a directory: what the next repository entry decides. `None` where
/// the search goes on (the repository holds no grammar named `name`); else the entry's error,
/// or the location of its first grammar of that name.
#[verifier::loop_isolation(false)]
pub fn find_in_dir_step(entry: Result<(String, TreeSitterConfig), LoadError>, name: &str) -> (r: Option<Result<Option<String>, LoadError>>)
    ensures
        r is None <==> entry_misses(entry, name@),
        r is None <==> (entry is Ok && forall|j: int|
            0 <= j < entry->Ok_0.1.grammars@.len() ==> (#[trigger] entry->Ok_0.1.grammars@[j]).name@ != name@),
        r matches Some(Ok(p)) ==> p matches Some(loc) && exists|i: int|
            0 <= i < entry->Ok_0.1.grammars@.len() && (#[trigger] entry->Ok_0.1.grammars@[i]).name@ == name@
                && (forall|j: int| 0 <= j < i ==> (#[trigger] entry->Ok_0.1.grammars@[j]).name@ != name@)
                && loc@ == grammar_location(entry->Ok_0.0@, entry->Ok_0.1.grammars@[i]),
        entry matches Err(e) ==> r == Some(Err::<Option<String>, LoadError>(e)),
        r matches Some(Ok(p)) ==> p matches Some(loc) && entry is Ok && exists|i: int|
            #[trigger] is_first_grammar(entry->Ok_0.1.grammars@, name@, i) && loc@ == grammar_location(
                entry->Ok_0.0@,
                entry->Ok_0.1.grammars@[i],
            ),
        r matches Some(Err(e)) ==> entry == Err::<(String, TreeSitterConfig), LoadError>(e),
{
    match entry {
        Err(e) => Some(Err(e)),
        Ok((dir, config)) => {
            let mut i: usize = 0;
            while i < config.grammars.len()
                invariant
                    i <= config.grammars@.len(),
                    forall|j: int| 0 <= j < i ==> (#[trigger] config.grammars@[j]).name@ != name@,
                decreases config.grammars@.len() - i,
            {
                let g = &config.grammars[i];
                if compare_str(g.name.as_str(), name) == Cmp::Equal {
                    let location = match &g.path {
                        Some(p) => path_join(dir.as_str(), p.as_str()),
                        None => dir.clone(),
                    };
                    assert(is_first_grammar(config.grammars@, name@, i as int));
                    return Some(Ok(Some(location)));
                }
                i = i + 1;
            }
            None
        },
    }
}

/// Searches the grammar repositories of a directory, in order, for a grammar named `name`:
/// the first error met is returned, else the location of the first grammar of that name. The
/// search stops at the first entry that decides it (see `find_in_dir_step`).
#[verifier::loop_isolation(false)]
pub fn find_in_dir(entries: Vec<Result<(String, TreeSitterConfig), LoadError>>, name: &str) -> (r: Result<Option<String>, LoadError>)
    ensures
        dir_search(
            entries@,
            name@,
            match r {
                Ok(Some(p)) => Ok(Some(p@)),
                Ok(None) => Ok(None),
                Err(e) => Err(e),
            },
        ),
{
    let ghost all = entries@;
    let mut rest = entries;
    let ghost mut k: int = 0;
    while rest.len() > 0
        invariant
            0 <= k <= all.len(),
            rest@ == all.subrange(k, all.len() as int),
            forall|j: int| 0 <= j < k ==> entry_misses(#[trigger] all[j], name@),
        decreases rest@.len(),
    {
        let entry = rest.remove(0);
        assert(entry == all[k]);
        match find_in_dir_step(entry, name) {
            Some(outcome) => {
                proof {
                    if outcome is Err {
                        assert(dir_search(all, name@, Err(outcome->Err_0)));
                    } else {
                        let p = outcome->Ok_0->Some_0;
                        let i = choose|i: int| #[trigger] is_first_grammar(all[k]->Ok_0.1.grammars@, name@, i)
                            && p@ == grammar_location(all[k]->Ok_0.0@, all[k]->Ok_0.1.grammars@[i]);
                        assert(is_first_grammar(all[k]->Ok_0.1.grammars@, name@, i));
                        assert(dir_search(all, name@, Ok(Some(p@))));
                    }
                }
                return outcome;
            },
            None => {},
        }
        proof {
            assert(rest@ =~= all.subrange(k + 1, all.len() as int));
            k = k + 1;
        }
    }
    Ok(None)
}

/// The message when no directory holds the grammar.
pub open spec fn not_found_message(name: Seq<char>) -> Seq<char> {
    "grammar '"@ + name + "' not found"@
}

/// The error when no directory holds the grammar: invalid input caused by an I/O error of kind
/// "not found".
pub fn grammar_not_found(name: &str) -> (e: LoadError)
    ensures
        e matches LoadError::InvalidInput(m, k) && m@ == not_found_message(name@) && k == Some(IoKind::NotFound),
{
    let mut message = "grammar '".to_owned();
    message.append(name);
    message.append("' not found");
    LoadError::InvalidInput(message, Some(IoKind::NotFound))
}

/// One step of the search of several directories: what searching the next directory decides.
/// `None` where the search goes on (nothing found there); else that outcome, a location or an
/// error, which ends the search.
pub fn find_in_dirs_step(outcome: Result<Option<String>, LoadError>) -> (r: Option<Result<Option<String>, LoadError>>)
    ensures
        outcome matches Ok(None) ==> r is None,
        !(outcome matches Ok(None)) ==> r == Some(outcome),
{
    match outcome {
        Ok(None) => None,
        other => Some(other),
    }
}

/// Searches directories in order, given the outcome of searching each one: the first error or
/// the first location found is returned; where every search finds nothing, the grammar is
/// reported as not found. The search stops at the first directory that decides it (see
/// `find_in_dirs_step`), so the directories after it need not be searched.
#[verifier::loop_isolation(false)]
pub fn find_in_dirs(lookups: Vec<Result<Option<String>, LoadError>>, name: &str) -> (r: Result<Option<String>, LoadError>)
    ensures
        (exists|k: int|
            0 <= k < lookups@.len() && (forall|j: int| 0 <= j < k ==> #[trigger] lookups@[j] is Ok && lookups@[j]->Ok_0 is None)
                && !(#[trigger] lookups@[k] is Ok && lookups@[k]->Ok_0 is None) && r == lookups@[k])
        || ((forall|k: int| 0 <= k < lookups@.len() ==> #[trigger] lookups@[k] is Ok && lookups@[k]->Ok_0 is None)
            && (r matches Err(LoadError::InvalidInput(m, kind)) && m@ == not_found_message(name@) && kind == Some(IoKind::NotFound))),
{
    let ghost all = lookups@;
    let mut rest = lookups;
    let ghost mut k: int = 0;
    while rest.len() > 0
        invariant
            0 <= k <= all.len(),
            rest@ == all.subrange(k, all.len() as int),
            forall|j: int| 0 <= j < k ==> #[trigger] all[j] is Ok && all[j]->Ok_0 is None,
        decreases rest@.len(),
    {
        let outcome = rest.remove(0);
        assert(outcome == all[k]);
        match find_in_dirs_step(outcome) {
            Some(r) => {
                assert(!(all[k] is Ok && all[k]->Ok_0 is None));
                return r;
            },
            None => {},
        }
        proof {
            assert(rest@ =~= all.subrange(k + 1, all.len() as int));
            k = k + 1;
        }
    }
    Err(grammar_not_found(name))
}

} // verus!
