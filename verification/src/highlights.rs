//! Highlight styles and the table that maps capture names to them.
use vstd::prelude::*;
use vstd::utf8::encode_utf8;
use vstd::string::StringSliceAdditionalSpecFns;

use crate::text::{Cmp, compare_str, lex_lt, lemma_lex_irreflexive, lemma_lex_trichotomy, lemma_lex_transitive};

verus! {

/// The style of a highlighted range: a palette index and text decorations.
#[derive(Clone, Copy, Debug, Default, PartialEq, Eq, Structural)]
pub struct Highlight {
    pub base: usize,
    pub bold: bool,
    pub italic: bool,
    pub underline: bool,
    pub strikethrough: bool,
    pub undercurl: bool,
}

/// A highlight with palette index `base` and no decoration.
pub open spec fn plain(base: usize) -> Highlight {
    Highlight {
        base,
        bold: false,
        italic: false,
        underline: false,
        strikethrough: false,
        undercurl: false,
    }
}

impl Highlight {
    pub fn new(base: usize) -> (h: Highlight)
        ensures
            h == plain(base),
    {
        Highlight {
            base,
            bold: false,
            italic: false,
            underline: false,
            strikethrough: false,
            undercurl: false,
        }
    }

    pub fn bold(self) -> (h: Highlight)
        ensures
            h == (Highlight { bold: true, ..self }),
    {
        let mut h = self;
        h.bold = true;
        h
    }

    pub fn italic(self) -> (h: Highlight)
        ensures
            h == (Highlight { italic: true, ..self }),
    {
        let mut h = self;
        h.italic = true;
        h
    }

    pub fn underline(self) -> (h: Highlight)
        ensures
            h == (Highlight { underline: true, ..self }),
    {
        let mut h = self;
        h.underline = true;
        h
    }

    pub fn strikethrough(self) -> (h: Highlight)
        ensures
            h == (Highlight { strikethrough: true, ..self }),
    {
        let mut h = self;
        h.strikethrough = true;
        h
    }

    pub fn undercurl(self) -> (h: Highlight)
        ensures
            h == (Highlight { undercurl: true, ..self }),
    {
        let mut h = self;
        h.undercurl = true;
        h
    }
}

struct Mapping {
    name: String,
    highlight: Highlight,
}

/// A table from capture names to highlights, with a highlight for names it does not hold.
pub struct HighlightMap {
    pub default: Highlight,
    mappings: Vec<Mapping>,
}

spec fn name_bytes(m: Mapping) -> Seq<u8> {
    encode_utf8(m.name@)
}

/// The highlight that the last entry named `name` gives, or `default` where no entry has that name.
pub open spec fn entries_lookup(entries: Seq<(Seq<char>, Highlight)>, name: Seq<char>, default: Highlight) -> Highlight
    decreases entries.len(),
{
    if entries.len() == 0 {
        default
    } else if entries.last().0 == name {
        entries.last().1
    } else {
        entries_lookup(entries.drop_last(), name, default)
    }
}

/// The names and highlights of a list of table entries.
pub open spec fn entries_view(entries: Seq<(&str, Highlight)>) -> Seq<(Seq<char>, Highlight)> {
    entries.map_values(|e: (&str, Highlight)| (e.0@, e.1))
}

impl HighlightMap {
    /// The entries are held in strictly increasing byte order of their names.
    pub closed spec fn wf(self) -> bool {
        forall|i: int, j: int|
            0 <= i < j < self.mappings@.len() ==> lex_lt(
                #[trigger] name_bytes(self.mappings@[i]),
                #[trigger] name_bytes(self.mappings@[j]),
            )
    }

    /// The highlight given to names that the table does not hold.
    pub closed spec fn spec_default(self) -> Highlight {
        self.default
    }

    spec fn has_entry(self, name: Seq<char>) -> bool {
        exists|i: int| 0 <= i < self.mappings@.len() && #[trigger] self.mappings@[i].name@ == name
    }

    spec fn entry_index(self, name: Seq<char>) -> int {
        choose|i: int| 0 <= i < self.mappings@.len() && #[trigger] self.mappings@[i].name@ == name
    }

    /// The highlight that `get` gives for a name.
    pub closed spec fn spec_get(self, name: Seq<char>) -> Highlight {
        if self.has_entry(name) {
            self.mappings@[self.entry_index(name)].highlight
        } else {
            self.default
        }
    }

    proof fn lemma_unique(self, i: int, j: int)
        requires
            self.wf(),
            0 <= i < self.mappings@.len(),
            0 <= j < self.mappings@.len(),
            self.mappings@[i].name@ == self.mappings@[j].name@,
        ensures
            i == j,
    {
        if i < j {
            assert(lex_lt(name_bytes(self.mappings@[i]), name_bytes(self.mappings@[j])));
            lemma_lex_irreflexive(name_bytes(self.mappings@[i]));
        } else if j < i {
            assert(lex_lt(name_bytes(self.mappings@[j]), name_bytes(self.mappings@[i])));
            lemma_lex_irreflexive(name_bytes(self.mappings@[i]));
        }
    }

    proof fn lemma_get_at(self, i: int)
        requires
            self.wf(),
            0 <= i < self.mappings@.len(),
        ensures
            self.spec_get(self.mappings@[i].name@) == self.mappings@[i].highlight,
    {
        let name = self.mappings@[i].name@;
        assert(0 <= i < self.mappings@.len() && self.mappings@[i].name@ == name);
        assert(self.has_entry(name));
        let c = self.entry_index(name);
        assert(0 <= c < self.mappings@.len() && self.mappings@[c].name@ == name);
        self.lemma_unique(c, i);
    }

    /// The highlight given to names that the table does not hold.
    pub fn default_highlight(&self) -> (h: Highlight)
        ensures
            h == self.spec_default(),
    {
        self.default
    }

    /// Every highlight of the table, the default one included, has a palette index below `n`.
    pub closed spec fn bases_below(self, n: usize) -> bool {
        &&& self.default.base < n
        &&& forall|i: int| 0 <= i < self.mappings@.len() ==> (#[trigger] self.mappings@[i]).highlight.base < n
    }

    /// Where every highlight of the table is below `n`, so is every highlight that it gives.
    pub proof fn lemma_bases_below(self, n: usize)
        requires
            self.bases_below(n),
        ensures
            self.spec_default().base < n,
            forall|k: Seq<char>| (#[trigger] self.spec_get(k)).base < n,
    {
        assert forall|k: Seq<char>| (#[trigger] self.spec_get(k)).base < n by {
            if self.has_entry(k) {
                let i = self.entry_index(k);
                assert(self.mappings@[i].highlight.base < n);
            }
        }
    }

    /// Whether every highlight of the table names one of the sixteen colours of a palette.
    pub fn fits_palette(&self) -> (r: bool)
        ensures
            r == self.bases_below(16),
    {
        if self.default.base >= 16 {
            return false;
        }
        let mut i: usize = 0;
        while i < self.mappings.len()
            invariant
                i <= self.mappings@.len(),
                forall|j: int| 0 <= j < i ==> (#[trigger] self.mappings@[j]).highlight.base < 16,
            decreases self.mappings@.len() - i,
        {
            if self.mappings[i].highlight.base >= 16 {
                return false;
            }
            i = i + 1;
        }
        true
    }

    /// An empty table.
    pub fn new(default: Highlight) -> (m: HighlightMap)
        ensures
            m.wf(),
            m.spec_default() == default,
            forall|name: Seq<char>| #[trigger] m.spec_get(name) == default,
    {
        let m = HighlightMap { default, mappings: Vec::new() };
        assert forall|name: Seq<char>| #[trigger] m.spec_get(name) == default by {
            assert(!m.has_entry(name));
        }
        m
    }

    /// Finds the position of `name`: `Ok` with its index, or `Err` with the index where it belongs.
    fn search(&self, name: &str) -> (r: Result<usize, usize>)
        requires
            self.wf(),
        ensures
            match r {
                Ok(i) => i < self.mappings@.len() && self.mappings@[i as int].name@ == name@,
                Err(i) => {
                    &&& i <= self.mappings@.len()
                    &&& forall|j: int| 0 <= j < i ==> lex_lt(#[trigger] name_bytes(self.mappings@[j]), name.spec_bytes())
                    &&& forall|j: int| i <= j < self.mappings@.len() ==> lex_lt(name.spec_bytes(), #[trigger] name_bytes(self.mappings@[j]))
                },
            },
    {
        let mut lo: usize = 0;
        let mut hi: usize = self.mappings.len();
        while lo < hi
            invariant
                self.wf(),
                lo <= hi <= self.mappings@.len(),
                forall|j: int| 0 <= j < lo ==> lex_lt(#[trigger] name_bytes(self.mappings@[j]), name.spec_bytes()),
                forall|j: int| hi <= j < self.mappings@.len() ==> lex_lt(name.spec_bytes(), #[trigger] name_bytes(self.mappings@[j])),
            decreases hi - lo,
        {
            let mid = lo + (hi - lo) / 2;
            let c = compare_str(self.mappings[mid].name.as_str(), name);
            match c {
                Cmp::Equal => {
                    return Ok(mid);
                },
                Cmp::Less => {
                    assert forall|j: int| 0 <= j < mid + 1 implies lex_lt(#[trigger] name_bytes(self.mappings@[j]), name.spec_bytes()) by {
                        if j < mid {
                            assert(lex_lt(name_bytes(self.mappings@[j]), name_bytes(self.mappings@[mid as int])));
                            lemma_lex_transitive(name_bytes(self.mappings@[j]), name_bytes(self.mappings@[mid as int]), name.spec_bytes());
                        }
                    }
                    lo = mid + 1;
                },
                Cmp::Greater => {
                    assert forall|j: int| mid <= j < self.mappings@.len() implies lex_lt(name.spec_bytes(), #[trigger] name_bytes(self.mappings@[j])) by {
                        if j > mid {
                            assert(lex_lt(name_bytes(self.mappings@[mid as int]), name_bytes(self.mappings@[j])));
                            lemma_lex_transitive(name.spec_bytes(), name_bytes(self.mappings@[mid as int]), name_bytes(self.mappings@[j]));
                        }
                    }
                    hi = mid;
                },
            }
        }
        Err(lo)
    }

    proof fn lemma_absent(self, name: &str, i: int)
        requires
            self.wf(),
            0 <= i <= self.mappings@.len(),
            forall|j: int| 0 <= j < i ==> lex_lt(#[trigger] name_bytes(self.mappings@[j]), name.spec_bytes()),
            forall|j: int| i <= j < self.mappings@.len() ==> lex_lt(name.spec_bytes(), #[trigger] name_bytes(self.mappings@[j])),
        ensures
            !self.has_entry(name@),
    {
        if self.has_entry(name@) {
            let k = choose|k: int| 0 <= k < self.mappings@.len() && #[trigger] self.mappings@[k].name@ == name@;
            assert(name_bytes(self.mappings@[k]) == name.spec_bytes());
            if k < i {
                assert(lex_lt(name_bytes(self.mappings@[k]), name.spec_bytes()));
            } else {
                assert(lex_lt(name.spec_bytes(), name_bytes(self.mappings@[k])));
            }
            lemma_lex_irreflexive(name.spec_bytes());
        }
    }

    /// The highlight of the entry named `name`, or the default highlight where there is none.
    pub fn get(&self, name: &str) -> (h: Highlight)
        requires
            self.wf(),
        ensures
            h == self.spec_get(name@),
    {
        match self.search(name) {
            Ok(i) => {
                proof {
                    self.lemma_get_at(i as int);
                }
                self.mappings[i].highlight
            },
            Err(i) => {
                proof {
                    self.lemma_absent(name, i as int);
                }
                self.default
            },
        }
    }

    /// Sets the highlight of `name`, replacing the one it had.
    pub fn insert(&mut self, name: &str, highlight: Highlight)
        requires
            old(self).wf(),
        ensures
            final(self).wf(),
            final(self).spec_default() == old(self).spec_default(),
            forall|k: Seq<char>| #[trigger] final(self).spec_get(k) == if k == name@ {
                highlight
            } else {
                old(self).spec_get(k)
            },
    {
        let ghost pre = *self;
        match self.search(name) {
            Ok(i) => {
                let ghost old_m = self.mappings@;
                let entry = Mapping { name: name.to_owned(), highlight };
                self.mappings.set(i, entry);
                proof {
                    assert(self.mappings@ == old_m.update(i as int, entry));
                    assert forall|a: int, b: int| 0 <= a < b < self.mappings@.len() implies lex_lt(
                        #[trigger] name_bytes(self.mappings@[a]),
                        #[trigger] name_bytes(self.mappings@[b]),
                    ) by {
                        assert(name_bytes(pre.mappings@[a]) == name_bytes(self.mappings@[a]));
                        assert(name_bytes(pre.mappings@[b]) == name_bytes(self.mappings@[b]));
                    }
                    assert forall|k: Seq<char>| #[trigger] self.spec_get(k) == if k == name@ {
                        highlight
                    } else {
                        pre.spec_get(k)
                    } by {
                        if k == name@ {
                            self.lemma_get_at(i as int);
                        } else if pre.has_entry(k) {
                            let c = choose|c: int| 0 <= c < pre.mappings@.len() && #[trigger] pre.mappings@[c].name@ == k;
                            pre.lemma_get_at(c);
                            assert(self.mappings@[c].name@ == k);
                            self.lemma_get_at(c);
                        } else {
                            if self.has_entry(k) {
                                let c = choose|c: int| 0 <= c < self.mappings@.len() && #[trigger] self.mappings@[c].name@ == k;
                                assert(pre.mappings@[c].name@ == k);
                            }
                        }
                    }
                }
            },
            Err(i) => {
                let ghost old_m = self.mappings@;
                let entry = Mapping { name: name.to_owned(), highlight };
                self.mappings.insert(i, entry);
                proof {
                    assert(self.mappings@ == old_m.insert(i as int, entry));
                    assert(name_bytes(entry) == name.spec_bytes());
                    assert forall|a: int, b: int| 0 <= a < b < self.mappings@.len() implies lex_lt(
                        #[trigger] name_bytes(self.mappings@[a]),
                        #[trigger] name_bytes(self.mappings@[b]),
                    ) by {
                        if b < i {
                            assert(self.mappings@[a] == old_m[a] && self.mappings@[b] == old_m[b]);
                        } else if b == i {
                            assert(self.mappings@[a] == old_m[a]);
                        } else if a < i {
                            assert(self.mappings@[a] == old_m[a] && self.mappings@[b] == old_m[b - 1]);
                            lemma_lex_transitive(name_bytes(old_m[a]), name.spec_bytes(), name_bytes(old_m[b - 1]));
                        } else if a == i {
                            assert(self.mappings@[b] == old_m[b - 1]);
                        } else {
                            assert(self.mappings@[a] == old_m[a - 1] && self.mappings@[b] == old_m[b - 1]);
                        }
                    }
                    pre.lemma_absent(name, i as int);
                    assert forall|k: Seq<char>| #[trigger] self.spec_get(k) == if k == name@ {
                        highlight
                    } else {
                        pre.spec_get(k)
                    } by {
                        if k == name@ {
                            self.lemma_get_at(i as int);
                        } else if pre.has_entry(k) {
                            let c = choose|c: int| 0 <= c < pre.mappings@.len() && #[trigger] pre.mappings@[c].name@ == k;
                            pre.lemma_get_at(c);
                            if c < i {
                                assert(self.mappings@[c] == old_m[c]);
                                self.lemma_get_at(c);
                            } else {
                                assert(self.mappings@[c + 1] == old_m[c]);
                                self.lemma_get_at(c + 1);
                            }
                        } else {
                            if self.has_entry(k) {
                                let c = choose|c: int| 0 <= c < self.mappings@.len() && #[trigger] self.mappings@[c].name@ == k;
                                if c < i {
                                    assert(pre.mappings@[c].name@ == k);
                                } else if c > i {
                                    assert(pre.mappings@[c - 1].name@ == k);
                                }
                            }
                        }
                    }
                }
            },
        }
    }

    /// A table holding `entries`; where a name occurs twice, the later entry wins.
    pub fn from_entries(default: Highlight, entries: &[(&str, Highlight)]) -> (m: HighlightMap)
        ensures
            m.wf(),
            m.spec_default() == default,
            forall|k: Seq<char>| #[trigger] m.spec_get(k) == entries_lookup(entries_view(entries@), k, default),
    {
        let mut m = HighlightMap::new(default);
        let mut i: usize = 0;
        while i < entries.len()
            invariant
                i <= entries@.len(),
                m.wf(),
                m.spec_default() == default,
                forall|k: Seq<char>| #[trigger] m.spec_get(k) == entries_lookup(entries_view(entries@).take(i as int), k, default),
            decreases entries@.len() - i,
        {
            let (name, highlight) = entries[i];
            m.insert(name, highlight);
            proof {
                let ev = entries_view(entries@);
                assert(ev.take(i + 1).drop_last() =~= ev.take(i as int));
                assert(ev.take(i + 1).last() == (name@, highlight));
            }
            i = i + 1;
        }
        assert(entries_view(entries@).take(entries@.len() as int) =~= entries_view(entries@));
        m
    }
}

} // verus!
