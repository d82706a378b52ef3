//! The built-in tables from capture names to highlights.
use vstd::prelude::*;

use crate::highlights::{Highlight, HighlightMap, plain, entries_lookup, entries_view};
use crate::parser::Capture;
use crate::render::{highlights_in_palette, highlight_for, group_at};

verus! {

/// A highlight with palette index `colour` and no decoration.
pub fn hl(colour: usize) -> (h: Highlight)
    ensures
        h == plain(colour),
{
    Highlight::new(colour)
}

/// The names and highlights of the default table, in order.
pub open spec fn default_table() -> Seq<(Seq<char>, Highlight)> {
    seq![
        ("attribute"@, plain(0x0f)),
        ("attribute.builtin"@, plain(0x0f)),
        ("boolean"@, plain(0x09)),
        ("character"@, plain(0x0b)),
        ("character.special"@, plain(0x0c)),
        ("comment"@, plain(0x03)),
        ("comment.documentation"@, Highlight { italic: true, ..plain(0x03) }),
        ("comment.error"@, plain(0x08)),
        ("comment.note"@, plain(0x0c)),
        ("comment.todo"@, plain(0x0f)),
        ("comment.warning"@, plain(0x09)),
        ("constant"@, plain(0x09)),
        ("constant.builtin"@, Highlight { bold: true, ..plain(0x09) }),
        ("constant.macro"@, Highlight { bold: true, ..plain(0x09) }),
        ("constructor"@, plain(0x0a)),
        ("diff.delta"@, plain(0x0a)),
        ("diff.minus"@, plain(0x08)),
        ("diff.plus"@, plain(0x0b)),
        ("function"@, plain(0x0d)),
        ("function.builtin"@, plain(0x0d)),
        ("function.call"@, plain(0x0d)),
        ("function.macro"@, plain(0x0d)),
        ("function.method"@, plain(0x0d)),
        ("function.method.call"@, plain(0x0d)),
        ("keyword"@, plain(0x0e)),
        ("keyword.conditional"@, plain(0x0e)),
        ("keyword.conditional.ternary"@, plain(0x0e)),
        ("keyword.coroutine"@, plain(0x0e)),
        ("keyword.debug"@, plain(0x0e)),
        ("keyword.directive"@, plain(0x0e)),
        ("keyword.directive.define"@, plain(0x0e)),
        ("keyword.exception"@, plain(0x08)),
        ("keyword.function"@, plain(0x0e)),
        ("keyword.import"@, plain(0x0e)),
        ("keyword.modifier"@, plain(0x0e)),
        ("keyword.operator"@, plain(0x0e)),
        ("keyword.repeat"@, plain(0x0e)),
        ("keyword.return"@, plain(0x0e)),
        ("keyword.type"@, plain(0x0e)),
        ("label"@, plain(0x0e)),
        ("markup"@, plain(0x0f)),
        ("markup.heading"@, plain(0x0f)),
        ("markup.heading.1"@, plain(0x0f)),
        ("markup.heading.2"@, plain(0x0f)),
        ("markup.heading.3"@, plain(0x0f)),
        ("markup.heading.4"@, plain(0x0f)),
        ("markup.heading.5"@, plain(0x0f)),
        ("markup.heading.6"@, plain(0x0f)),
        ("markup.italic"@, Highlight { italic: true, ..plain(0x0f) }),
        ("markup.link"@, Highlight { underline: true, ..plain(0x0f) }),
        ("markup.link.label"@, Highlight { underline: true, ..plain(0x0f) }),
        ("markup.link.url"@, Highlight { underline: true, ..plain(0x0d) }),
        ("markup.list"@, plain(0x0f)),
        ("markup.list.checked"@, plain(0x0b)),
        ("markup.list.unchecked"@, plain(0x0b)),
        ("markup.math"@, plain(0x0c)),
        ("markup.quote"@, plain(0x0f)),
        ("markup.raw"@, plain(0x0f)),
        ("markup.raw.block"@, plain(0x0f)),
        ("markup.strikethrough"@, Highlight { strikethrough: true, ..plain(0x0f) }),
        ("markup.strong"@, Highlight { bold: true, ..plain(0x0f) }),
        ("markup.underline"@, Highlight { underline: true, ..plain(0x0f) }),
        ("module"@, plain(0x0a)),
        ("module.builtin"@, plain(0x0a)),
        ("number"@, plain(0x09)),
        ("number.float"@, plain(0x09)),
        ("operator"@, plain(0x05)),
        ("property"@, plain(0x05)),
        ("punctuation.bracket"@, plain(0x05)),
        ("punctuation.delimiter"@, plain(0x05)),
        ("punctuation.special"@, plain(0x0c)),
        ("string"@, plain(0x0b)),
        ("string.documentation"@, plain(0x0b)),
        ("string.escape"@, plain(0x0c)),
        ("string.regexp"@, plain(0x0c)),
        ("string.special"@, plain(0x0c)),
        ("string.special.path"@, plain(0x0c)),
        ("string.special.symbol"@, plain(0x0c)),
        ("string.special.url"@, Highlight { underline: true, ..plain(0x0d) }),
        ("tag"@, plain(0x0a)),
        ("tag.attribute"@, plain(0x05)),
        ("tag.builtin"@, plain(0x0c)),
        ("tag.delimiter"@, plain(0x05)),
        ("type"@, plain(0x0a)),
        ("type.builtin"@, plain(0x0a)),
        ("type.definition"@, plain(0x0a)),
        ("variable"@, plain(0x05)),
        ("variable.builtin"@, plain(0x05)),
        ("variable.member"@, plain(0x05)),
        ("variable.parameter"@, plain(0x05)),
        ("variable.parameter.builtin"@, plain(0x05)),
    ]
}

fn default_entries() -> (v: Vec<(&'static str, Highlight)>)
    ensures
        entries_view(v@) == default_table(),
{
    let v = vec![
        ("attribute", hl(0x0f)),
        ("attribute.builtin", hl(0x0f)),
        ("boolean", hl(0x09)),
        ("character", hl(0x0b)),
        ("character.special", hl(0x0c)),
        ("comment", hl(0x03)),
        ("comment.documentation", hl(0x03).italic()),
        ("comment.error", hl(0x08)),
        ("comment.note", hl(0x0c)),
        ("comment.todo", hl(0x0f)),
        ("comment.warning", hl(0x09)),
        ("constant", hl(0x09)),
        ("constant.builtin", hl(0x09).bold()),
        ("constant.macro", hl(0x09).bold()),
        ("constructor", hl(0x0a)),
        ("diff.delta", hl(0x0a)),
        ("diff.minus", hl(0x08)),
        ("diff.plus", hl(0x0b)),
        ("function", hl(0x0d)),
        ("function.builtin", hl(0x0d)),
        ("function.call", hl(0x0d)),
        ("function.macro", hl(0x0d)),
        ("function.method", hl(0x0d)),
        ("function.method.call", hl(0x0d)),
        ("keyword", hl(0x0e)),
        ("keyword.conditional", hl(0x0e)),
        ("keyword.conditional.ternary", hl(0x0e)),
        ("keyword.coroutine", hl(0x0e)),
        ("keyword.debug", hl(0x0e)),
        ("keyword.directive", hl(0x0e)),
        ("keyword.directive.define", hl(0x0e)),
        ("keyword.exception", hl(0x08)),
        ("keyword.function", hl(0x0e)),
        ("keyword.import", hl(0x0e)),
        ("keyword.modifier", hl(0x0e)),
        ("keyword.operator", hl(0x0e)),
        ("keyword.repeat", hl(0x0e)),
        ("keyword.return", hl(0x0e)),
        ("keyword.type", hl(0x0e)),
        ("label", hl(0x0e)),
        ("markup", hl(0x0f)),
        ("markup.heading", hl(0x0f)),
        ("markup.heading.1", hl(0x0f)),
        ("markup.heading.2", hl(0x0f)),
        ("markup.heading.3", hl(0x0f)),
        ("markup.heading.4", hl(0x0f)),
        ("markup.heading.5", hl(0x0f)),
        ("markup.heading.6", hl(0x0f)),
        ("markup.italic", hl(0x0f).italic()),
        ("markup.link", hl(0x0f).underline()),
        ("markup.link.label", hl(0x0f).underline()),
        ("markup.link.url", hl(0x0d).underline()),
        ("markup.list", hl(0x0f)),
        ("markup.list.checked", hl(0x0b)),
        ("markup.list.unchecked", hl(0x0b)),
        ("markup.math", hl(0x0c)),
        ("markup.quote", hl(0x0f)),
        ("markup.raw", hl(0x0f)),
        ("markup.raw.block", hl(0x0f)),
        ("markup.strikethrough", hl(0x0f).strikethrough()),
        ("markup.strong", hl(0x0f).bold()),
        ("markup.underline", hl(0x0f).underline()),
        ("module", hl(0x0a)),
        ("module.builtin", hl(0x0a)),
        ("number", hl(0x09)),
        ("number.float", hl(0x09)),
        ("operator", hl(0x05)),
        ("property", hl(0x05)),
        ("punctuation.bracket", hl(0x05)),
        ("punctuation.delimiter", hl(0x05)),
        ("punctuation.special", hl(0x0c)),
        ("string", hl(0x0b)),
        ("string.documentation", hl(0x0b)),
        ("string.escape", hl(0x0c)),
        ("string.regexp", hl(0x0c)),
        ("string.special", hl(0x0c)),
        ("string.special.path", hl(0x0c)),
        ("string.special.symbol", hl(0x0c)),
        ("string.special.url", hl(0x0d).underline()),
        ("tag", hl(0x0a)),
        ("tag.attribute", hl(0x05)),
        ("tag.builtin", hl(0x0c)),
        ("tag.delimiter", hl(0x05)),
        ("type", hl(0x0a)),
        ("type.builtin", hl(0x0a)),
        ("type.definition", hl(0x0a)),
        ("variable", hl(0x05)),
        ("variable.builtin", hl(0x05)),
        ("variable.member", hl(0x05)),
        ("variable.parameter", hl(0x05)),
        ("variable.parameter.builtin", hl(0x05)),
    ];
    assert(entries_view(v@) =~= default_table());
    v
}

/// The table used when no other is given: the default highlight has palette index 5.
pub fn default_mapping() -> (m: HighlightMap)
    ensures
        m.wf(),
        m.spec_default() == plain(0x05),
        forall|k: Seq<char>| #[trigger] m.spec_get(k) == entries_lookup(default_table(), k, plain(0x05)),
        gives_default_highlights(|k: Seq<char>| m.spec_get(k)),
{
    let entries = default_entries();
    let m = HighlightMap::from_entries(hl(0x05), entries.as_slice());
    proof {
        lemma_default_table_highlights();
    }
    m
}

/// The plain table: the default table without the emphasis of documentation comments and of
/// built-in and macro constants.
pub open spec fn basic_table() -> Seq<(Seq<char>, Highlight)> {
    default_table() + seq![
        ("comment.documentation"@, plain(0x03)),
        ("constant.builtin"@, plain(0x09)),
        ("constant.macro"@, plain(0x09)),
    ]
}

/// The highlight of a capture name in the plain table, palette index 5 where it has none.
pub fn get_colour(name: &str) -> (h: Highlight)
    ensures
        h == entries_lookup(basic_table(), name@, plain(0x05)),
{
    let mut entries = default_entries();
    entries.push(("comment.documentation", hl(0x03)));
    entries.push(("constant.builtin", hl(0x09)));
    entries.push(("constant.macro", hl(0x09)));
    assert(entries_view(entries@) =~= basic_table());
    let m = HighlightMap::from_entries(hl(0x05), entries.as_slice());
    m.get(name)
}


/// Where every highlight of a list and the default are below sixteen, so is every highlight that
/// a lookup in the list gives.
pub proof fn lemma_lookup_below_16(t: Seq<(Seq<char>, Highlight)>, k: Seq<char>, d: Highlight)
    requires
        forall|i: int| 0 <= i < t.len() ==> (#[trigger] t[i]).1.base < 16,
        d.base < 16,
    ensures
        entries_lookup(t, k, d).base < 16,
    decreases t.len(),
{
    if t.len() > 0 {
        assert(t.last() == t[t.len() - 1]);
        lemma_lookup_below_16(t.drop_last(), k, d);
    }
}

/// Every highlight of the default table names one of the sixteen colours of a palette.
pub proof fn lemma_default_table_below_16()
    ensures
        forall|i: int| 0 <= i < default_table().len() ==> (#[trigger] default_table()[i]).1.base < 16,
{
    let t = default_table();
    assert forall|i: int| 0 <= i < t.len() implies (#[trigger] t[i]).1.base < 16 by {
        assert(t[i].1.base <= 0x0f);
    }
}

/// With the default table, the highlight in force at every byte names a palette colour,
/// whatever the captures.
pub proof fn lemma_default_mapping_fits(m: HighlightMap, caps: Seq<Capture>, len: int)
    requires
        m.spec_default() == plain(0x05),
        forall|k: Seq<char>| #[trigger] m.spec_get(k) == entries_lookup(default_table(), k, plain(0x05)),
    ensures
        highlights_in_palette(caps, m, len),
{
    lemma_default_table_below_16();
    assert forall|p: int| 0 <= p < len implies #[trigger] highlight_for(m, group_at(caps, p)).base < 16 by {
        match group_at(caps, p) {
            Some(name) => {
                lemma_lookup_below_16(default_table(), name, plain(0x05));
            },
            None => {},
        }
    }
}

} // verus!

verus! {

/// `a` comes before `b` in character order, comparing from position `i` on (a proper prefix comes
/// first).
spec fn chars_before(a: Seq<char>, b: Seq<char>, i: int) -> bool
    decreases a.len() - i,
{
    if i < 0 {
        false
    } else if i >= a.len() {
        i < b.len()
    } else if i >= b.len() {
        false
    } else if (a[i] as u32) < (b[i] as u32) {
        true
    } else if a[i] == b[i] {
        chars_before(a, b, i + 1)
    } else {
        false
    }
}

proof fn lemma_chars_before_irreflexive(a: Seq<char>, i: int)
    requires
        0 <= i,
    ensures
        !chars_before(a, a, i),
    decreases a.len() - i,
{
    if i < a.len() {
        lemma_chars_before_irreflexive(a, i + 1);
    }
}

proof fn lemma_chars_before_transitive(a: Seq<char>, b: Seq<char>, c: Seq<char>, i: int)
    requires
        0 <= i,
        chars_before(a, b, i),
        chars_before(b, c, i),
    ensures
        chars_before(a, c, i),
    decreases a.len() - i,
{
    if i < a.len() && i < b.len() && i < c.len() && a[i] == b[i] && b[i] == c[i] {
        lemma_chars_before_transitive(a, b, c, i + 1);
    }
}

/// The names of a table, each before the next.
spec fn names_ascending(t: Seq<(Seq<char>, Highlight)>) -> bool {
    forall|i: int| 0 <= i < t.len() - 1 ==> chars_before(#[trigger] t[i].0, t[i + 1].0, 0)
}

proof fn lemma_ascending_chain(t: Seq<(Seq<char>, Highlight)>, i: int, j: int)
    requires
        names_ascending(t),
        0 <= i < j < t.len(),
    ensures
        chars_before(t[i].0, t[j].0, 0),
    decreases j - i,
{
    if j > i + 1 {
        lemma_ascending_chain(t, i, j - 1);
        assert(chars_before(t[j - 1].0, t[j].0, 0));
        lemma_chars_before_transitive(t[i].0, t[j - 1].0, t[j].0, 0);
    }
}

/// Ascending names are distinct.
proof fn lemma_ascending_distinct(t: Seq<(Seq<char>, Highlight)>)
    requires
        names_ascending(t),
    ensures
        forall|i: int, j: int| 0 <= i < t.len() && 0 <= j < t.len() && i != j ==> (#[trigger] t[i]).0 != (#[trigger] t[j]).0,
{
    assert forall|i: int, j: int| 0 <= i < t.len() && 0 <= j < t.len() && i != j implies (#[trigger] t[i]).0 != (
    #[trigger] t[j]).0 by {
        if i < j {
            lemma_ascending_chain(t, i, j);
        } else {
            lemma_ascending_chain(t, j, i);
        }
        lemma_chars_before_irreflexive(t[i].0, 0);
    }
}

/// Where no later entry has the name of entry `i`, looking that name up gives entry `i`'s highlight.
proof fn lemma_lookup_entry(t: Seq<(Seq<char>, Highlight)>, i: int, d: Highlight)
    requires
        0 <= i < t.len(),
        forall|j: int| i < j < t.len() ==> (#[trigger] t[j]).0 != t[i].0,
    ensures
        entries_lookup(t, t[i].0, d) == t[i].1,
    decreases t.len(),
{
    if i < t.len() - 1 {
        let rest = t.drop_last();
        assert(t.last() == t[t.len() - 1]);
        assert(rest[i] == t[i]);
        assert forall|j: int| i < j < rest.len() implies (#[trigger] rest[j]).0 != rest[i].0 by {
            assert(rest[j] == t[j]);
        }
        lemma_lookup_entry(rest, i, d);
    }
}

/// Entries added after the others that do not hold a name leave its lookup unchanged.
proof fn lemma_lookup_past_suffix(t: Seq<(Seq<char>, Highlight)>, u: Seq<(Seq<char>, Highlight)>, k: Seq<char>, d: Highlight)
    requires
        forall|j: int| 0 <= j < u.len() ==> (#[trigger] u[j]).0 != k,
    ensures
        entries_lookup(t + u, k, d) == entries_lookup(t, k, d),
    decreases u.len(),
{
    if u.len() == 0 {
        assert(t + u =~= t);
    } else {
        let rest = u.drop_last();
        assert((t + u).drop_last() =~= t + rest);
        assert((t + u).last() == u[u.len() - 1]);
        assert forall|j: int| 0 <= j < rest.len() implies (#[trigger] rest[j]).0 != k by {
            assert(rest[j] == u[j]);
        }
        lemma_lookup_past_suffix(t, rest, k, d);
    }
}


#[verifier::rlimit(60)]
proof fn lemma_default_names_ascending_0()
    ensures
        forall|i: int| 0 <= i < 10 ==> chars_before(#[trigger] default_table()[i].0, default_table()[i + 1].0, 0),
{
    let t = default_table();
    assert forall|i: int| 0 <= i < 10 implies chars_before(#[trigger] t[i].0, t[i + 1].0, 0) by {
        if i == 0 {
            reveal_strlit("attribute");
            reveal_strlit("attribute.builtin");
            reveal_with_fuel(chars_before, 11);
            assert(t[0].0 == "attribute"@ && t[1].0 == "attribute.builtin"@);
            assert(chars_before("attribute"@, "attribute.builtin"@, 0));
        } else if i == 1 {
            reveal_strlit("attribute.builtin");
            reveal_strlit("boolean");
            reveal_with_fuel(chars_before, 2);
            assert(t[1].0 == "attribute.builtin"@ && t[2].0 == "boolean"@);
            assert(chars_before("attribute.builtin"@, "boolean"@, 0));
        } else if i == 2 {
            reveal_strlit("boolean");
            reveal_strlit("character");
            reveal_with_fuel(chars_before, 2);
            assert(t[2].0 == "boolean"@ && t[3].0 == "character"@);
            assert(chars_before("boolean"@, "character"@, 0));
        } else if i == 3 {
            reveal_strlit("character");
            reveal_strlit("character.special");
            reveal_with_fuel(chars_before, 11);
            assert(t[3].0 == "character"@ && t[4].0 == "character.special"@);
            assert(chars_before("character"@, "character.special"@, 0));
        } else if i == 4 {
            reveal_strlit("character.special");
            reveal_strlit("comment");
            reveal_with_fuel(chars_before, 3);
            assert(t[4].0 == "character.special"@ && t[5].0 == "comment"@);
            assert(chars_before("character.special"@, "comment"@, 0));
        } else if i == 5 {
            reveal_strlit("comment");
            reveal_strlit("comment.documentation");
            reveal_with_fuel(chars_before, 9);
            assert(t[5].0 == "comment"@ && t[6].0 == "comment.documentation"@);
            assert(chars_before("comment"@, "comment.documentation"@, 0));
        } else if i == 6 {
            reveal_strlit("comment.documentation");
            reveal_strlit("comment.error");
            reveal_with_fuel(chars_before, 10);
            assert(t[6].0 == "comment.documentation"@ && t[7].0 == "comment.error"@);
            assert(chars_before("comment.documentation"@, "comment.error"@, 0));
        } else if i == 7 {
            reveal_strlit("comment.error");
            reveal_strlit("comment.note");
            reveal_with_fuel(chars_before, 10);
            assert(t[7].0 == "comment.error"@ && t[8].0 == "comment.note"@);
            assert(chars_before("comment.error"@, "comment.note"@, 0));
        } else if i == 8 {
            reveal_strlit("comment.note");
            reveal_strlit("comment.todo");
            reveal_with_fuel(chars_before, 10);
            assert(t[8].0 == "comment.note"@ && t[9].0 == "comment.todo"@);
            assert(chars_before("comment.note"@, "comment.todo"@, 0));
        } else if i == 9 {
            reveal_strlit("comment.todo");
            reveal_strlit("comment.warning");
            reveal_with_fuel(chars_before, 10);
            assert(t[9].0 == "comment.todo"@ && t[10].0 == "comment.warning"@);
            assert(chars_before("comment.todo"@, "comment.warning"@, 0));
        }
    }
}

#[verifier::rlimit(60)]
proof fn lemma_default_names_ascending_1()
    ensures
        forall|i: int| 10 <= i < 20 ==> chars_before(#[trigger] default_table()[i].0, default_table()[i + 1].0, 0),
{
    let t = default_table();
    assert forall|i: int| 10 <= i < 20 implies chars_before(#[trigger] t[i].0, t[i + 1].0, 0) by {
        if i == 10 {
            reveal_strlit("comment.warning");
            reveal_strlit("constant");
            reveal_with_fuel(chars_before, 4);
            assert(t[10].0 == "comment.warning"@ && t[11].0 == "constant"@);
            assert(chars_before("comment.warning"@, "constant"@, 0));
        } else if i == 11 {
            reveal_strlit("constant");
            reveal_strlit("constant.builtin");
            reveal_with_fuel(chars_before, 10);
            assert(t[11].0 == "constant"@ && t[12].0 == "constant.builtin"@);
            assert(chars_before("constant"@, "constant.builtin"@, 0));
        } else if i == 12 {
            reveal_strlit("constant.builtin");
            reveal_strlit("constant.macro");
            reveal_with_fuel(chars_before, 11);
            assert(t[12].0 == "constant.builtin"@ && t[13].0 == "constant.macro"@);
            assert(chars_before("constant.builtin"@, "constant.macro"@, 0));
        } else if i == 13 {
            reveal_strlit("constant.macro");
            reveal_strlit("constructor");
            reveal_with_fuel(chars_before, 7);
            assert(t[13].0 == "constant.macro"@ && t[14].0 == "constructor"@);
            assert(chars_before("constant.macro"@, "constructor"@, 0));
        } else if i == 14 {
            reveal_strlit("constructor");
            reveal_strlit("diff.delta");
            reveal_with_fuel(chars_before, 2);
            assert(t[14].0 == "constructor"@ && t[15].0 == "diff.delta"@);
            assert(chars_before("constructor"@, "diff.delta"@, 0));
        } else if i == 15 {
            reveal_strlit("diff.delta");
            reveal_strlit("diff.minus");
            reveal_with_fuel(chars_before, 7);
            assert(t[15].0 == "diff.delta"@ && t[16].0 == "diff.minus"@);
            assert(chars_before("diff.delta"@, "diff.minus"@, 0));
        } else if i == 16 {
            reveal_strlit("diff.minus");
            reveal_strlit("diff.plus");
            reveal_with_fuel(chars_before, 7);
            assert(t[16].0 == "diff.minus"@ && t[17].0 == "diff.plus"@);
            assert(chars_before("diff.minus"@, "diff.plus"@, 0));
        } else if i == 17 {
            reveal_strlit("diff.plus");
            reveal_strlit("function");
            reveal_with_fuel(chars_before, 2);
            assert(t[17].0 == "diff.plus"@ && t[18].0 == "function"@);
            assert(chars_before("diff.plus"@, "function"@, 0));
        } else if i == 18 {
            reveal_strlit("function");
            reveal_strlit("function.builtin");
            reveal_with_fuel(chars_before, 10);
            assert(t[18].0 == "function"@ && t[19].0 == "function.builtin"@);
            assert(chars_before("function"@, "function.builtin"@, 0));
        } else if i == 19 {
            reveal_strlit("function.builtin");
            reveal_strlit("function.call");
            reveal_with_fuel(chars_before, 11);
            assert(t[19].0 == "function.builtin"@ && t[20].0 == "function.call"@);
            assert(chars_before("function.builtin"@, "function.call"@, 0));
        }
    }
}

#[verifier::rlimit(60)]
proof fn lemma_default_names_ascending_2()
    ensures
        forall|i: int| 20 <= i < 30 ==> chars_before(#[trigger] default_table()[i].0, default_table()[i + 1].0, 0),
{
    let t = default_table();
    assert forall|i: int| 20 <= i < 30 implies chars_before(#[trigger] t[i].0, t[i + 1].0, 0) by {
        if i == 20 {
            reveal_strlit("function.call");
            reveal_strlit("function.macro");
            reveal_with_fuel(chars_before, 11);
            assert(t[20].0 == "function.call"@ && t[21].0 == "function.macro"@);
            assert(chars_before("function.call"@, "function.macro"@, 0));
        } else if i == 21 {
            reveal_strlit("function.macro");
            reveal_strlit("function.method");
            reveal_with_fuel(chars_before, 12);
            assert(t[21].0 == "function.macro"@ && t[22].0 == "function.method"@);
            assert(chars_before("function.macro"@, "function.method"@, 0));
        } else if i == 22 {
            reveal_strlit("function.method");
            reveal_strlit("function.method.call");
            reveal_with_fuel(chars_before, 17);
            assert(t[22].0 == "function.method"@ && t[23].0 == "function.method.call"@);
            assert(chars_before("function.method"@, "function.method.call"@, 0));
        } else if i == 23 {
            reveal_strlit("function.method.call");
            reveal_strlit("keyword");
            reveal_with_fuel(chars_before, 2);
            assert(t[23].0 == "function.method.call"@ && t[24].0 == "keyword"@);
            assert(chars_before("function.method.call"@, "keyword"@, 0));
        } else if i == 24 {
            reveal_strlit("keyword");
            reveal_strlit("keyword.conditional");
            reveal_with_fuel(chars_before, 9);
            assert(t[24].0 == "keyword"@ && t[25].0 == "keyword.conditional"@);
            assert(chars_before("keyword"@, "keyword.conditional"@, 0));
        } else if i == 25 {
            reveal_strlit("keyword.conditional");
            reveal_strlit("keyword.conditional.ternary");
            reveal_with_fuel(chars_before, 21);
            assert(t[25].0 == "keyword.conditional"@ && t[26].0 == "keyword.conditional.ternary"@);
            assert(chars_before("keyword.conditional"@, "keyword.conditional.ternary"@, 0));
        } else if i == 26 {
            reveal_strlit("keyword.conditional.ternary");
            reveal_strlit("keyword.coroutine");
            reveal_with_fuel(chars_before, 12);
            assert(t[26].0 == "keyword.conditional.ternary"@ && t[27].0 == "keyword.coroutine"@);
            assert(chars_before("keyword.conditional.ternary"@, "keyword.coroutine"@, 0));
        } else if i == 27 {
            reveal_strlit("keyword.coroutine");
            reveal_strlit("keyword.debug");
            reveal_with_fuel(chars_before, 10);
            assert(t[27].0 == "keyword.coroutine"@ && t[28].0 == "keyword.debug"@);
            assert(chars_before("keyword.coroutine"@, "keyword.debug"@, 0));
        } else if i == 28 {
            reveal_strlit("keyword.debug");
            reveal_strlit("keyword.directive");
            reveal_with_fuel(chars_before, 11);
            assert(t[28].0 == "keyword.debug"@ && t[29].0 == "keyword.directive"@);
            assert(chars_before("keyword.debug"@, "keyword.directive"@, 0));
        } else if i == 29 {
            reveal_strlit("keyword.directive");
            reveal_strlit("keyword.directive.define");
            reveal_with_fuel(chars_before, 19);
            assert(t[29].0 == "keyword.directive"@ && t[30].0 == "keyword.directive.define"@);
            assert(chars_before("keyword.directive"@, "keyword.directive.define"@, 0));
        }
    }
}

#[verifier::rlimit(60)]
proof fn lemma_default_names_ascending_3()
    ensures
        forall|i: int| 30 <= i < 40 ==> chars_before(#[trigger] default_table()[i].0, default_table()[i + 1].0, 0),
{
    let t = default_table();
    assert forall|i: int| 30 <= i < 40 implies chars_before(#[trigger] t[i].0, t[i + 1].0, 0) by {
        if i == 30 {
            reveal_strlit("keyword.directive.define");
            reveal_strlit("keyword.exception");
            reveal_with_fuel(chars_before, 10);
            assert(t[30].0 == "keyword.directive.define"@ && t[31].0 == "keyword.exception"@);
            assert(chars_before("keyword.directive.define"@, "keyword.exception"@, 0));
        } else if i == 31 {
            reveal_strlit("keyword.exception");
            reveal_strlit("keyword.function");
            reveal_with_fuel(chars_before, 10);
            assert(t[31].0 == "keyword.exception"@ && t[32].0 == "keyword.function"@);
            assert(chars_before("keyword.exception"@, "keyword.function"@, 0));
        } else if i == 32 {
            reveal_strlit("keyword.function");
            reveal_strlit("keyword.import");
            reveal_with_fuel(chars_before, 10);
            assert(t[32].0 == "keyword.function"@ && t[33].0 == "keyword.import"@);
            assert(chars_before("keyword.function"@, "keyword.import"@, 0));
        } else if i == 33 {
            reveal_strlit("keyword.import");
            reveal_strlit("keyword.modifier");
            reveal_with_fuel(chars_before, 10);
            assert(t[33].0 == "keyword.import"@ && t[34].0 == "keyword.modifier"@);
            assert(chars_before("keyword.import"@, "keyword.modifier"@, 0));
        } else if i == 34 {
            reveal_strlit("keyword.modifier");
            reveal_strlit("keyword.operator");
            reveal_with_fuel(chars_before, 10);
            assert(t[34].0 == "keyword.modifier"@ && t[35].0 == "keyword.operator"@);
            assert(chars_before("keyword.modifier"@, "keyword.operator"@, 0));
        } else if i == 35 {
            reveal_strlit("keyword.operator");
            reveal_strlit("keyword.repeat");
            reveal_with_fuel(chars_before, 10);
            assert(t[35].0 == "keyword.operator"@ && t[36].0 == "keyword.repeat"@);
            assert(chars_before("keyword.operator"@, "keyword.repeat"@, 0));
        } else if i == 36 {
            reveal_strlit("keyword.repeat");
            reveal_strlit("keyword.return");
            reveal_with_fuel(chars_before, 12);
            assert(t[36].0 == "keyword.repeat"@ && t[37].0 == "keyword.return"@);
            assert(chars_before("keyword.repeat"@, "keyword.return"@, 0));
        } else if i == 37 {
            reveal_strlit("keyword.return");
            reveal_strlit("keyword.type");
            reveal_with_fuel(chars_before, 10);
            assert(t[37].0 == "keyword.return"@ && t[38].0 == "keyword.type"@);
            assert(chars_before("keyword.return"@, "keyword.type"@, 0));
        } else if i == 38 {
            reveal_strlit("keyword.type");
            reveal_strlit("label");
            reveal_with_fuel(chars_before, 2);
            assert(t[38].0 == "keyword.type"@ && t[39].0 == "label"@);
            assert(chars_before("keyword.type"@, "label"@, 0));
        } else if i == 39 {
            reveal_strlit("label");
            reveal_strlit("markup");
            reveal_with_fuel(chars_before, 2);
            assert(t[39].0 == "label"@ && t[40].0 == "markup"@);
            assert(chars_before("label"@, "markup"@, 0));
        }
    }
}

#[verifier::rlimit(60)]
proof fn lemma_default_names_ascending_4()
    ensures
        forall|i: int| 40 <= i < 50 ==> chars_before(#[trigger] default_table()[i].0, default_table()[i + 1].0, 0),
{
    let t = default_table();
    assert forall|i: int| 40 <= i < 50 implies chars_before(#[trigger] t[i].0, t[i + 1].0, 0) by {
        if i == 40 {
            reveal_strlit("markup");
            reveal_strlit("markup.heading");
            reveal_with_fuel(chars_before, 8);
            assert(t[40].0 == "markup"@ && t[41].0 == "markup.heading"@);
            assert(chars_before("markup"@, "markup.heading"@, 0));
        } else if i == 41 {
            reveal_strlit("markup.heading");
            reveal_strlit("markup.heading.1");
            reveal_with_fuel(chars_before, 16);
            assert(t[41].0 == "markup.heading"@ && t[42].0 == "markup.heading.1"@);
            assert(chars_before("markup.heading"@, "markup.heading.1"@, 0));
        } else if i == 42 {
            reveal_strlit("markup.heading.1");
            reveal_strlit("markup.heading.2");
            reveal_with_fuel(chars_before, 17);
            assert(t[42].0 == "markup.heading.1"@ && t[43].0 == "markup.heading.2"@);
            assert(chars_before("markup.heading.1"@, "markup.heading.2"@, 0));
        } else if i == 43 {
            reveal_strlit("markup.heading.2");
            reveal_strlit("markup.heading.3");
            reveal_with_fuel(chars_before, 17);
            assert(t[43].0 == "markup.heading.2"@ && t[44].0 == "markup.heading.3"@);
            assert(chars_before("markup.heading.2"@, "markup.heading.3"@, 0));
        } else if i == 44 {
            reveal_strlit("markup.heading.3");
            reveal_strlit("markup.heading.4");
            reveal_with_fuel(chars_before, 17);
            assert(t[44].0 == "markup.heading.3"@ && t[45].0 == "markup.heading.4"@);
            assert(chars_before("markup.heading.3"@, "markup.heading.4"@, 0));
        } else if i == 45 {
            reveal_strlit("markup.heading.4");
            reveal_strlit("markup.heading.5");
            reveal_with_fuel(chars_before, 17);
            assert(t[45].0 == "markup.heading.4"@ && t[46].0 == "markup.heading.5"@);
            assert(chars_before("markup.heading.4"@, "markup.heading.5"@, 0));
        } else if i == 46 {
            reveal_strlit("markup.heading.5");
            reveal_strlit("markup.heading.6");
            reveal_with_fuel(chars_before, 17);
            assert(t[46].0 == "markup.heading.5"@ && t[47].0 == "markup.heading.6"@);
            assert(chars_before("markup.heading.5"@, "markup.heading.6"@, 0));
        } else if i == 47 {
            reveal_strlit("markup.heading.6");
            reveal_strlit("markup.italic");
            reveal_with_fuel(chars_before, 9);
            assert(t[47].0 == "markup.heading.6"@ && t[48].0 == "markup.italic"@);
            assert(chars_before("markup.heading.6"@, "markup.italic"@, 0));
        } else if i == 48 {
            reveal_strlit("markup.italic");
            reveal_strlit("markup.link");
            reveal_with_fuel(chars_before, 9);
            assert(t[48].0 == "markup.italic"@ && t[49].0 == "markup.link"@);
            assert(chars_before("markup.italic"@, "markup.link"@, 0));
        } else if i == 49 {
            reveal_strlit("markup.link");
            reveal_strlit("markup.link.label");
            reveal_with_fuel(chars_before, 13);
            assert(t[49].0 == "markup.link"@ && t[50].0 == "markup.link.label"@);
            assert(chars_before("markup.link"@, "markup.link.label"@, 0));
        }
    }
}

#[verifier::rlimit(60)]
proof fn lemma_default_names_ascending_5()
    ensures
        forall|i: int| 50 <= i < 60 ==> chars_before(#[trigger] default_table()[i].0, default_table()[i + 1].0, 0),
{
    let t = default_table();
    assert forall|i: int| 50 <= i < 60 implies chars_before(#[trigger] t[i].0, t[i + 1].0, 0) by {
        if i == 50 {
            reveal_strlit("markup.link.label");
            reveal_strlit("markup.link.url");
            reveal_with_fuel(chars_before, 14);
            assert(t[50].0 == "markup.link.label"@ && t[51].0 == "markup.link.url"@);
            assert(chars_before("markup.link.label"@, "markup.link.url"@, 0));
        } else if i == 51 {
            reveal_strlit("markup.link.url");
            reveal_strlit("markup.list");
            reveal_with_fuel(chars_before, 11);
            assert(t[51].0 == "markup.link.url"@ && t[52].0 == "markup.list"@);
            assert(chars_before("markup.link.url"@, "markup.list"@, 0));
        } else if i == 52 {
            reveal_strlit("markup.list");
            reveal_strlit("markup.list.checked");
            reveal_with_fuel(chars_before, 13);
            assert(t[52].0 == "markup.list"@ && t[53].0 == "markup.list.checked"@);
            assert(chars_before("markup.list"@, "markup.list.checked"@, 0));
        } else if i == 53 {
            reveal_strlit("markup.list.checked");
            reveal_strlit("markup.list.unchecked");
            reveal_with_fuel(chars_before, 14);
            assert(t[53].0 == "markup.list.checked"@ && t[54].0 == "markup.list.unchecked"@);
            assert(chars_before("markup.list.checked"@, "markup.list.unchecked"@, 0));
        } else if i == 54 {
            reveal_strlit("markup.list.unchecked");
            reveal_strlit("markup.math");
            reveal_with_fuel(chars_before, 9);
            assert(t[54].0 == "markup.list.unchecked"@ && t[55].0 == "markup.math"@);
            assert(chars_before("markup.list.unchecked"@, "markup.math"@, 0));
        } else if i == 55 {
            reveal_strlit("markup.math");
            reveal_strlit("markup.quote");
            reveal_with_fuel(chars_before, 9);
            assert(t[55].0 == "markup.math"@ && t[56].0 == "markup.quote"@);
            assert(chars_before("markup.math"@, "markup.quote"@, 0));
        } else if i == 56 {
            reveal_strlit("markup.quote");
            reveal_strlit("markup.raw");
            reveal_with_fuel(chars_before, 9);
            assert(t[56].0 == "markup.quote"@ && t[57].0 == "markup.raw"@);
            assert(chars_before("markup.quote"@, "markup.raw"@, 0));
        } else if i == 57 {
            reveal_strlit("markup.raw");
            reveal_strlit("markup.raw.block");
            reveal_with_fuel(chars_before, 12);
            assert(t[57].0 == "markup.raw"@ && t[58].0 == "markup.raw.block"@);
            assert(chars_before("markup.raw"@, "markup.raw.block"@, 0));
        } else if i == 58 {
            reveal_strlit("markup.raw.block");
            reveal_strlit("markup.strikethrough");
            reveal_with_fuel(chars_before, 9);
            assert(t[58].0 == "markup.raw.block"@ && t[59].0 == "markup.strikethrough"@);
            assert(chars_before("markup.raw.block"@, "markup.strikethrough"@, 0));
        } else if i == 59 {
            reveal_strlit("markup.strikethrough");
            reveal_strlit("markup.strong");
            reveal_with_fuel(chars_before, 12);
            assert(t[59].0 == "markup.strikethrough"@ && t[60].0 == "markup.strong"@);
            assert(chars_before("markup.strikethrough"@, "markup.strong"@, 0));
        }
    }
}

#[verifier::rlimit(60)]
proof fn lemma_default_names_ascending_6()
    ensures
        forall|i: int| 60 <= i < 70 ==> chars_before(#[trigger] default_table()[i].0, default_table()[i + 1].0, 0),
{
    let t = default_table();
    assert forall|i: int| 60 <= i < 70 implies chars_before(#[trigger] t[i].0, t[i + 1].0, 0) by {
        if i == 60 {
            reveal_strlit("markup.strong");
            reveal_strlit("markup.underline");
            reveal_with_fuel(chars_before, 9);
            assert(t[60].0 == "markup.strong"@ && t[61].0 == "markup.underline"@);
            assert(chars_before("markup.strong"@, "markup.underline"@, 0));
        } else if i == 61 {
            reveal_strlit("markup.underline");
            reveal_strlit("module");
            reveal_with_fuel(chars_before, 3);
            assert(t[61].0 == "markup.underline"@ && t[62].0 == "module"@);
            assert(chars_before("markup.underline"@, "module"@, 0));
        } else if i == 62 {
            reveal_strlit("module");
            reveal_strlit("module.builtin");
            reveal_with_fuel(chars_before, 8);
            assert(t[62].0 == "module"@ && t[63].0 == "module.builtin"@);
            assert(chars_before("module"@, "module.builtin"@, 0));
        } else if i == 63 {
            reveal_strlit("module.builtin");
            reveal_strlit("number");
            reveal_with_fuel(chars_before, 2);
            assert(t[63].0 == "module.builtin"@ && t[64].0 == "number"@);
            assert(chars_before("module.builtin"@, "number"@, 0));
        } else if i == 64 {
            reveal_strlit("number");
            reveal_strlit("number.float");
            reveal_with_fuel(chars_before, 8);
            assert(t[64].0 == "number"@ && t[65].0 == "number.float"@);
            assert(chars_before("number"@, "number.float"@, 0));
        } else if i == 65 {
            reveal_strlit("number.float");
            reveal_strlit("operator");
            reveal_with_fuel(chars_before, 2);
            assert(t[65].0 == "number.float"@ && t[66].0 == "operator"@);
            assert(chars_before("number.float"@, "operator"@, 0));
        } else if i == 66 {
            reveal_strlit("operator");
            reveal_strlit("property");
            reveal_with_fuel(chars_before, 2);
            assert(t[66].0 == "operator"@ && t[67].0 == "property"@);
            assert(chars_before("operator"@, "property"@, 0));
        } else if i == 67 {
            reveal_strlit("property");
            reveal_strlit("punctuation.bracket");
            reveal_with_fuel(chars_before, 3);
            assert(t[67].0 == "property"@ && t[68].0 == "punctuation.bracket"@);
            assert(chars_before("property"@, "punctuation.bracket"@, 0));
        } else if i == 68 {
            reveal_strlit("punctuation.bracket");
            reveal_strlit("punctuation.delimiter");
            reveal_with_fuel(chars_before, 14);
            assert(t[68].0 == "punctuation.bracket"@ && t[69].0 == "punctuation.delimiter"@);
            assert(chars_before("punctuation.bracket"@, "punctuation.delimiter"@, 0));
        } else if i == 69 {
            reveal_strlit("punctuation.delimiter");
            reveal_strlit("punctuation.special");
            reveal_with_fuel(chars_before, 14);
            assert(t[69].0 == "punctuation.delimiter"@ && t[70].0 == "punctuation.special"@);
            assert(chars_before("punctuation.delimiter"@, "punctuation.special"@, 0));
        }
    }
}

#[verifier::rlimit(60)]
proof fn lemma_default_names_ascending_7()
    ensures
        forall|i: int| 70 <= i < 80 ==> chars_before(#[trigger] default_table()[i].0, default_table()[i + 1].0, 0),
{
    let t = default_table();
    assert forall|i: int| 70 <= i < 80 implies chars_before(#[trigger] t[i].0, t[i + 1].0, 0) by {
        if i == 70 {
            reveal_strlit("punctuation.special");
            reveal_strlit("string");
            reveal_with_fuel(chars_before, 2);
            assert(t[70].0 == "punctuation.special"@ && t[71].0 == "string"@);
            assert(chars_before("punctuation.special"@, "string"@, 0));
        } else if i == 71 {
            reveal_strlit("string");
            reveal_strlit("string.documentation");
            reveal_with_fuel(chars_before, 8);
            assert(t[71].0 == "string"@ && t[72].0 == "string.documentation"@);
            assert(chars_before("string"@, "string.documentation"@, 0));
        } else if i == 72 {
            reveal_strlit("string.documentation");
            reveal_strlit("string.escape");
            reveal_with_fuel(chars_before, 9);
            assert(t[72].0 == "string.documentation"@ && t[73].0 == "string.escape"@);
            assert(chars_before("string.documentation"@, "string.escape"@, 0));
        } else if i == 73 {
            reveal_strlit("string.escape");
            reveal_strlit("string.regexp");
            reveal_with_fuel(chars_before, 9);
            assert(t[73].0 == "string.escape"@ && t[74].0 == "string.regexp"@);
            assert(chars_before("string.escape"@, "string.regexp"@, 0));
        } else if i == 74 {
            reveal_strlit("string.regexp");
            reveal_strlit("string.special");
            reveal_with_fuel(chars_before, 9);
            assert(t[74].0 == "string.regexp"@ && t[75].0 == "string.special"@);
            assert(chars_before("string.regexp"@, "string.special"@, 0));
        } else if i == 75 {
            reveal_strlit("string.special");
            reveal_strlit("string.special.path");
            reveal_with_fuel(chars_before, 16);
            assert(t[75].0 == "string.special"@ && t[76].0 == "string.special.path"@);
            assert(chars_before("string.special"@, "string.special.path"@, 0));
        } else if i == 76 {
            reveal_strlit("string.special.path");
            reveal_strlit("string.special.symbol");
            reveal_with_fuel(chars_before, 17);
            assert(t[76].0 == "string.special.path"@ && t[77].0 == "string.special.symbol"@);
            assert(chars_before("string.special.path"@, "string.special.symbol"@, 0));
        } else if i == 77 {
            reveal_strlit("string.special.symbol");
            reveal_strlit("string.special.url");
            reveal_with_fuel(chars_before, 17);
            assert(t[77].0 == "string.special.symbol"@ && t[78].0 == "string.special.url"@);
            assert(chars_before("string.special.symbol"@, "string.special.url"@, 0));
        } else if i == 78 {
            reveal_strlit("string.special.url");
            reveal_strlit("tag");
            reveal_with_fuel(chars_before, 2);
            assert(t[78].0 == "string.special.url"@ && t[79].0 == "tag"@);
            assert(chars_before("string.special.url"@, "tag"@, 0));
        } else if i == 79 {
            reveal_strlit("tag");
            reveal_strlit("tag.attribute");
            reveal_with_fuel(chars_before, 5);
            assert(t[79].0 == "tag"@ && t[80].0 == "tag.attribute"@);
            assert(chars_before("tag"@, "tag.attribute"@, 0));
        }
    }
}

#[verifier::rlimit(60)]
proof fn lemma_default_names_ascending_8()
    ensures
        forall|i: int| 80 <= i < 90 ==> chars_before(#[trigger] default_table()[i].0, default_table()[i + 1].0, 0),
{
    let t = default_table();
    assert forall|i: int| 80 <= i < 90 implies chars_before(#[trigger] t[i].0, t[i + 1].0, 0) by {
        if i == 80 {
            reveal_strlit("tag.attribute");
            reveal_strlit("tag.builtin");
            reveal_with_fuel(chars_before, 6);
            assert(t[80].0 == "tag.attribute"@ && t[81].0 == "tag.builtin"@);
            assert(chars_before("tag.attribute"@, "tag.builtin"@, 0));
        } else if i == 81 {
            reveal_strlit("tag.builtin");
            reveal_strlit("tag.delimiter");
            reveal_with_fuel(chars_before, 6);
            assert(t[81].0 == "tag.builtin"@ && t[82].0 == "tag.delimiter"@);
            assert(chars_before("tag.builtin"@, "tag.delimiter"@, 0));
        } else if i == 82 {
            reveal_strlit("tag.delimiter");
            reveal_strlit("type");
            reveal_with_fuel(chars_before, 3);
            assert(t[82].0 == "tag.delimiter"@ && t[83].0 == "type"@);
            assert(chars_before("tag.delimiter"@, "type"@, 0));
        } else if i == 83 {
            reveal_strlit("type");
            reveal_strlit("type.builtin");
            reveal_with_fuel(chars_before, 6);
            assert(t[83].0 == "type"@ && t[84].0 == "type.builtin"@);
            assert(chars_before("type"@, "type.builtin"@, 0));
        } else if i == 84 {
            reveal_strlit("type.builtin");
            reveal_strlit("type.definition");
            reveal_with_fuel(chars_before, 7);
            assert(t[84].0 == "type.builtin"@ && t[85].0 == "type.definition"@);
            assert(chars_before("type.builtin"@, "type.definition"@, 0));
        } else if i == 85 {
            reveal_strlit("type.definition");
            reveal_strlit("variable");
            reveal_with_fuel(chars_before, 2);
            assert(t[85].0 == "type.definition"@ && t[86].0 == "variable"@);
            assert(chars_before("type.definition"@, "variable"@, 0));
        } else if i == 86 {
            reveal_strlit("variable");
            reveal_strlit("variable.builtin");
            reveal_with_fuel(chars_before, 10);
            assert(t[86].0 == "variable"@ && t[87].0 == "variable.builtin"@);
            assert(chars_before("variable"@, "variable.builtin"@, 0));
        } else if i == 87 {
            reveal_strlit("variable.builtin");
            reveal_strlit("variable.member");
            reveal_with_fuel(chars_before, 11);
            assert(t[87].0 == "variable.builtin"@ && t[88].0 == "variable.member"@);
            assert(chars_before("variable.builtin"@, "variable.member"@, 0));
        } else if i == 88 {
            reveal_strlit("variable.member");
            reveal_strlit("variable.parameter");
            reveal_with_fuel(chars_before, 11);
            assert(t[88].0 == "variable.member"@ && t[89].0 == "variable.parameter"@);
            assert(chars_before("variable.member"@, "variable.parameter"@, 0));
        } else if i == 89 {
            reveal_strlit("variable.parameter");
            reveal_strlit("variable.parameter.builtin");
            reveal_with_fuel(chars_before, 20);
            assert(t[89].0 == "variable.parameter"@ && t[90].0 == "variable.parameter.builtin"@);
            assert(chars_before("variable.parameter"@, "variable.parameter.builtin"@, 0));
        }
    }
}

/// The highlights that the default table gives the capture names it holds; every other name has
/// palette index 5 and no decoration.
pub open spec fn gives_default_highlights(get: spec_fn(Seq<char>) -> Highlight) -> bool {
    &&& get("attribute"@) == plain(0x0f)
    &&& get("attribute.builtin"@) == plain(0x0f)
    &&& get("boolean"@) == plain(0x09)
    &&& get("character"@) == plain(0x0b)
    &&& get("character.special"@) == plain(0x0c)
    &&& get("comment"@) == plain(0x03)
    &&& get("comment.documentation"@) == Highlight { italic: true, ..plain(0x03) }
    &&& get("comment.error"@) == plain(0x08)
    &&& get("comment.note"@) == plain(0x0c)
    &&& get("comment.todo"@) == plain(0x0f)
    &&& get("comment.warning"@) == plain(0x09)
    &&& get("constant"@) == plain(0x09)
    &&& get("constant.builtin"@) == Highlight { bold: true, ..plain(0x09) }
    &&& get("constant.macro"@) == Highlight { bold: true, ..plain(0x09) }
    &&& get("constructor"@) == plain(0x0a)
    &&& get("diff.delta"@) == plain(0x0a)
    &&& get("diff.minus"@) == plain(0x08)
    &&& get("diff.plus"@) == plain(0x0b)
    &&& get("function"@) == plain(0x0d)
    &&& get("function.builtin"@) == plain(0x0d)
    &&& get("function.call"@) == plain(0x0d)
    &&& get("function.macro"@) == plain(0x0d)
    &&& get("function.method"@) == plain(0x0d)
    &&& get("function.method.call"@) == plain(0x0d)
    &&& get("keyword"@) == plain(0x0e)
    &&& get("keyword.conditional"@) == plain(0x0e)
    &&& get("keyword.conditional.ternary"@) == plain(0x0e)
    &&& get("keyword.coroutine"@) == plain(0x0e)
    &&& get("keyword.debug"@) == plain(0x0e)
    &&& get("keyword.directive"@) == plain(0x0e)
    &&& get("keyword.directive.define"@) == plain(0x0e)
    &&& get("keyword.exception"@) == plain(0x08)
    &&& get("keyword.function"@) == plain(0x0e)
    &&& get("keyword.import"@) == plain(0x0e)
    &&& get("keyword.modifier"@) == plain(0x0e)
    &&& get("keyword.operator"@) == plain(0x0e)
    &&& get("keyword.repeat"@) == plain(0x0e)
    &&& get("keyword.return"@) == plain(0x0e)
    &&& get("keyword.type"@) == plain(0x0e)
    &&& get("label"@) == plain(0x0e)
    &&& get("markup"@) == plain(0x0f)
    &&& get("markup.heading"@) == plain(0x0f)
    &&& get("markup.heading.1"@) == plain(0x0f)
    &&& get("markup.heading.2"@) == plain(0x0f)
    &&& get("markup.heading.3"@) == plain(0x0f)
    &&& get("markup.heading.4"@) == plain(0x0f)
    &&& get("markup.heading.5"@) == plain(0x0f)
    &&& get("markup.heading.6"@) == plain(0x0f)
    &&& get("markup.italic"@) == Highlight { italic: true, ..plain(0x0f) }
    &&& get("markup.link"@) == Highlight { underline: true, ..plain(0x0f) }
    &&& get("markup.link.label"@) == Highlight { underline: true, ..plain(0x0f) }
    &&& get("markup.link.url"@) == Highlight { underline: true, ..plain(0x0d) }
    &&& get("markup.list"@) == plain(0x0f)
    &&& get("markup.list.checked"@) == plain(0x0b)
    &&& get("markup.list.unchecked"@) == plain(0x0b)
    &&& get("markup.math"@) == plain(0x0c)
    &&& get("markup.quote"@) == plain(0x0f)
    &&& get("markup.raw"@) == plain(0x0f)
    &&& get("markup.raw.block"@) == plain(0x0f)
    &&& get("markup.strikethrough"@) == Highlight { strikethrough: true, ..plain(0x0f) }
    &&& get("markup.strong"@) == Highlight { bold: true, ..plain(0x0f) }
    &&& get("markup.underline"@) == Highlight { underline: true, ..plain(0x0f) }
    &&& get("module"@) == plain(0x0a)
    &&& get("module.builtin"@) == plain(0x0a)
    &&& get("number"@) == plain(0x09)
    &&& get("number.float"@) == plain(0x09)
    &&& get("operator"@) == plain(0x05)
    &&& get("property"@) == plain(0x05)
    &&& get("punctuation.bracket"@) == plain(0x05)
    &&& get("punctuation.delimiter"@) == plain(0x05)
    &&& get("punctuation.special"@) == plain(0x0c)
    &&& get("string"@) == plain(0x0b)
    &&& get("string.documentation"@) == plain(0x0b)
    &&& get("string.escape"@) == plain(0x0c)
    &&& get("string.regexp"@) == plain(0x0c)
    &&& get("string.special"@) == plain(0x0c)
    &&& get("string.special.path"@) == plain(0x0c)
    &&& get("string.special.symbol"@) == plain(0x0c)
    &&& get("string.special.url"@) == Highlight { underline: true, ..plain(0x0d) }
    &&& get("tag"@) == plain(0x0a)
    &&& get("tag.attribute"@) == plain(0x05)
    &&& get("tag.builtin"@) == plain(0x0c)
    &&& get("tag.delimiter"@) == plain(0x05)
    &&& get("type"@) == plain(0x0a)
    &&& get("type.builtin"@) == plain(0x0a)
    &&& get("type.definition"@) == plain(0x0a)
    &&& get("variable"@) == plain(0x05)
    &&& get("variable.builtin"@) == plain(0x05)
    &&& get("variable.member"@) == plain(0x05)
    &&& get("variable.parameter"@) == plain(0x05)
    &&& get("variable.parameter.builtin"@) == plain(0x05)
}

/// The highlights of the plain table: those of the default table, but for documentation
/// comments and built-in and macro constants, which have no emphasis.
pub open spec fn gives_plain_highlights(get: spec_fn(Seq<char>) -> Highlight) -> bool {
    &&& get("attribute"@) == plain(0x0f)
    &&& get("attribute.builtin"@) == plain(0x0f)
    &&& get("boolean"@) == plain(0x09)
    &&& get("character"@) == plain(0x0b)
    &&& get("character.special"@) == plain(0x0c)
    &&& get("comment"@) == plain(0x03)
    &&& get("comment.documentation"@) == plain(0x03)
    &&& get("comment.error"@) == plain(0x08)
    &&& get("comment.note"@) == plain(0x0c)
    &&& get("comment.todo"@) == plain(0x0f)
    &&& get("comment.warning"@) == plain(0x09)
    &&& get("constant"@) == plain(0x09)
    &&& get("constant.builtin"@) == plain(0x09)
    &&& get("constant.macro"@) == plain(0x09)
    &&& get("constructor"@) == plain(0x0a)
    &&& get("diff.delta"@) == plain(0x0a)
    &&& get("diff.minus"@) == plain(0x08)
    &&& get("diff.plus"@) == plain(0x0b)
    &&& get("function"@) == plain(0x0d)
    &&& get("function.builtin"@) == plain(0x0d)
    &&& get("function.call"@) == plain(0x0d)
    &&& get("function.macro"@) == plain(0x0d)
    &&& get("function.method"@) == plain(0x0d)
    &&& get("function.method.call"@) == plain(0x0d)
    &&& get("keyword"@) == plain(0x0e)
    &&& get("keyword.conditional"@) == plain(0x0e)
    &&& get("keyword.conditional.ternary"@) == plain(0x0e)
    &&& get("keyword.coroutine"@) == plain(0x0e)
    &&& get("keyword.debug"@) == plain(0x0e)
    &&& get("keyword.directive"@) == plain(0x0e)
    &&& get("keyword.directive.define"@) == plain(0x0e)
    &&& get("keyword.exception"@) == plain(0x08)
    &&& get("keyword.function"@) == plain(0x0e)
    &&& get("keyword.import"@) == plain(0x0e)
    &&& get("keyword.modifier"@) == plain(0x0e)
    &&& get("keyword.operator"@) == plain(0x0e)
    &&& get("keyword.repeat"@) == plain(0x0e)
    &&& get("keyword.return"@) == plain(0x0e)
    &&& get("keyword.type"@) == plain(0x0e)
    &&& get("label"@) == plain(0x0e)
    &&& get("markup"@) == plain(0x0f)
    &&& get("markup.heading"@) == plain(0x0f)
    &&& get("markup.heading.1"@) == plain(0x0f)
    &&& get("markup.heading.2"@) == plain(0x0f)
    &&& get("markup.heading.3"@) == plain(0x0f)
    &&& get("markup.heading.4"@) == plain(0x0f)
    &&& get("markup.heading.5"@) == plain(0x0f)
    &&& get("markup.heading.6"@) == plain(0x0f)
    &&& get("markup.italic"@) == Highlight { italic: true, ..plain(0x0f) }
    &&& get("markup.link"@) == Highlight { underline: true, ..plain(0x0f) }
    &&& get("markup.link.label"@) == Highlight { underline: true, ..plain(0x0f) }
    &&& get("markup.link.url"@) == Highlight { underline: true, ..plain(0x0d) }
    &&& get("markup.list"@) == plain(0x0f)
    &&& get("markup.list.checked"@) == plain(0x0b)
    &&& get("markup.list.unchecked"@) == plain(0x0b)
    &&& get("markup.math"@) == plain(0x0c)
    &&& get("markup.quote"@) == plain(0x0f)
    &&& get("markup.raw"@) == plain(0x0f)
    &&& get("markup.raw.block"@) == plain(0x0f)
    &&& get("markup.strikethrough"@) == Highlight { strikethrough: true, ..plain(0x0f) }
    &&& get("markup.strong"@) == Highlight { bold: true, ..plain(0x0f) }
    &&& get("markup.underline"@) == Highlight { underline: true, ..plain(0x0f) }
    &&& get("module"@) == plain(0x0a)
    &&& get("module.builtin"@) == plain(0x0a)
    &&& get("number"@) == plain(0x09)
    &&& get("number.float"@) == plain(0x09)
    &&& get("operator"@) == plain(0x05)
    &&& get("property"@) == plain(0x05)
    &&& get("punctuation.bracket"@) == plain(0x05)
    &&& get("punctuation.delimiter"@) == plain(0x05)
    &&& get("punctuation.special"@) == plain(0x0c)
    &&& get("string"@) == plain(0x0b)
    &&& get("string.documentation"@) == plain(0x0b)
    &&& get("string.escape"@) == plain(0x0c)
    &&& get("string.regexp"@) == plain(0x0c)
    &&& get("string.special"@) == plain(0x0c)
    &&& get("string.special.path"@) == plain(0x0c)
    &&& get("string.special.symbol"@) == plain(0x0c)
    &&& get("string.special.url"@) == Highlight { underline: true, ..plain(0x0d) }
    &&& get("tag"@) == plain(0x0a)
    &&& get("tag.attribute"@) == plain(0x05)
    &&& get("tag.builtin"@) == plain(0x0c)
    &&& get("tag.delimiter"@) == plain(0x05)
    &&& get("type"@) == plain(0x0a)
    &&& get("type.builtin"@) == plain(0x0a)
    &&& get("type.definition"@) == plain(0x0a)
    &&& get("variable"@) == plain(0x05)
    &&& get("variable.builtin"@) == plain(0x05)
    &&& get("variable.member"@) == plain(0x05)
    &&& get("variable.parameter"@) == plain(0x05)
    &&& get("variable.parameter.builtin"@) == plain(0x05)
}

/// The default table holds each capture name once, in character order.
proof fn lemma_default_table_distinct()
    ensures
        forall|i: int, j: int|
            0 <= i < default_table().len() && 0 <= j < default_table().len() && i != j ==> (#[trigger] default_table()[i]).0
                != (#[trigger] default_table()[j]).0,
{

    lemma_default_names_ascending_0();
    lemma_default_names_ascending_1();
    lemma_default_names_ascending_2();
    lemma_default_names_ascending_3();
    lemma_default_names_ascending_4();
    lemma_default_names_ascending_5();
    lemma_default_names_ascending_6();
    lemma_default_names_ascending_7();
    lemma_default_names_ascending_8();
    let t = default_table();
    assert(t.len() == 91);
    assert(names_ascending(t));
    lemma_ascending_distinct(t);
}

proof fn lemma_default_entries_looked_up()
    ensures
        forall|i: int| 0 <= i < default_table().len() ==> entries_lookup(default_table(), (#[trigger] default_table()[i]).0, plain(0x05))
            == default_table()[i].1,
{
    let t = default_table();
    lemma_default_table_distinct();
    assert forall|i: int| 0 <= i < t.len() implies entries_lookup(t, (#[trigger] t[i]).0, plain(0x05)) == t[i].1 by {
        assert forall|j: int| i < j < t.len() implies (#[trigger] t[j]).0 != t[i].0 by {}
        lemma_lookup_entry(t, i, plain(0x05));
    }
}

/// The default table gives each capture name it holds the highlight listed for it.
#[verifier::rlimit(60)]
pub proof fn lemma_default_table_highlights()
    ensures
        gives_default_highlights(|k: Seq<char>| entries_lookup(default_table(), k, plain(0x05))),
{
    let t = default_table();
    lemma_default_entries_looked_up();
    assert(t[0].0 == "attribute"@);
    assert(t[1].0 == "attribute.builtin"@);
    assert(t[2].0 == "boolean"@);
    assert(t[3].0 == "character"@);
    assert(t[4].0 == "character.special"@);
    assert(t[5].0 == "comment"@);
    assert(t[6].0 == "comment.documentation"@);
    assert(t[7].0 == "comment.error"@);
    assert(t[8].0 == "comment.note"@);
    assert(t[9].0 == "comment.todo"@);
    assert(t[10].0 == "comment.warning"@);
    assert(t[11].0 == "constant"@);
    assert(t[12].0 == "constant.builtin"@);
    assert(t[13].0 == "constant.macro"@);
    assert(t[14].0 == "constructor"@);
    assert(t[15].0 == "diff.delta"@);
    assert(t[16].0 == "diff.minus"@);
    assert(t[17].0 == "diff.plus"@);
    assert(t[18].0 == "function"@);
    assert(t[19].0 == "function.builtin"@);
    assert(t[20].0 == "function.call"@);
    assert(t[21].0 == "function.macro"@);
    assert(t[22].0 == "function.method"@);
    assert(t[23].0 == "function.method.call"@);
    assert(t[24].0 == "keyword"@);
    assert(t[25].0 == "keyword.conditional"@);
    assert(t[26].0 == "keyword.conditional.ternary"@);
    assert(t[27].0 == "keyword.coroutine"@);
    assert(t[28].0 == "keyword.debug"@);
    assert(t[29].0 == "keyword.directive"@);
    assert(t[30].0 == "keyword.directive.define"@);
    assert(t[31].0 == "keyword.exception"@);
    assert(t[32].0 == "keyword.function"@);
    assert(t[33].0 == "keyword.import"@);
    assert(t[34].0 == "keyword.modifier"@);
    assert(t[35].0 == "keyword.operator"@);
    assert(t[36].0 == "keyword.repeat"@);
    assert(t[37].0 == "keyword.return"@);
    assert(t[38].0 == "keyword.type"@);
    assert(t[39].0 == "label"@);
    assert(t[40].0 == "markup"@);
    assert(t[41].0 == "markup.heading"@);
    assert(t[42].0 == "markup.heading.1"@);
    assert(t[43].0 == "markup.heading.2"@);
    assert(t[44].0 == "markup.heading.3"@);
    assert(t[45].0 == "markup.heading.4"@);
    assert(t[46].0 == "markup.heading.5"@);
    assert(t[47].0 == "markup.heading.6"@);
    assert(t[48].0 == "markup.italic"@);
    assert(t[49].0 == "markup.link"@);
    assert(t[50].0 == "markup.link.label"@);
    assert(t[51].0 == "markup.link.url"@);
    assert(t[52].0 == "markup.list"@);
    assert(t[53].0 == "markup.list.checked"@);
    assert(t[54].0 == "markup.list.unchecked"@);
    assert(t[55].0 == "markup.math"@);
    assert(t[56].0 == "markup.quote"@);
    assert(t[57].0 == "markup.raw"@);
    assert(t[58].0 == "markup.raw.block"@);
    assert(t[59].0 == "markup.strikethrough"@);
    assert(t[60].0 == "markup.strong"@);
    assert(t[61].0 == "markup.underline"@);
    assert(t[62].0 == "module"@);
    assert(t[63].0 == "module.builtin"@);
    assert(t[64].0 == "number"@);
    assert(t[65].0 == "number.float"@);
    assert(t[66].0 == "operator"@);
    assert(t[67].0 == "property"@);
    assert(t[68].0 == "punctuation.bracket"@);
    assert(t[69].0 == "punctuation.delimiter"@);
    assert(t[70].0 == "punctuation.special"@);
    assert(t[71].0 == "string"@);
    assert(t[72].0 == "string.documentation"@);
    assert(t[73].0 == "string.escape"@);
    assert(t[74].0 == "string.regexp"@);
    assert(t[75].0 == "string.special"@);
    assert(t[76].0 == "string.special.path"@);
    assert(t[77].0 == "string.special.symbol"@);
    assert(t[78].0 == "string.special.url"@);
    assert(t[79].0 == "tag"@);
    assert(t[80].0 == "tag.attribute"@);
    assert(t[81].0 == "tag.builtin"@);
    assert(t[82].0 == "tag.delimiter"@);
    assert(t[83].0 == "type"@);
    assert(t[84].0 == "type.builtin"@);
    assert(t[85].0 == "type.definition"@);
    assert(t[86].0 == "variable"@);
    assert(t[87].0 == "variable.builtin"@);
    assert(t[88].0 == "variable.member"@);
    assert(t[89].0 == "variable.parameter"@);
    assert(t[90].0 == "variable.parameter.builtin"@);
}

/// The plain table gives each capture name the highlight listed for it.
#[verifier::rlimit(60)]
pub proof fn lemma_plain_table_highlights()
    ensures
        gives_plain_highlights(|k: Seq<char>| entries_lookup(basic_table(), k, plain(0x05))),
{
    let t = default_table();
    let u = seq![
        ("comment.documentation"@, plain(0x03)),
        ("constant.builtin"@, plain(0x09)),
        ("constant.macro"@, plain(0x09)),
    ];
    assert(basic_table() == t + u);
    lemma_default_entries_looked_up();
    lemma_default_table_distinct();
    assert(u[0].0 == t[6].0 && u[1].0 == t[12].0 && u[2].0 == t[13].0);
    assert forall|i: int| 0 <= i < t.len() && i != 6 && i != 12 && i != 13 implies entries_lookup(basic_table(), (
    #[trigger] t[i]).0, plain(0x05)) == t[i].1 by {
        assert forall|j: int| 0 <= j < u.len() implies (#[trigger] u[j]).0 != t[i].0 by {
            assert(t[i].0 != t[6].0 && t[i].0 != t[12].0 && t[i].0 != t[13].0);
        }
        lemma_lookup_past_suffix(t, u, t[i].0, plain(0x05));
    }
    let tu = t + u;
    assert(tu.len() == 94);
    assert(tu[93] == u[2] && tu[92] == u[1] && tu[91] == u[0]);
    assert(t[6].0 != t[12].0 && t[6].0 != t[13].0 && t[12].0 != t[13].0);
    lemma_lookup_entry(tu, 93, plain(0x05));
    assert forall|j: int| 92 < j < tu.len() implies (#[trigger] tu[j]).0 != tu[92].0 by {}
    lemma_lookup_entry(tu, 92, plain(0x05));
    assert forall|j: int| 91 < j < tu.len() implies (#[trigger] tu[j]).0 != tu[91].0 by {}
    lemma_lookup_entry(tu, 91, plain(0x05));
    assert(t[0].0 == "attribute"@);
    assert(t[1].0 == "attribute.builtin"@);
    assert(t[2].0 == "boolean"@);
    assert(t[3].0 == "character"@);
    assert(t[4].0 == "character.special"@);
    assert(t[5].0 == "comment"@);
    assert(t[6].0 == "comment.documentation"@);
    assert(t[7].0 == "comment.error"@);
    assert(t[8].0 == "comment.note"@);
    assert(t[9].0 == "comment.todo"@);
    assert(t[10].0 == "comment.warning"@);
    assert(t[11].0 == "constant"@);
    assert(t[12].0 == "constant.builtin"@);
    assert(t[13].0 == "constant.macro"@);
    assert(t[14].0 == "constructor"@);
    assert(t[15].0 == "diff.delta"@);
    assert(t[16].0 == "diff.minus"@);
    assert(t[17].0 == "diff.plus"@);
    assert(t[18].0 == "function"@);
    assert(t[19].0 == "function.builtin"@);
    assert(t[20].0 == "function.call"@);
    assert(t[21].0 == "function.macro"@);
    assert(t[22].0 == "function.method"@);
    assert(t[23].0 == "function.method.call"@);
    assert(t[24].0 == "keyword"@);
    assert(t[25].0 == "keyword.conditional"@);
    assert(t[26].0 == "keyword.conditional.ternary"@);
    assert(t[27].0 == "keyword.coroutine"@);
    assert(t[28].0 == "keyword.debug"@);
    assert(t[29].0 == "keyword.directive"@);
    assert(t[30].0 == "keyword.directive.define"@);
    assert(t[31].0 == "keyword.exception"@);
    assert(t[32].0 == "keyword.function"@);
    assert(t[33].0 == "keyword.import"@);
    assert(t[34].0 == "keyword.modifier"@);
    assert(t[35].0 == "keyword.operator"@);
    assert(t[36].0 == "keyword.repeat"@);
    assert(t[37].0 == "keyword.return"@);
    assert(t[38].0 == "keyword.type"@);
    assert(t[39].0 == "label"@);
    assert(t[40].0 == "markup"@);
    assert(t[41].0 == "markup.heading"@);
    assert(t[42].0 == "markup.heading.1"@);
    assert(t[43].0 == "markup.heading.2"@);
    assert(t[44].0 == "markup.heading.3"@);
    assert(t[45].0 == "markup.heading.4"@);
    assert(t[46].0 == "markup.heading.5"@);
    assert(t[47].0 == "markup.heading.6"@);
    assert(t[48].0 == "markup.italic"@);
    assert(t[49].0 == "markup.link"@);
    assert(t[50].0 == "markup.link.label"@);
    assert(t[51].0 == "markup.link.url"@);
    assert(t[52].0 == "markup.list"@);
    assert(t[53].0 == "markup.list.checked"@);
    assert(t[54].0 == "markup.list.unchecked"@);
    assert(t[55].0 == "markup.math"@);
    assert(t[56].0 == "markup.quote"@);
    assert(t[57].0 == "markup.raw"@);
    assert(t[58].0 == "markup.raw.block"@);
    assert(t[59].0 == "markup.strikethrough"@);
    assert(t[60].0 == "markup.strong"@);
    assert(t[61].0 == "markup.underline"@);
    assert(t[62].0 == "module"@);
    assert(t[63].0 == "module.builtin"@);
    assert(t[64].0 == "number"@);
    assert(t[65].0 == "number.float"@);
    assert(t[66].0 == "operator"@);
    assert(t[67].0 == "property"@);
    assert(t[68].0 == "punctuation.bracket"@);
    assert(t[69].0 == "punctuation.delimiter"@);
    assert(t[70].0 == "punctuation.special"@);
    assert(t[71].0 == "string"@);
    assert(t[72].0 == "string.documentation"@);
    assert(t[73].0 == "string.escape"@);
    assert(t[74].0 == "string.regexp"@);
    assert(t[75].0 == "string.special"@);
    assert(t[76].0 == "string.special.path"@);
    assert(t[77].0 == "string.special.symbol"@);
    assert(t[78].0 == "string.special.url"@);
    assert(t[79].0 == "tag"@);
    assert(t[80].0 == "tag.attribute"@);
    assert(t[81].0 == "tag.builtin"@);
    assert(t[82].0 == "tag.delimiter"@);
    assert(t[83].0 == "type"@);
    assert(t[84].0 == "type.builtin"@);
    assert(t[85].0 == "type.definition"@);
    assert(t[86].0 == "variable"@);
    assert(t[87].0 == "variable.builtin"@);
    assert(t[88].0 == "variable.member"@);
    assert(t[89].0 == "variable.parameter"@);
    assert(t[90].0 == "variable.parameter.builtin"@);
}

} // verus!
