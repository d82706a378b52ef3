//! Division of a source text into styled tokens, and the text attributes that draw them.
use vstd::prelude::*;

use crate::highlights::{Highlight, HighlightMap};
use crate::parser::Capture;
use crate::theme::{Palette, Rgb};

verus! {

/// A run of source bytes drawn in one style and colour.
#[derive(Clone, Copy, Debug, PartialEq, Eq, Structural)]
pub struct Token {
    pub start: usize,
    pub end: usize,
    pub hl: Highlight,
    pub colour: Rgb,
}

/// Whether capture `c` spans byte `p`.
pub open spec fn covers(c: Capture, p: int) -> bool {
    c.start <= p < c.end
}

/// The index of the last capture that spans byte `p`.
pub open spec fn active_index(caps: Seq<Capture>, p: int) -> Option<int>
    decreases caps.len(),
{
    if caps.len() == 0 {
        None
    } else if covers(caps.last(), p) {
        Some(caps.len() - 1)
    } else {
        active_index(caps.drop_last(), p)
    }
}

/// The group of the capture in force at byte `p`: that of the last capture spanning it.
pub open spec fn group_at(caps: Seq<Capture>, p: int) -> Option<Seq<char>> {
    match active_index(caps, p) {
        Some(i) => Some(caps[i].group@),
        None => None,
    }
}

/// The highlight of a group, or the default highlight for bytes that no capture spans.
pub open spec fn highlight_for(mapping: HighlightMap, group: Option<Seq<char>>) -> Highlight {
    match group {
        Some(name) => mapping.spec_get(name),
        None => mapping.spec_default(),
    }
}

/// Every byte below `len` that a capture in force may give needs a colour of the palette.
pub open spec fn highlights_in_palette(caps: Seq<Capture>, mapping: HighlightMap, len: int) -> bool {
    forall|p: int| 0 <= p < len ==> #[trigger] highlight_for(mapping, group_at(caps, p)).base < 16
}

/// The tokens are non-empty, in order, and together cover bytes `0..len` without gap or overlap.
pub open spec fn tokens_cover(v: Seq<Token>, len: int) -> bool {
    &&& (v.len() == 0 <==> len == 0)
    &&& forall|k: int| 0 <= k < v.len() ==> #[trigger] v[k].start < v[k].end
    &&& v.len() > 0 ==> v[0].start == 0 && v.last().end == len
    &&& forall|k: int| 0 <= k < v.len() - 1 ==> #[trigger] v[k].end == v[k + 1].start
}

/// Within each token, the same group is in force at every byte.
pub open spec fn tokens_uniform(v: Seq<Token>, caps: Seq<Capture>) -> bool {
    forall|k: int, p: int|
        0 <= k < v.len() && v[k].start <= p < v[k].end ==> #[trigger] group_at(caps, p) == group_at(
            caps,
            (#[trigger] v[k]).start as int,
        )
}

/// Each token but the last stops where another group comes into force.
pub open spec fn tokens_maximal(v: Seq<Token>, caps: Seq<Capture>) -> bool {
    forall|k: int|
        0 <= k < v.len() - 1 ==> group_at(caps, (#[trigger] v[k]).end as int) != group_at(caps, v[k].start as int)
}

/// Each token has the highlight of its group and the palette colour that the highlight names.
pub open spec fn tokens_styled(v: Seq<Token>, caps: Seq<Capture>, mapping: HighlightMap, colours: Seq<Rgb>) -> bool {
    forall|k: int|
        0 <= k < v.len() ==> {
            &&& (#[trigger] v[k]).hl == highlight_for(mapping, group_at(caps, v[k].start as int))
            &&& v[k].colour == colours[v[k].hl.base as int]
        }
}

/// The index of the last capture spanning byte `p`.
fn active_capture(captures: &[Capture], p: usize) -> (r: Option<usize>)
    ensures
        match r {
            Some(i) => active_index(captures@, p as int) == Some(i as int) && i < captures@.len(),
            None => active_index(captures@, p as int) is None,
        },
{
    let mut i: usize = captures.len();
    assert(captures@.take(i as int) =~= captures@);
    while i > 0
        invariant
            i <= captures@.len(),
            active_index(captures@, p as int) == active_index(captures@.take(i as int), p as int),
        decreases i,
    {
        let c = &captures[i - 1];
        assert(captures@.take(i as int).last() == captures@[i - 1]);
        if c.start <= p && p < c.end {
            return Some(i - 1);
        }
        assert(captures@.take(i as int).drop_last() =~= captures@.take(i - 1));
        i = i - 1;
    }
    None
}

/// Whether the captures at two indices (or their absence) name the same group.
fn same_group(captures: &[Capture], a: Option<usize>, b: Option<usize>) -> (r: bool)
    requires
        a matches Some(i) ==> i < captures@.len(),
        b matches Some(j) ==> j < captures@.len(),
    ensures
        r == ((match a {
            Some(i) => Some(captures@[i as int].group@),
            None => None::<Seq<char>>,
        }) == (match b {
            Some(j) => Some(captures@[j as int].group@),
            None => None::<Seq<char>>,
        })),
{
    match (a, b) {
        (None, None) => true,
        (Some(i), Some(j)) => captures[i].group == captures[j].group,
        _ => false,
    }
}

/// Divides `source` into tokens: maximal runs of bytes over which the same capture group (or
/// none) is in force, where the group in force at a byte is that of the last capture spanning
/// it. Each token takes the highlight of its group from `mapping` and its colour from `palette`.
pub fn make_tokens<P: Palette>(source: &[u8], captures: &[Capture], palette: &P, mapping: &HighlightMap) -> (v: Vec<Token>)
    requires
        mapping.wf(),
        highlights_in_palette(captures@, *mapping, source@.len() as int),
    ensures
        tokens_cover(v@, source@.len() as int),
        tokens_uniform(v@, captures@),
        tokens_maximal(v@, captures@),
        tokens_styled(v@, captures@, *mapping, palette.spec_colours()),
{
    let n = source.len();
    let ghost caps = captures@;
    let mut tokens: Vec<Token> = Vec::new();
    let mut position: usize = 0;
    while position < n
        invariant
            n == source@.len(),
            caps == captures@,
            mapping.wf(),
            highlights_in_palette(caps, *mapping, n as int),
            position <= n,
            tokens@.len() == 0 <==> position == 0,
            forall|k: int| 0 <= k < tokens@.len() ==> #[trigger] tokens@[k].start < tokens@[k].end,
            tokens@.len() > 0 ==> tokens@[0].start == 0 && tokens@.last().end == position,
            forall|k: int| 0 <= k < tokens@.len() - 1 ==> #[trigger] tokens@[k].end == tokens@[k + 1].start,
            tokens_uniform(tokens@, caps),
            tokens_maximal(tokens@, caps),
            tokens@.len() > 0 && position < n ==> group_at(caps, position as int) != group_at(
                caps,
                tokens@.last().start as int,
            ),
            tokens_styled(tokens@, caps, *mapping, palette.spec_colours()),
        decreases n - position,
    {
        let active = active_capture(captures, position);
        let ghost g = group_at(caps, position as int);
        let mut end: usize = position + 1;
        while end < n
            invariant
                n == source@.len(),
                caps == captures@,
                position < end <= n,
                active matches Some(i) ==> i < caps.len(),
                g == group_at(caps, position as int),
                g == (match active {
                    Some(i) => Some(caps[i as int].group@),
                    None => None::<Seq<char>>,
                }),
                forall|q: int| position <= q < end ==> #[trigger] group_at(caps, q) == g,
            ensures
                position < end <= n,
                forall|q: int| position <= q < end ==> #[trigger] group_at(caps, q) == g,
                end < n ==> group_at(caps, end as int) != g,
            decreases n - end,
        {
            let next = active_capture(captures, end);
            if !same_group(captures, next, active) {
                break;
            }
            end = end + 1;
        }
        let hl = match active {
            Some(i) => mapping.get(captures[i].group.as_str()),
            None => mapping.default_highlight(),
        };
        assert(hl == highlight_for(*mapping, g));
        assert(hl.base < 16) by {
            assert(highlight_for(*mapping, group_at(caps, position as int)).base < 16);
        }
        let colour = *palette.colour(hl.base);
        let ghost before = tokens@;
        let token = Token { start: position, end, hl, colour };
        tokens.push(token);
        proof {
            assert(tokens@ == before.push(token));
            assert forall|k: int, p: int|
                0 <= k < tokens@.len() && tokens@[k].start <= p < tokens@[k].end implies #[trigger] group_at(caps, p)
                == group_at(caps, (#[trigger] tokens@[k]).start as int) by {
                if k < before.len() {
                    assert(tokens@[k] == before[k]);
                }
            }
            assert forall|k: int| 0 <= k < tokens@.len() - 1 implies group_at(caps, (#[trigger] tokens@[k]).end as int)
                != group_at(caps, tokens@[k].start as int) by {
                assert(tokens@[k] == before[k]);
                if k == before.len() - 1 {
                    assert(before.last() == before[k]);
                }
            }
            assert forall|k: int| 0 <= k < tokens@.len() - 1 implies #[trigger] tokens@[k].end == tokens@[k + 1].start by {
                assert(tokens@[k] == before[k]);
                if k == before.len() - 1 {
                    assert(before.last() == before[k]);
                } else {
                    assert(tokens@[k + 1] == before[k + 1]);
                }
            }
            assert forall|k: int| 0 <= k < tokens@.len() implies #[trigger] tokens@[k].start < tokens@[k].end by {
                if k < before.len() {
                    assert(tokens@[k] == before[k]);
                }
            }
            assert(tokens_styled(tokens@, caps, *mapping, palette.spec_colours())) by {
                assert forall|k: int| 0 <= k < tokens@.len() implies {
                    &&& (#[trigger] tokens@[k]).hl == highlight_for(*mapping, group_at(caps, tokens@[k].start as int))
                    &&& tokens@[k].colour == palette.spec_colours()[tokens@[k].hl.base as int]
                } by {
                    if k < before.len() {
                        assert(tokens@[k] == before[k]);
                    }
                }
            }
        }
        position = end;
    }
    tokens
}


/// What a text attribute does.
#[derive(Clone, Copy, Debug, PartialEq, Eq, Structural)]
pub enum AttrKind {
    /// The OpenType feature setting `'calt' 1` (contextual alternates).
    ContextualAlternates,
    /// The foreground colour, 16 bits per channel.
    Foreground { red: u16, green: u16, blue: u16 },
    Bold,
    Italic,
    /// A single underline.
    Underline,
    /// A wavy underline, as for errors.
    Undercurl,
    Strikethrough,
}

/// An attribute over the byte range `start..end` of the laid-out text.
#[derive(Clone, Copy, Debug, PartialEq, Eq, Structural)]
pub struct TextAttribute {
    pub kind: AttrKind,
    pub start: u32,
    pub end: u32,
}

/// The 16-bit value of an 8-bit channel (`0xab` becomes `0xabab`).
pub open spec fn channel16(c: u8) -> u16 {
    (c * 257) as u16
}

/// The attributes that draw one token over `start..end`: its colour, then its decorations.
pub open spec fn token_attributes(t: Token, start: u32, end: u32) -> Seq<TextAttribute> {
    let fg = TextAttribute {
        kind: AttrKind::Foreground {
            red: channel16(t.colour.r),
            green: channel16(t.colour.g),
            blue: channel16(t.colour.b),
        },
        start,
        end,
    };
    let one = |k: AttrKind| seq![TextAttribute { kind: k, start, end }];
    let none = Seq::<TextAttribute>::empty();
    seq![fg]
        + (if t.hl.bold { one(AttrKind::Bold) } else { none })
        + (if t.hl.italic { one(AttrKind::Italic) } else { none })
        + (if t.hl.underline { one(AttrKind::Underline) } else { none })
        + (if t.hl.undercurl { one(AttrKind::Undercurl) } else { none })
        + (if t.hl.strikethrough { one(AttrKind::Strikethrough) } else { none })
}

/// The total length of the first `k` tokens.
pub open spec fn tokens_offset(v: Seq<Token>, k: int) -> int
    decreases k,
{
    if k <= 0 {
        0
    } else {
        tokens_offset(v, k - 1) + (v[k - 1].end - v[k - 1].start)
    }
}

/// The attributes of the first `k` tokens, laid end to end from offset zero; offsets are cut
/// to 32 bits.
pub open spec fn tokens_attributes(v: Seq<Token>, k: int) -> Seq<TextAttribute>
    decreases k,
{
    if k <= 0 {
        Seq::empty()
    } else {
        tokens_attributes(v, k - 1) + token_attributes(
            v[k - 1],
            tokens_offset(v, k - 1) as u32,
            tokens_offset(v, k) as u32,
        )
    }
}

proof fn lemma_offset_monotone(v: Seq<Token>, j: int, k: int)
    requires
        0 <= j <= k <= v.len(),
        forall|i: int| 0 <= i < v.len() ==> #[trigger] v[i].start <= v[i].end,
    ensures
        tokens_offset(v, j) <= tokens_offset(v, k),
    decreases k - j,
{
    if j < k {
        lemma_offset_monotone(v, j, k - 1);
    }
}

fn push_attribute(attrs: &mut Vec<TextAttribute>, kind: AttrKind, start: u32, end: u32, on: bool)
    ensures
        final(attrs)@ == old(attrs)@ + (if on {
            seq![TextAttribute { kind, start, end }]
        } else {
            Seq::<TextAttribute>::empty()
        }),
{
    if on {
        attrs.push(TextAttribute { kind, start, end });
    } else {
        assert(attrs@ =~= attrs@ + Seq::<TextAttribute>::empty());
    }
}

fn push_token_attributes(attrs: &mut Vec<TextAttribute>, token: &Token, start: u32, end: u32)
    ensures
        final(attrs)@ == old(attrs)@ + token_attributes(*token, start, end),
{
    let fg = AttrKind::Foreground {
        red: token.colour.r as u16 * 257,
        green: token.colour.g as u16 * 257,
        blue: token.colour.b as u16 * 257,
    };
    let ghost before = attrs@;
    attrs.push(TextAttribute { kind: fg, start, end });
    push_attribute(attrs, AttrKind::Bold, start, end, token.hl.bold);
    push_attribute(attrs, AttrKind::Italic, start, end, token.hl.italic);
    push_attribute(attrs, AttrKind::Underline, start, end, token.hl.underline);
    push_attribute(attrs, AttrKind::Undercurl, start, end, token.hl.undercurl);
    push_attribute(attrs, AttrKind::Strikethrough, start, end, token.hl.strikethrough);
    assert(attrs@ =~= before + token_attributes(*token, start, end));
}

/// The attributes that lay out the tokens over `source`: the contextual-alternates feature over
/// the whole text, then for each token its colour and decorations, placed one after another.
pub fn layout_attributes(source: &[u8], tokens: &[Token]) -> (v: Vec<TextAttribute>)
    requires
        forall|k: int| 0 <= k < tokens@.len() ==> #[trigger] tokens@[k].start <= tokens@[k].end,
        tokens_offset(tokens@, tokens@.len() as int) <= usize::MAX,
    ensures
        v@ == seq![TextAttribute { kind: AttrKind::ContextualAlternates, start: 0, end: source@.len() as u32 }]
            + tokens_attributes(tokens@, tokens@.len() as int),
{
    let mut attrs: Vec<TextAttribute> = Vec::new();
    attrs.push(TextAttribute { kind: AttrKind::ContextualAlternates, start: 0, end: source.len() as u32 });
    let ghost head = attrs@;
    let mut position: usize = 0;
    let mut i: usize = 0;
    while i < tokens.len()
        invariant
            i <= tokens@.len(),
            forall|k: int| 0 <= k < tokens@.len() ==> #[trigger] tokens@[k].start <= tokens@[k].end,
            tokens_offset(tokens@, tokens@.len() as int) <= usize::MAX,
            position == tokens_offset(tokens@, i as int),
            attrs@ == head + tokens_attributes(tokens@, i as int),
        decreases tokens@.len() - i,
    {
        let token = tokens[i];
        let length = token.end - token.start;
        proof {
            lemma_offset_monotone(tokens@, i + 1, tokens@.len() as int);
        }
        let start = position as u32;
        let end = (position + length) as u32;
        let ghost before = attrs@;
        push_token_attributes(&mut attrs, &token, start, end);
        proof {
            assert(head + tokens_attributes(tokens@, i + 1) =~= before + token_attributes(token, start, end));
        }
        position = position + length;
        i = i + 1;
    }
    attrs
}


/// Where every highlight of the table names a palette colour, so does the highlight in force at
/// every byte.
pub proof fn lemma_fitting_mapping(caps: Seq<Capture>, mapping: HighlightMap, len: int)
    requires
        mapping.bases_below(16),
    ensures
        highlights_in_palette(caps, mapping, len),
{
    mapping.lemma_bases_below(16);
    assert forall|p: int| 0 <= p < len implies #[trigger] highlight_for(mapping, group_at(caps, p)).base < 16 by {
        match group_at(caps, p) {
            Some(name) => {
                assert(mapping.spec_get(name).base < 16);
            },
            None => {},
        }
    }
}

/// Tokens that cover bytes `0..len` are laid out at their own byte offsets: the total length of
/// the tokens before token `k` is its start, and the total of all of them is `len`.
pub proof fn lemma_offsets_are_starts(v: Seq<Token>, len: int)
    requires
        tokens_cover(v, len),
    ensures
        forall|k: int| 0 <= k < v.len() ==> #[trigger] tokens_offset(v, k) == v[k].start,
        tokens_offset(v, v.len() as int) == len,
        forall|k: int| 0 <= k < v.len() ==> #[trigger] v[k].start <= v[k].end,
{
    assert forall|k: int| 0 <= k <= v.len() implies tokens_offset(v, k) == (if k < v.len() {
        v[k].start as int
    } else {
        len
    }) by {
        lemma_offset_at(v, len, k);
    }
    assert forall|k: int| 0 <= k < v.len() implies #[trigger] tokens_offset(v, k) == v[k].start by {
        lemma_offset_at(v, len, k);
    }
    if v.len() > 0 {
        lemma_offset_at(v, len, v.len() as int);
    }
}

proof fn lemma_offset_at(v: Seq<Token>, len: int, k: int)
    requires
        tokens_cover(v, len),
        0 <= k <= v.len(),
    ensures
        tokens_offset(v, k) == (if k < v.len() {
            v[k].start as int
        } else {
            len
        }),
    decreases k,
{
    if k > 0 {
        lemma_offset_at(v, len, k - 1);
        if k < v.len() {
            assert(v[k - 1].end == v[k].start);
        }
    }
}


/// Whether the highlight in force at every byte of `source` names a palette colour, which
/// `make_tokens` needs.
pub fn highlights_fit(source: &[u8], captures: &[Capture], mapping: &HighlightMap) -> (r: bool)
    requires
        mapping.wf(),
    ensures
        r == highlights_in_palette(captures@, *mapping, source@.len() as int),
{
    let n = source.len();
    let mut p: usize = 0;
    while p < n
        invariant
            n == source@.len(),
            p <= n,
            mapping.wf(),
            forall|q: int| 0 <= q < p ==> #[trigger] highlight_for(*mapping, group_at(captures@, q)).base < 16,
        decreases n - p,
    {
        let hl = match active_capture(captures, p) {
            Some(i) => mapping.get(captures[i].group.as_str()),
            None => mapping.default_highlight(),
        };
        assert(hl == highlight_for(*mapping, group_at(captures@, p as int)));
        if hl.base >= 16 {
            return false;
        }
        p = p + 1;
    }
    true
}


/// The font of an image: the family and size given, else `monospace` at size 14.
pub fn font_settings<'a>(family: Option<&'a str>, size: Option<u8>) -> (r: (&'a str, u8))
    ensures
        r.0@ == (match family {
            Some(f) => f@,
            None => "monospace"@,
        }),
        r.1 == (match size {
            Some(s) => s,
            None => 14u8,
        }),
{
    let f = match family {
        Some(f) => f,
        None => "monospace",
    };
    let s = match size {
        Some(s) => s,
        None => 14,
    };
    (f, s)
}

} // verus!

verus! {

/// The capture in force at a byte is the last one spanning it: where capture `i` spans byte `p`
/// and no capture after it does, capture `i` is in force at `p`, whatever the starts of the
/// captures before it.
pub proof fn lemma_last_spanning_capture_wins(caps: Seq<Capture>, p: int, i: int)
    requires
        0 <= i < caps.len(),
        caps[i].start <= p < caps[i].end,
        forall|j: int| i < j < caps.len() ==> !((#[trigger] caps[j]).start <= p && p < caps[j].end),
    ensures
        active_index(caps, p) == Some(i),
        group_at(caps, p) == Some(caps[i].group@),
    decreases caps.len(),
{
    if i < caps.len() - 1 {
        let rest = caps.drop_last();
        assert(caps.last() == caps[caps.len() - 1]);
        assert forall|j: int| i < j < rest.len() implies !((#[trigger] rest[j]).start <= p && p < rest[j].end) by {
            assert(rest[j] == caps[j]);
        }
        assert(rest[i] == caps[i]);
        lemma_last_spanning_capture_wins(rest, p, i);
    }
}

/// A byte that no capture spans has no group in force.
pub proof fn lemma_unspanned_byte_has_no_group(caps: Seq<Capture>, p: int)
    requires
        forall|j: int| 0 <= j < caps.len() ==> !((#[trigger] caps[j]).start <= p && p < caps[j].end),
    ensures
        active_index(caps, p) is None,
        group_at(caps, p) is None,
    decreases caps.len(),
{
    if caps.len() > 0 {
        let rest = caps.drop_last();
        assert(caps.last() == caps[caps.len() - 1]);
        assert forall|j: int| 0 <= j < rest.len() implies !((#[trigger] rest[j]).start <= p && p < rest[j].end) by {
            assert(rest[j] == caps[j]);
        }
        lemma_unspanned_byte_has_no_group(rest, p);
    }
}

/// Every byte of a token that `make_tokens` gives is drawn in the style of the last capture
/// spanning it: where capture `i` spans byte `p` of token `k` and no later capture does, the token
/// has the highlight that the table gives capture `i`'s group, and the palette colour it names.
pub proof fn lemma_token_takes_last_capture(
    v: Seq<Token>,
    caps: Seq<Capture>,
    mapping: HighlightMap,
    colours: Seq<Rgb>,
    k: int,
    p: int,
    i: int,
)
    requires
        tokens_uniform(v, caps),
        tokens_styled(v, caps, mapping, colours),
        0 <= k < v.len(),
        v[k].start <= p < v[k].end,
        0 <= i < caps.len(),
        caps[i].start <= p < caps[i].end,
        forall|j: int| i < j < caps.len() ==> !((#[trigger] caps[j]).start <= p && p < caps[j].end),
    ensures
        v[k].hl == mapping.spec_get(caps[i].group@),
        v[k].colour == colours[mapping.spec_get(caps[i].group@).base as int],
{
    lemma_last_spanning_capture_wins(caps, p, i);
    assert(group_at(caps, p) == group_at(caps, v[k].start as int));
}

proof fn lemma_contains_add(x: Seq<TextAttribute>, y: Seq<TextAttribute>, a: TextAttribute)
    ensures
        (x + y).contains(a) <==> x.contains(a) || y.contains(a),
{
    if x.contains(a) {
        let i = choose|i: int| 0 <= i < x.len() && x[i] == a;
        assert((x + y)[i] == a);
    }
    if y.contains(a) {
        let i = choose|i: int| 0 <= i < y.len() && y[i] == a;
        assert((x + y)[x.len() + i] == a);
    }
    if (x + y).contains(a) {
        let i = choose|i: int| 0 <= i < (x + y).len() && (x + y)[i] == a;
        if i < x.len() {
            assert(x[i] == a);
        } else {
            assert(y[i - x.len()] == a);
        }
    }
}

proof fn lemma_contains_opt(on: bool, e: TextAttribute, a: TextAttribute)
    ensures
        (if on { seq![e] } else { Seq::<TextAttribute>::empty() }).contains(a) <==> on && e == a,
{
    if on {
        assert(seq![e][0] == e);
    }
}

/// What a token's attributes contain: its colour, and each decoration its highlight asks for.
proof fn lemma_token_attributes_contain(t: Token, start: u32, end: u32, a: TextAttribute)
    ensures
        token_attributes(t, start, end).contains(a) <==> {
            ||| a == token_attributes(t, start, end)[0]
            ||| t.hl.bold && a == (TextAttribute { kind: AttrKind::Bold, start, end })
            ||| t.hl.italic && a == (TextAttribute { kind: AttrKind::Italic, start, end })
            ||| t.hl.underline && a == (TextAttribute { kind: AttrKind::Underline, start, end })
            ||| t.hl.undercurl && a == (TextAttribute { kind: AttrKind::Undercurl, start, end })
            ||| t.hl.strikethrough && a == (TextAttribute { kind: AttrKind::Strikethrough, start, end })
        },
{
    let fg = TextAttribute {
        kind: AttrKind::Foreground {
            red: channel16(t.colour.r),
            green: channel16(t.colour.g),
            blue: channel16(t.colour.b),
        },
        start,
        end,
    };
    let none = Seq::<TextAttribute>::empty();
    let bold = TextAttribute { kind: AttrKind::Bold, start, end };
    let italic = TextAttribute { kind: AttrKind::Italic, start, end };
    let under = TextAttribute { kind: AttrKind::Underline, start, end };
    let curl = TextAttribute { kind: AttrKind::Undercurl, start, end };
    let strike = TextAttribute { kind: AttrKind::Strikethrough, start, end };
    let b = if t.hl.bold { seq![bold] } else { none };
    let it = if t.hl.italic { seq![italic] } else { none };
    let u = if t.hl.underline { seq![under] } else { none };
    let c = if t.hl.undercurl { seq![curl] } else { none };
    let st = if t.hl.strikethrough { seq![strike] } else { none };
    let p0 = seq![fg];
    let p1 = p0 + b;
    let p2 = p1 + it;
    let p3 = p2 + u;
    let p4 = p3 + c;
    assert(token_attributes(t, start, end) == p4 + st);
    assert(token_attributes(t, start, end)[0] == fg);
    lemma_contains_opt(true, fg, a);
    lemma_contains_opt(t.hl.bold, bold, a);
    lemma_contains_opt(t.hl.italic, italic, a);
    lemma_contains_opt(t.hl.underline, under, a);
    lemma_contains_opt(t.hl.undercurl, curl, a);
    lemma_contains_opt(t.hl.strikethrough, strike, a);
    lemma_contains_add(p0, b, a);
    lemma_contains_add(p1, it, a);
    lemma_contains_add(p2, u, a);
    lemma_contains_add(p3, c, a);
    lemma_contains_add(p4, st, a);
}

/// The attributes of a token are its colour over its range, then each decoration over the same
/// range exactly when its highlight asks for it: an underlined token is underlined whether or not
/// it is also bold, italic, wavy-underlined or struck through.
pub proof fn lemma_token_decorations(t: Token, start: u32, end: u32)
    ensures
        token_attributes(t, start, end)[0] == (TextAttribute {
            kind: AttrKind::Foreground {
                red: channel16(t.colour.r),
                green: channel16(t.colour.g),
                blue: channel16(t.colour.b),
            },
            start,
            end,
        }),
        token_attributes(t, start, end).contains(TextAttribute { kind: AttrKind::Bold, start, end }) <==> t.hl.bold,
        token_attributes(t, start, end).contains(TextAttribute { kind: AttrKind::Italic, start, end }) <==> t.hl.italic,
        token_attributes(t, start, end).contains(TextAttribute { kind: AttrKind::Underline, start, end })
            <==> t.hl.underline,
        token_attributes(t, start, end).contains(TextAttribute { kind: AttrKind::Undercurl, start, end })
            <==> t.hl.undercurl,
        token_attributes(t, start, end).contains(TextAttribute { kind: AttrKind::Strikethrough, start, end })
            <==> t.hl.strikethrough,
{
    lemma_token_attributes_contain(t, start, end, TextAttribute { kind: AttrKind::Bold, start, end });
    lemma_token_attributes_contain(t, start, end, TextAttribute { kind: AttrKind::Italic, start, end });
    lemma_token_attributes_contain(t, start, end, TextAttribute { kind: AttrKind::Underline, start, end });
    lemma_token_attributes_contain(t, start, end, TextAttribute { kind: AttrKind::Undercurl, start, end });
    lemma_token_attributes_contain(t, start, end, TextAttribute { kind: AttrKind::Strikethrough, start, end });
}

/// In the laid-out attributes of the tokens, every underlined token has an underline over its own
/// laid-out range (and likewise for each other decoration).
pub proof fn lemma_layout_underlines(v: Seq<Token>, n: int, k: int)
    requires
        0 <= k < n <= v.len(),
        v[k].hl.underline,
    ensures
        tokens_attributes(v, n).contains(
            TextAttribute {
                kind: AttrKind::Underline,
                start: tokens_offset(v, k) as u32,
                end: tokens_offset(v, k + 1) as u32,
            },
        ),
    decreases n,
{
    let a = TextAttribute {
        kind: AttrKind::Underline,
        start: tokens_offset(v, k) as u32,
        end: tokens_offset(v, k + 1) as u32,
    };
    let prev = tokens_attributes(v, n - 1);
    let last = token_attributes(v[n - 1], tokens_offset(v, n - 1) as u32, tokens_offset(v, n) as u32);
    assert(tokens_attributes(v, n) == prev + last);
    if k == n - 1 {
        lemma_token_decorations(v[k], tokens_offset(v, k) as u32, tokens_offset(v, k + 1) as u32);
        let x = choose|x: int| 0 <= x < last.len() && last[x] == a;
        assert((prev + last)[prev.len() + x] == a);
    } else {
        lemma_layout_underlines(v, n - 1, k);
        let x = choose|x: int| 0 <= x < prev.len() && prev[x] == a;
        assert((prev + last)[x] == a);
    }
}

} // verus!
