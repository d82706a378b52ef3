use leafpress::highlights::{Highlight, HighlightMap};
use leafpress::parser::Capture;
use leafpress::render::{font_settings, highlights_fit, layout_attributes, make_tokens, AttrKind, TextAttribute, Token};
use leafpress::tables::default_mapping;
use leafpress::theme::{Rgb, StaticPalette};

fn palette() -> StaticPalette {
    let mut a = [Rgb { r: 0, g: 0, b: 0 }; 16];
    for (i, c) in a.iter_mut().enumerate() {
        *c = Rgb { r: i as u8, g: 100 + i as u8, b: 200 + i as u8 };
    }
    StaticPalette::new(a, None, None)
}

fn cap(start: usize, end: usize, group: &str) -> Capture {
    Capture { start, end, group: group.to_string() }
}

fn colour(i: u8) -> Rgb {
    Rgb { r: i, g: 100 + i, b: 200 + i }
}

#[test]
fn no_captures_one_default_token() {
    let m = default_mapping();
    let p = palette();
    let tokens = make_tokens(b"hello", &[], &p, &m);
    assert_eq!(tokens, vec![Token { start: 0, end: 5, hl: Highlight::new(5), colour: colour(5) }]);
}

#[test]
fn empty_source_no_tokens() {
    let m = default_mapping();
    let p = palette();
    assert!(make_tokens(b"", &[cap(0, 3, "keyword")], &p, &m).is_empty());
}

#[test]
fn captures_split_source() {
    let m = default_mapping();
    let p = palette();
    // "fn main" : keyword over 0..2, function over 3..7
    let caps = [cap(0, 2, "keyword"), cap(3, 7, "function")];
    let tokens = make_tokens(b"fn main", &caps, &p, &m);
    assert_eq!(
        tokens,
        vec![
            Token { start: 0, end: 2, hl: Highlight::new(0x0e), colour: colour(0x0e) },
            Token { start: 2, end: 3, hl: Highlight::new(5), colour: colour(5) },
            Token { start: 3, end: 7, hl: Highlight::new(0x0d), colour: colour(0x0d) },
        ]
    );
}

#[test]
fn later_capture_wins_and_same_group_merges() {
    let m = default_mapping();
    let p = palette();
    // the later "string" capture overrides the earlier "comment" on 2..4;
    // two adjacent "number" captures merge into one token.
    let caps = [cap(0, 6, "comment"), cap(2, 4, "string"), cap(6, 8, "number"), cap(8, 9, "number")];
    let tokens = make_tokens(b"abcdefghij", &caps, &p, &m);
    let spans: Vec<(usize, usize, usize)> = tokens.iter().map(|t| (t.start, t.end, t.hl.base)).collect();
    assert_eq!(spans, vec![(0, 2, 3), (2, 4, 0x0b), (4, 6, 3), (6, 9, 9), (9, 10, 5)]);
}

#[test]
fn styled_highlight_carried() {
    let m = default_mapping();
    let p = palette();
    let caps = [cap(1, 3, "constant.builtin")];
    let tokens = make_tokens(b"xNILy", &caps, &p, &m);
    assert_eq!(tokens[1].hl, Highlight::new(9).bold());
    assert_eq!(tokens[1].colour, colour(9));
    assert_eq!(tokens.len(), 3);
}

#[test]
fn fit_check() {
    let mut m = HighlightMap::new(Highlight::new(5));
    m.insert("huge", Highlight::new(40));
    let caps = [cap(2, 3, "huge")];
    assert!(highlights_fit(b"ab", &caps, &m));
    assert!(!highlights_fit(b"abcd", &caps, &m));
    assert!(highlights_fit(b"abcd", &caps, &default_mapping()));
}

#[test]
fn layout_attributes_follow_tokens() {
    let tokens = [
        Token { start: 0, end: 2, hl: Highlight::new(1).bold().underline(), colour: Rgb { r: 1, g: 2, b: 255 } },
        Token { start: 2, end: 5, hl: Highlight::new(2), colour: Rgb { r: 0, g: 0, b: 0 } },
        Token { start: 5, end: 6, hl: Highlight::new(3).italic().undercurl().strikethrough(), colour: Rgb { r: 16, g: 0, b: 0 } },
    ];
    let attrs = layout_attributes(b"abcdef", &tokens);
    let at = |kind, start, end| TextAttribute { kind, start, end };
    assert_eq!(
        attrs,
        vec![
            at(AttrKind::ContextualAlternates, 0, 6),
            at(AttrKind::Foreground { red: 257, green: 514, blue: 65535 }, 0, 2),
            at(AttrKind::Bold, 0, 2),
            at(AttrKind::Underline, 0, 2),
            at(AttrKind::Foreground { red: 0, green: 0, blue: 0 }, 2, 5),
            at(AttrKind::Foreground { red: 4112, green: 0, blue: 0 }, 5, 6),
            at(AttrKind::Italic, 5, 6),
            at(AttrKind::Undercurl, 5, 6),
            at(AttrKind::Strikethrough, 5, 6),
        ]
    );
}

#[test]
fn layout_offsets_accumulate_lengths() {
    // tokens that do not start at zero are still laid end to end from zero
    let tokens = [
        Token { start: 10, end: 12, hl: Highlight::new(0), colour: Rgb { r: 0, g: 0, b: 0 } },
        Token { start: 20, end: 23, hl: Highlight::new(0), colour: Rgb { r: 0, g: 0, b: 0 } },
    ];
    let attrs = layout_attributes(b"", &tokens);
    assert_eq!(attrs[0], TextAttribute { kind: AttrKind::ContextualAlternates, start: 0, end: 0 });
    assert_eq!((attrs[1].start, attrs[1].end), (0, 2));
    assert_eq!((attrs[2].start, attrs[2].end), (2, 5));
}

#[test]
fn font_defaults() {
    assert_eq!(font_settings(None, None), ("monospace", 14));
    assert_eq!(font_settings(Some("Iosevka"), Some(9)), ("Iosevka", 9));
}
