use leafpress::highlights::{Highlight, HighlightMap};
use leafpress::tables::{default_mapping, get_colour, hl};
use leafpress::text::{compare_str, Cmp};

#[test]
fn builders_set_one_decoration_each() {
    let h = Highlight::new(7);
    assert_eq!(h.base, 7);
    assert!(!h.bold && !h.italic && !h.underline && !h.strikethrough && !h.undercurl);
    assert!(h.bold().bold);
    assert!(h.italic().italic);
    assert!(h.underline().underline);
    assert!(h.strikethrough().strikethrough);
    assert!(h.undercurl().undercurl);
    let all = h.bold().italic().underline().strikethrough().undercurl();
    assert_eq!(all.base, 7);
    assert!(all.bold && all.italic && all.underline && all.strikethrough && all.undercurl);
    assert_eq!(hl(3), Highlight::new(3));
}

#[test]
fn default_mapping_known_names() {
    let m = default_mapping();
    assert_eq!(m.get("keyword"), Highlight::new(0x0e));
    assert_eq!(m.get("comment"), Highlight::new(0x03));
    assert_eq!(m.get("comment.documentation"), Highlight::new(0x03).italic());
    assert_eq!(m.get("constant.builtin"), Highlight::new(0x09).bold());
    assert_eq!(m.get("markup.strikethrough"), Highlight::new(0x0f).strikethrough());
    assert_eq!(m.get("string.special.url"), Highlight::new(0x0d).underline());
    assert_eq!(m.get("attribute"), Highlight::new(0x0f));
    assert_eq!(m.get("variable.parameter.builtin"), Highlight::new(0x05));
}

#[test]
fn default_mapping_unknown_name_gives_default() {
    let m = default_mapping();
    assert_eq!(m.default, Highlight::new(0x05));
    assert_eq!(m.get("no.such.capture"), Highlight::new(0x05));
    assert_eq!(m.get(""), Highlight::new(0x05));
    assert_eq!(m.get("keyword.x"), Highlight::new(0x05));
    assert_eq!(m.default_highlight(), Highlight::new(0x05));
    assert!(m.fits_palette());
}

#[test]
fn get_colour_plain_table() {
    assert_eq!(get_colour("comment.documentation"), Highlight::new(0x03));
    assert_eq!(get_colour("constant.builtin"), Highlight::new(0x09));
    assert_eq!(get_colour("constant.macro"), Highlight::new(0x09));
    assert_eq!(get_colour("markup.italic"), Highlight::new(0x0f).italic());
    assert_eq!(get_colour("function"), Highlight::new(0x0d));
    assert_eq!(get_colour("unknown"), Highlight::new(0x05));
}

#[test]
fn insert_then_get() {
    let mut m = HighlightMap::new(Highlight::new(1));
    assert_eq!(m.get("a"), Highlight::new(1));
    m.insert("b", Highlight::new(2));
    m.insert("a", Highlight::new(3));
    m.insert("c", Highlight::new(4));
    assert_eq!(m.get("a"), Highlight::new(3));
    assert_eq!(m.get("b"), Highlight::new(2));
    assert_eq!(m.get("c"), Highlight::new(4));
    assert_eq!(m.get("d"), Highlight::new(1));
    m.insert("b", Highlight::new(9).bold());
    assert_eq!(m.get("b"), Highlight::new(9).bold());
    assert_eq!(m.get("a"), Highlight::new(3));
}

#[test]
fn from_entries_later_entry_wins() {
    let entries = [("x", Highlight::new(1)), ("y", Highlight::new(2)), ("x", Highlight::new(3))];
    let m = HighlightMap::from_entries(Highlight::new(0), &entries);
    assert_eq!(m.get("x"), Highlight::new(3));
    assert_eq!(m.get("y"), Highlight::new(2));
    assert_eq!(m.get("z"), Highlight::new(0));
}

#[test]
fn fits_palette_detects_large_index() {
    let mut m = HighlightMap::new(Highlight::new(0));
    assert!(m.fits_palette());
    m.insert("big", Highlight::new(16));
    assert!(!m.fits_palette());
    let m2 = HighlightMap::new(Highlight::new(20));
    assert!(!m2.fits_palette());
}

#[test]
fn compare_str_is_byte_order() {
    assert_eq!(compare_str("a", "b"), Cmp::Less);
    assert_eq!(compare_str("b", "a"), Cmp::Greater);
    assert_eq!(compare_str("abc", "abc"), Cmp::Equal);
    assert_eq!(compare_str("ab", "abc"), Cmp::Less);
    assert_eq!(compare_str("attribute", "attribute.builtin"), Cmp::Less);
    assert_eq!(compare_str("Z", "a"), Cmp::Less);
    assert_eq!(compare_str("é", "z"), Cmp::Greater);
    assert_eq!(compare_str("", ""), Cmp::Equal);
}
