//! Colours, palettes and the reading of hexadecimal colour codes.
use vstd::prelude::*;
use vstd::string::StrSliceExecFns;

use crate::text::{Cmp, compare_str};
use crate::colour_code::{CodeOutcome, ColourError, code_outcome, code_panics, error_outcome, parse_hex};

verus! {

/// An 8-bit-per-channel colour.
#[derive(Clone, Copy, Debug, PartialEq, Eq, Structural)]
pub struct Rgb {
    pub r: u8,
    pub g: u8,
    pub b: u8,
}

/// A palette of sixteen colours, possibly with a name and an author.
pub trait Palette {
    /// The sixteen colours.
    spec fn spec_colours(&self) -> Seq<Rgb>;

    spec fn spec_name(&self) -> Option<Seq<char>>;

    spec fn spec_author(&self) -> Option<Seq<char>>;

    /// The colour at `index`; the index must be below sixteen.
    fn colour(&self, index: usize) -> (c: &Rgb)
        requires
            index < 16,
        ensures
            self.spec_colours().len() == 16,
            *c == self.spec_colours()[index as int],
    ;

    fn name(&self) -> (n: Option<&str>)
        ensures
            match n {
                Some(s) => self.spec_name() == Some(s@),
                None => self.spec_name() is None,
            },
    ;

    fn author(&self) -> (n: Option<&str>)
        ensures
            match n {
                Some(s) => self.spec_author() == Some(s@),
                None => self.spec_author() is None,
            },
    ;

    /// The background colour, which is the first colour.
    fn background(&self) -> (c: &Rgb)
        ensures
            self.spec_colours().len() == 16,
            *c == self.spec_colours()[0],
    ;

    /// All sixteen colours in order.
    fn colours(&self) -> (v: Vec<Rgb>)
        ensures
            v@ == self.spec_colours(),
            v@.len() == 16,
    ;
}

fn rgb_vec(a: &[Rgb; 16]) -> (v: Vec<Rgb>)
    ensures
        v@ == a@,
{
    let mut v: Vec<Rgb> = Vec::new();
    let mut i: usize = 0;
    while i < 16
        invariant
            i <= 16,
            a@.len() == 16,
            v@ == a@.take(i as int),
        decreases 16 - i,
    {
        v.push(a[i]);
        assert(v@ =~= a@.take(i + 1));
        i = i + 1;
    }
    assert(v@ =~= a@);
    v
}

/// A palette whose name and author are fixed strings.
#[derive(Clone, Copy)]
pub struct StaticPalette {
    rgb: [Rgb; 16],
    name: Option<&'static str>,
    author: Option<&'static str>,
}

/// A palette read from a scheme file.
#[derive(Clone)]
pub struct CustomPalette {
    rgb: [Rgb; 16],
    name: Option<String>,
    author: Option<String>,
}

impl StaticPalette {
    pub fn new(rgb: [Rgb; 16], name: Option<&'static str>, author: Option<&'static str>) -> (p: Self)
        ensures
            p.spec_colours() == rgb@,
            p.spec_name() == (match name {
                Some(s) => Some(s@),
                None => None::<Seq<char>>,
            }),
            p.spec_author() == (match author {
                Some(s) => Some(s@),
                None => None::<Seq<char>>,
            }),
    {
        StaticPalette { rgb, name, author }
    }
}

impl CustomPalette {
    pub fn new(rgb: [Rgb; 16], name: Option<String>, author: Option<String>) -> (p: Self)
        ensures
            p.spec_colours() == rgb@,
            p.spec_name() == (match name {
                Some(s) => Some(s@),
                None => None::<Seq<char>>,
            }),
            p.spec_author() == (match author {
                Some(s) => Some(s@),
                None => None::<Seq<char>>,
            }),
    {
        CustomPalette { rgb, name, author }
    }
}

impl Palette for StaticPalette {
    closed spec fn spec_colours(&self) -> Seq<Rgb> {
        self.rgb@
    }

    closed spec fn spec_name(&self) -> Option<Seq<char>> {
        match self.name {
            Some(s) => Some(s@),
            None => None,
        }
    }

    closed spec fn spec_author(&self) -> Option<Seq<char>> {
        match self.author {
            Some(s) => Some(s@),
            None => None,
        }
    }

    fn colour(&self, index: usize) -> (c: &Rgb) {
        &self.rgb[index]
    }

    fn name(&self) -> (n: Option<&str>) {
        self.name
    }

    fn author(&self) -> (n: Option<&str>) {
        self.author
    }

    fn background(&self) -> (c: &Rgb) {
        &self.rgb[0]
    }

    fn colours(&self) -> (v: Vec<Rgb>) {
        rgb_vec(&self.rgb)
    }
}

impl Palette for CustomPalette {
    closed spec fn spec_colours(&self) -> Seq<Rgb> {
        self.rgb@
    }

    closed spec fn spec_name(&self) -> Option<Seq<char>> {
        match self.name {
            Some(s) => Some(s@),
            None => None,
        }
    }

    closed spec fn spec_author(&self) -> Option<Seq<char>> {
        match self.author {
            Some(s) => Some(s@),
            None => None,
        }
    }

    fn colour(&self, index: usize) -> (c: &Rgb) {
        &self.rgb[index]
    }

    fn name(&self) -> (n: Option<&str>) {
        match &self.name {
            Some(s) => Some(s.as_str()),
            None => None,
        }
    }

    fn author(&self) -> (n: Option<&str>) {
        match &self.author {
            Some(s) => Some(s.as_str()),
            None => None,
        }
    }

    fn background(&self) -> (c: &Rgb) {
        &self.rgb[0]
    }

    fn colours(&self) -> (v: Vec<Rgb>) {
        rgb_vec(&self.rgb)
    }
}


/// A base16 or base24 colour scheme as its file describes it.
pub struct Scheme {
    pub system: String,
    pub name: String,
    pub author: String,
    pub variant: String,
    pub palette: SchemePalette,
}

/// The colour codes of a scheme.
pub struct SchemePalette {
    pub base00: String,
    pub base01: String,
    pub base02: String,
    pub base03: String,
    pub base04: String,
    pub base05: String,
    pub base06: String,
    pub base07: String,
    pub base08: String,
    pub base09: String,
    pub base0a: String,
    pub base0b: String,
    pub base0c: String,
    pub base0d: String,
    pub base0e: String,
    pub base0f: String,
    pub base10: String,
    pub base11: String,
    pub base12: String,
    pub base13: String,
    pub base14: String,
    pub base15: String,
    pub base16: String,
    pub base17: String,
}

impl SchemePalette {
    /// The first sixteen colour codes, in order.
    pub fn base16_codes(&self) -> (a: [&str; 16])
        ensures
            a@.map_values(|c: &str| c@) == self.base16_view(),
    {
        let a: [&str; 16] = [
            self.base00.as_str(), self.base01.as_str(), self.base02.as_str(), self.base03.as_str(),
            self.base04.as_str(), self.base05.as_str(), self.base06.as_str(), self.base07.as_str(),
            self.base08.as_str(), self.base09.as_str(), self.base0a.as_str(), self.base0b.as_str(),
            self.base0c.as_str(), self.base0d.as_str(), self.base0e.as_str(), self.base0f.as_str(),
        ];
        assert(a@.map_values(|c: &str| c@) =~= self.base16_view());
        a
    }

    /// The first sixteen colour codes, in order.
    pub open spec fn base16_view(&self) -> Seq<Seq<char>> {
        seq![
            self.base00@, self.base01@, self.base02@, self.base03@,
            self.base04@, self.base05@, self.base06@, self.base07@,
            self.base08@, self.base09@, self.base0a@, self.base0b@,
            self.base0c@, self.base0d@, self.base0e@, self.base0f@,
        ]
    }
}

/// Reading stops at the first code that does not give a colour; a code before that one reads.
pub open spec fn codes_readable(codes: Seq<Seq<char>>) -> bool {
    forall|i: int|
        0 <= i < codes.len() ==> (forall|j: int| 0 <= j < i ==> code_outcome(#[trigger] codes[j]) is Colour)
            ==> !(code_outcome(#[trigger] codes[i]) is Panics)
}

/// What reading the codes in order comes to: every colour, or the error of the first code
/// that gives none.
pub open spec fn codes_result(codes: Seq<Seq<char>>, r: Result<Seq<Rgb>, ColourError>) -> bool {
    match r {
        Ok(v) => v.len() == codes.len() && forall|i: int|
            0 <= i < codes.len() ==> code_outcome(#[trigger] codes[i]) == CodeOutcome::Colour(v[i]),
        Err(e) => exists|i: int|
            0 <= i < codes.len() && (forall|j: int| 0 <= j < i ==> code_outcome(#[trigger] codes[j]) is Colour)
                && error_outcome(e) == code_outcome(#[trigger] codes[i]),
    }
}

/// Whether the codes can be read in order without slicing a character apart, which
/// `parse_base16` needs.
pub fn codes_readable_check(codes: &[&str]) -> (r: bool)
    ensures
        r == codes_readable(codes@.map_values(|c: &str| c@)),
{
    let ghost cv = codes@.map_values(|c: &str| c@);
    let mut i: usize = 0;
    while i < codes.len()
        invariant
            i <= codes@.len(),
            cv == codes@.map_values(|c: &str| c@),
            forall|j: int| 0 <= j < i ==> code_outcome(#[trigger] cv[j]) is Colour,
        decreases codes@.len() - i,
    {
        assert(cv[i as int] == codes[i as int]@);
        if code_panics(codes[i]) {
            return false;
        }
        match parse_hex(codes[i]) {
            Ok(_) => {},
            Err(_) => {
                assert forall|k: int| 0 <= k < cv.len() && (forall|j: int| 0 <= j < k ==> code_outcome(#[trigger] cv[j]) is Colour)
                    implies !(code_outcome(#[trigger] cv[k]) is Panics) by {
                    if k > i {
                        assert(!(code_outcome(cv[i as int]) is Colour));
                    }
                }
                return true;
            },
        }
        i = i + 1;
    }
    true
}

/// Reads sixteen colour codes in order.
pub fn parse_base16(codes: &[&str]) -> (r: Result<[Rgb; 16], ColourError>)
    requires
        codes@.len() == 16,
        codes_readable(codes@.map_values(|c: &str| c@)),
    ensures
        codes_result(
            codes@.map_values(|c: &str| c@),
            match r {
                Ok(a) => Ok(a@),
                Err(e) => Err(e),
            },
        ),
{
    let ghost cv = codes@.map_values(|c: &str| c@);
    let mut v: Vec<Rgb> = Vec::new();
    let mut i: usize = 0;
    while i < 16
        invariant
            i <= 16,
            codes@.len() == 16,
            cv == codes@.map_values(|c: &str| c@),
            codes_readable(cv),
            v@.len() == i,
            forall|j: int| 0 <= j < i ==> code_outcome(#[trigger] cv[j]) == CodeOutcome::Colour(v@[j]),
        decreases 16 - i,
    {
        assert(cv[i as int] == codes[i as int]@);
        assert forall|j: int| 0 <= j < i implies code_outcome(#[trigger] cv[j]) is Colour by {
            assert(code_outcome(cv[j]) == CodeOutcome::Colour(v@[j]));
        }
        match parse_hex(codes[i]) {
            Ok(c) => {
                v.push(c);
            },
            Err(e) => {
                assert(error_outcome(e) == code_outcome(cv[i as int]));
                return Err(e);
            },
        }
        i = i + 1;
    }
    let a = [
        v[0], v[1], v[2], v[3], v[4], v[5], v[6], v[7],
        v[8], v[9], v[10], v[11], v[12], v[13], v[14], v[15],
    ];
    assert(a@ =~= v@);
    Ok(a)
}

impl CustomPalette {
    /// The palette of a scheme: its first sixteen colours, its name and its author.
    pub fn from_scheme(scheme: &Scheme) -> (r: Result<CustomPalette, ColourError>)
        requires
            codes_readable(scheme.palette.base16_view()),
        ensures
            codes_result(
                scheme.palette.base16_view(),
                match r {
                    Ok(p) => Ok(p.spec_colours()),
                    Err(e) => Err(e),
                },
            ),
            r matches Ok(p) ==> p.spec_name() == Some(scheme.name@) && p.spec_author() == Some(scheme.author@),
    {
        let codes = scheme.palette.base16_codes();
        let slice = codes.as_slice();
        assert(slice@ == codes@);
        match parse_base16(slice) {
            Ok(rgb) => Ok(CustomPalette::new(rgb, Some(scheme.name.clone()), Some(scheme.author.clone()))),
            Err(e) => Err(e),
        }
    }
}

/// The first palette of the table named `key`.
pub fn get_theme<'a>(themes: &'a [(&'a str, StaticPalette)], key: &str) -> (r: Option<&'a StaticPalette>)
    ensures
        match r {
            Some(p) => exists|i: int|
                0 <= i < themes@.len() && (#[trigger] themes@[i]).0@ == key@ && *p == themes@[i].1
                    && forall|j: int| 0 <= j < i ==> (#[trigger] themes@[j]).0@ != key@,
            None => forall|i: int| 0 <= i < themes@.len() ==> (#[trigger] themes@[i]).0@ != key@,
        },
{
    let mut i: usize = 0;
    while i < themes.len()
        invariant
            i <= themes@.len(),
            forall|j: int| 0 <= j < i ==> (#[trigger] themes@[j]).0@ != key@,
        decreases themes@.len() - i,
    {
        let (name, _) = &themes[i];
        if compare_str(name, key) == Cmp::Equal {
            return Some(&themes[i].1);
        }
        i = i + 1;
    }
    None
}

/// The names and palettes of the table, in order.
pub fn iter_themes<'a>(themes: &'a [(&'a str, StaticPalette)]) -> (v: Vec<(&'a str, &'a StaticPalette)>)
    ensures
        v@.len() == themes@.len(),
        forall|i: int| 0 <= i < themes@.len() ==> (#[trigger] v@[i]).0 == themes@[i].0 && *v@[i].1 == themes@[i].1,
{
    let mut v: Vec<(&'a str, &'a StaticPalette)> = Vec::new();
    let mut i: usize = 0;
    while i < themes.len()
        invariant
            i <= themes@.len(),
            v@.len() == i,
            forall|j: int| 0 <= j < i ==> (#[trigger] v@[j]).0 == themes@[j].0 && *v@[j].1 == themes@[j].1,
        decreases themes@.len() - i,
    {
        v.push((themes[i].0, &themes[i].1));
        i = i + 1;
    }
    v
}

} // verus!
