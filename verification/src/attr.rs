//! Attribute codec: turning the engine's raw per-cell attribute record into
//! the logical rendering attribute that cells are coalesced by, and
//! serializing that attribute as a sparse JSON object.

use vstd::prelude::*;

use crate::color::{
    get_color, spec_color_number, spec_resolve, ColorResolutionError,
};
use crate::json::{
    chars_to_string, dec_str, join_comma, push_dec_u32, push_joined, push_str_chars, texts_view,
};

verus! {

/// The style flags the engine reports per cell. `Protect` is read from the
/// raw record but deliberately never carried into the logical `Attribute`.
#[derive(Clone, Copy, PartialEq, Eq, Structural, Debug)]
pub enum AttributeFlags {
    Bold,
    Underline,
    Inverse,
    Protect,
    Blink,
}

/// The bit position a flag occupies in the engine's flag set.
pub open spec fn spec_flag_index(f: AttributeFlags) -> nat {
    match f {
        AttributeFlags::Bold => 0,
        AttributeFlags::Underline => 1,
        AttributeFlags::Inverse => 2,
        AttributeFlags::Protect => 3,
        AttributeFlags::Blink => 4,
    }
}

impl AttributeFlags {
    /// The bit position of this flag in the engine's flag set.
    pub fn to_uint(&self) -> (r: usize)
        ensures
            r == spec_flag_index(*self),
    {
        match self {
            AttributeFlags::Bold => 0,
            AttributeFlags::Underline => 1,
            AttributeFlags::Inverse => 2,
            AttributeFlags::Protect => 3,
            AttributeFlags::Blink => 4,
        }
    }

    /// The flag at a bit position.
    pub fn from_uint(v: usize) -> (r: AttributeFlags)
        requires
            v < 5,
        ensures
            spec_flag_index(r) == v,
    {
        if v == 0 {
            AttributeFlags::Bold
        } else if v == 1 {
            AttributeFlags::Underline
        } else if v == 2 {
            AttributeFlags::Inverse
        } else if v == 3 {
            AttributeFlags::Protect
        } else {
            AttributeFlags::Blink
        }
    }
}

/// One cell's raw attribute record as the engine hands it out: a color code
/// per ground (-1 meaning "use the RGB triple"), the two RGB triples, and
/// the style flags, here held as one boolean per flag.
#[derive(Clone, Copy, PartialEq, Eq, Structural, Debug)]
pub struct RawAttribute {
    /// Foreground color code, or -1 for RGB.
    pub fccode: i8,
    /// Background color code, or -1 for RGB.
    pub bccode: i8,
    /// Foreground red.
    pub fr: u8,
    /// Foreground green.
    pub fg: u8,
    /// Foreground blue.
    pub fb: u8,
    /// Background red.
    pub br: u8,
    /// Background green.
    pub bg: u8,
    /// Background blue.
    pub bb: u8,
    pub bold: bool,
    pub underline: bool,
    pub inverse: bool,
    pub protect: bool,
    pub blink: bool,
}

impl RawAttribute {
    /// Numeric form of the resolved foreground color.
    pub fn get_fg(&self) -> (res: Result<Option<u8>, ColorResolutionError>)
        ensures
            res matches Ok(n) ==> spec_resolve(self.fccode, self.fr, self.fg, self.fb) matches Ok(c)
                && n == spec_color_number(c),
            res matches Err(e) ==> spec_resolve(self.fccode, self.fr, self.fg, self.fb) == Err::<
                crate::color::ResolvedColor,
                ColorResolutionError,
            >(e),
    {
        get_color(self.fccode, self.fr, self.fg, self.fb)
    }

    /// Numeric form of the resolved background color.
    pub fn get_bg(&self) -> (res: Result<Option<u8>, ColorResolutionError>)
        ensures
            res matches Ok(n) ==> spec_resolve(self.bccode, self.br, self.bg, self.bb) matches Ok(c)
                && n == spec_color_number(c),
            res matches Err(e) ==> spec_resolve(self.bccode, self.br, self.bg, self.bb) == Err::<
                crate::color::ResolvedColor,
                ColorResolutionError,
            >(e),
    {
        get_color(self.bccode, self.br, self.bg, self.bb)
    }

    /// Whether one style flag is set.
    pub fn get_flag(&self, flag: AttributeFlags) -> (r: bool)
        ensures
            r == spec_get_flag(*self, flag),
    {
        match flag {
            AttributeFlags::Bold => self.bold,
            AttributeFlags::Underline => self.underline,
            AttributeFlags::Inverse => self.inverse,
            AttributeFlags::Protect => self.protect,
            AttributeFlags::Blink => self.blink,
        }
    }
}

/// Whether one style flag is set in a raw record.
pub open spec fn spec_get_flag(raw: RawAttribute, flag: AttributeFlags) -> bool {
    match flag {
        AttributeFlags::Bold => raw.bold,
        AttributeFlags::Underline => raw.underline,
        AttributeFlags::Inverse => raw.inverse,
        AttributeFlags::Protect => raw.protect,
        AttributeFlags::Blink => raw.blink,
    }
}

/// The logical rendering attribute of a cell. Equality is structural; two
/// adjacent cells with equal `Attribute` merge into one run. The raw
/// record's protect flag is deliberately not carried forward.
#[derive(Clone, Copy, PartialEq, Eq, Structural, Debug)]
pub struct Attribute {
    /// Foreground palette or index value, if a foreground color is set.
    pub fg: Option<u8>,
    /// Background palette or index value, if a background color is set.
    pub bg: Option<u8>,
    pub bold: bool,
    pub underline: bool,
    pub inverse: bool,
    pub blink: bool,
}

/// The attribute `Attribute::new` builds from a raw record whose two colors
/// resolved to `fg` and `bg`.
pub open spec fn spec_attr_of(raw: RawAttribute, fg: Option<u8>, bg: Option<u8>) -> Attribute {
    Attribute {
        fg,
        bg,
        bold: raw.bold,
        underline: raw.underline,
        inverse: raw.inverse,
        blink: raw.blink,
    }
}

/// A color field rendered as `"<key>":<value>`, present only when the color
/// is set; `key` is the full `"<name>":` prefix.
pub open spec fn color_field(key: Seq<char>, v: Option<u8>) -> Seq<Seq<char>> {
    match v {
        Some(n) => seq![key + dec_str(n as nat)],
        None => Seq::empty(),
    }
}

/// A boolean field rendered as `"<key>":true`, present only when set;
/// `key` is the full `"<name>":` prefix.
pub open spec fn flag_field(key: Seq<char>, v: bool) -> Seq<Seq<char>> {
    if v {
        seq![key + "true"@]
    } else {
        Seq::empty()
    }
}

/// The present fields of an attribute, in the fixed emission order:
/// fg, bg, bold, underline, inverse, blink.
pub open spec fn attr_fields(a: Attribute) -> Seq<Seq<char>> {
    color_field("\"fg\":"@, a.fg) + color_field("\"bg\":"@, a.bg) + flag_field(
        "\"bold\":"@,
        a.bold,
    ) + flag_field("\"underline\":"@, a.underline) + flag_field("\"inverse\":"@, a.inverse)
        + flag_field("\"blink\":"@, a.blink)
}

/// The sparse JSON object of an attribute: only present fields, between
/// braces. An attribute with nothing present encodes to `{}`.
pub open spec fn json_of_attr(a: Attribute) -> Seq<char> {
    seq!['{'] + join_comma(attr_fields(a)) + seq!['}']
}

/// What `Attribute::new` returns on every raw record: both colors resolved
/// to their numeric form and the four rendering-relevant flags copied, or
/// the first color-resolution failure, foreground checked first.
pub open spec fn spec_attr_new(raw: RawAttribute) -> Result<Attribute, ColorResolutionError> {
    match spec_resolve(raw.fccode, raw.fr, raw.fg, raw.fb) {
        Ok(f) => match spec_resolve(raw.bccode, raw.br, raw.bg, raw.bb) {
            Ok(b) => Ok(spec_attr_of(raw, spec_color_number(f), spec_color_number(b))),
            Err(e) => Err(e),
        },
        Err(e) => Err(e),
    }
}

impl Attribute {
    /// Resolves both colors of a raw record and copies the four
    /// rendering-relevant flags, dropping protect. Fails exactly when a
    /// color of the record fails palette resolution, foreground first.
    pub fn new(attr: RawAttribute) -> (res: Result<Attribute, ColorResolutionError>)
        ensures
            res == spec_attr_new(attr),
    {
        let fg = attr.get_fg()?;
        let bg = attr.get_bg()?;
        Ok(
            Attribute {
                fg,
                bg,
                bold: attr.get_flag(AttributeFlags::Bold),
                underline: attr.get_flag(AttributeFlags::Underline),
                inverse: attr.get_flag(AttributeFlags::Inverse),
                blink: attr.get_flag(AttributeFlags::Blink),
            },
        )
    }
}

/// The text of one numeric field, `<key><n>`.
fn num_field_text(key: &str, n: u8) -> (t: Vec<char>)
    ensures
        t@ == key@ + dec_str(n as nat),
{
    let mut t: Vec<char> = Vec::new();
    push_str_chars(&mut t, key);
    push_dec_u32(&mut t, n as u32);
    t
}

/// The text of one boolean field, `<key>true`.
fn true_field_text(key: &str) -> (t: Vec<char>)
    ensures
        t@ == key@ + "true"@,
{
    let mut t: Vec<char> = Vec::new();
    push_str_chars(&mut t, key);
    push_str_chars(&mut t, "true");
    t
}

/// The texts of the present fields of an attribute, in emission order.
fn attr_field_texts(a: &Attribute) -> (fs: Vec<Vec<char>>)
    ensures
        texts_view(fs@) == attr_fields(*a),
{
    let ghost g1 = color_field("\"fg\":"@, a.fg);
    let ghost g2 = color_field("\"bg\":"@, a.bg);
    let ghost g3 = flag_field("\"bold\":"@, a.bold);
    let ghost g4 = flag_field("\"underline\":"@, a.underline);
    let ghost g5 = flag_field("\"inverse\":"@, a.inverse);
    let ghost g6 = flag_field("\"blink\":"@, a.blink);
    let mut fs: Vec<Vec<char>> = Vec::new();
    if let Some(n) = a.fg {
        fs.push(num_field_text("\"fg\":", n));
    }
    assert(texts_view(fs@) =~~= g1);
    if let Some(n) = a.bg {
        fs.push(num_field_text("\"bg\":", n));
    }
    assert(texts_view(fs@) =~~= g1 + g2);
    if a.bold {
        fs.push(true_field_text("\"bold\":"));
    }
    assert(texts_view(fs@) =~~= g1 + g2 + g3);
    if a.underline {
        fs.push(true_field_text("\"underline\":"));
    }
    assert(texts_view(fs@) =~~= g1 + g2 + g3 + g4);
    if a.inverse {
        fs.push(true_field_text("\"inverse\":"));
    }
    assert(texts_view(fs@) =~~= g1 + g2 + g3 + g4 + g5);
    if a.blink {
        fs.push(true_field_text("\"blink\":"));
    }
    assert(texts_view(fs@) =~~= g1 + g2 + g3 + g4 + g5 + g6);
    assert(texts_view(fs@) =~~= attr_fields(*a));
    fs
}

impl Attribute {
    /// Serializes the attribute as its sparse JSON object, emitting only
    /// present fields in the fixed order fg, bg, bold, underline, inverse,
    /// blink.
    pub fn encode(&self) -> (r: String)
        ensures
            r@ == json_of_attr(*self),
    {
        let mut out: Vec<char> = Vec::new();
        self.encode_into(&mut out);
        chars_to_string(&out)
    }

    /// Appends the sparse JSON object of the attribute.
    pub fn encode_into(&self, out: &mut Vec<char>)
        ensures
            final(out)@ == old(out)@ + json_of_attr(*self),
    {
        let fs = attr_field_texts(self);
        out.push('{');
        push_joined(out, &fs);
        out.push('}');
        assert(out@ =~= old(out)@ + json_of_attr(*self));
    }
}

} // verus!
