//! Color resolution: mapping the engine's raw color encoding (an indexed
//! color code, or an RGB triple when the code is -1) to a canonical
//! 256-color palette entry.
//!
//! The engine reports RGB triples that are expected to sit exactly on the
//! standard palette's grid: either one of the 24 grayscale-ramp levels
//! (8, 18, ..., 238, palette entries 232..=255) or, per channel, one of the
//! six color-cube levels (0x00, 0x5f, 0x87, 0xaf, 0xd7, 0xff, palette
//! entries 16..=231). A triple off that grid is malformed upstream data and
//! resolves to an explicit error rather than a silent default.

use vstd::prelude::*;

verus! {

/// A raw channel value that matches none of the six color-cube levels.
#[derive(Clone, Copy, PartialEq, Eq, Structural, Debug)]
pub struct ColorResolutionError {
    /// The channel value that failed the exact-match lookup.
    pub value: u8,
}

/// Canonical outcome of color resolution: no color set, one of the 16
/// directly indexed colors, or an entry of the extended 256-color palette.
#[derive(Clone, Copy, PartialEq, Eq, Structural, Debug)]
pub enum ResolvedColor {
    Unset,
    Indexed(u8),
    Palette(u8),
}

/// The six color-cube channel levels, in ascending order.
pub open spec fn is_cube_level(v: u8) -> bool {
    v == 0x00 || v == 0x5f || v == 0x87 || v == 0xaf || v == 0xd7 || v == 0xff
}

/// Position (0..=5) of a channel value among the six cube levels.
pub open spec fn cube_pos(v: u8) -> int {
    if v == 0x00 {
        0
    } else if v == 0x5f {
        1
    } else if v == 0x87 {
        2
    } else if v == 0xaf {
        3
    } else if v == 0xd7 {
        4
    } else {
        5
    }
}

/// A triple lies on the grayscale ramp: all channels equal and of the form
/// 8 + 10*k for k in 0..=23.
pub open spec fn is_grayscale(r: u8, g: u8, b: u8) -> bool {
    r == g && g == b && 8 <= r <= 238 && (r - 8) % 10 == 0
}

/// Palette entry of a grayscale-ramp triple (232..=255).
pub open spec fn grayscale_entry(r: u8) -> int
    recommends
        8 <= r <= 238,
{
    232 + (r - 8) / 10
}

/// Palette entry of a color-cube triple (16..=231).
pub open spec fn cube_entry(r: u8, g: u8, b: u8) -> int
    recommends
        is_cube_level(r) && is_cube_level(g) && is_cube_level(b),
{
    16 + cube_pos(r) * 36 + cube_pos(g) * 6 + cube_pos(b)
}

/// Position of `value` among the six cube levels, by exact match; an exact
/// match is required of well-formed engine output, so a miss is an error.
pub fn get_rgb_index(value: u8) -> (res: Result<u8, ColorResolutionError>)
    ensures
        is_cube_level(value) ==> res == Ok::<u8, ColorResolutionError>(cube_pos(value) as u8),
        !is_cube_level(value) ==> res == Err::<u8, ColorResolutionError>(
            ColorResolutionError { value },
        ),
{
    if value == 0x00 {
        Ok(0)
    } else if value == 0x5f {
        Ok(1)
    } else if value == 0x87 {
        Ok(2)
    } else if value == 0xaf {
        Ok(3)
    } else if value == 0xd7 {
        Ok(4)
    } else if value == 0xff {
        Ok(5)
    } else {
        Err(ColorResolutionError { value })
    }
}

/// Reconstructs the 256-color palette entry of an RGB triple: a
/// grayscale-ramp entry when all channels are equal and land on the ramp,
/// otherwise a color-cube entry from the per-channel level positions.
/// Channels are checked left to right, so the first off-grid channel is the
/// one reported.
pub fn get_rgb_color(r: u8, g: u8, b: u8) -> (res: Result<u8, ColorResolutionError>)
    ensures
        is_grayscale(r, g, b) ==> res == Ok::<u8, ColorResolutionError>(grayscale_entry(r) as u8),
        !is_grayscale(r, g, b) && is_cube_level(r) && is_cube_level(g) && is_cube_level(b)
            ==> res == Ok::<u8, ColorResolutionError>(cube_entry(r, g, b) as u8),
        !is_grayscale(r, g, b) && !is_cube_level(r) ==> res == Err::<u8, ColorResolutionError>(
            ColorResolutionError { value: r },
        ),
        !is_grayscale(r, g, b) && is_cube_level(r) && !is_cube_level(g) ==> res == Err::<
            u8,
            ColorResolutionError,
        >(ColorResolutionError { value: g }),
        !is_grayscale(r, g, b) && is_cube_level(r) && is_cube_level(g) && !is_cube_level(b)
            ==> res == Err::<u8, ColorResolutionError>(ColorResolutionError { value: b }),
{
    if r == g && g == b && r >= 8 && r <= 238 && (r - 8) % 10 == 0 {
        Ok(232 + (r - 8) / 10)
    } else {
        let ri = get_rgb_index(r)?;
        let gi = get_rgb_index(g)?;
        let bi = get_rgb_index(b)?;
        Ok(16 + ri * 36 + gi * 6 + bi)
    }
}

/// What `resolve` returns on every input, as a single spec-level function.
pub open spec fn spec_resolve(code: i8, r: u8, g: u8, b: u8) -> Result<
    ResolvedColor,
    ColorResolutionError,
> {
    if code == -1 {
        if is_grayscale(r, g, b) {
            Ok(ResolvedColor::Palette(grayscale_entry(r) as u8))
        } else if is_cube_level(r) && is_cube_level(g) && is_cube_level(b) {
            Ok(ResolvedColor::Palette(cube_entry(r, g, b) as u8))
        } else if !is_cube_level(r) {
            Err(ColorResolutionError { value: r })
        } else if !is_cube_level(g) {
            Err(ColorResolutionError { value: g })
        } else {
            Err(ColorResolutionError { value: b })
        }
    } else if 0 <= code < 16 {
        Ok(ResolvedColor::Indexed(code as u8))
    } else {
        Ok(ResolvedColor::Unset)
    }
}

/// Resolves the engine's raw color encoding: `code == -1` asks for palette
/// reconstruction from the RGB triple, `0..=15` is a directly indexed
/// color, and anything else (including the engine's "no color" sentinel)
/// means no color is set.
pub fn resolve(code: i8, r: u8, g: u8, b: u8) -> (res: Result<
    ResolvedColor,
    ColorResolutionError,
>)
    ensures
        res == spec_resolve(code, r, g, b),
        res matches Ok(ResolvedColor::Palette(p)) ==> 16 <= p <= 255,
        res matches Ok(ResolvedColor::Indexed(c)) ==> c < 16,
{
    if code == -1 {
        match get_rgb_color(r, g, b) {
            Ok(entry) => Ok(ResolvedColor::Palette(entry)),
            Err(e) => Err(e),
        }
    } else if code >= 0 && code < 16 {
        Ok(ResolvedColor::Indexed(code as u8))
    } else {
        Ok(ResolvedColor::Unset)
    }
}

/// Numeric form of a resolved color, as it appears in serialized output:
/// `None` for no color, otherwise the palette or index value (0..=255).
pub open spec fn spec_color_number(c: ResolvedColor) -> Option<u8> {
    match c {
        ResolvedColor::Unset => None,
        ResolvedColor::Indexed(v) => Some(v),
        ResolvedColor::Palette(v) => Some(v),
    }
}

/// Resolves a raw color straight to its numeric serialized form.
pub fn get_color(code: i8, r: u8, g: u8, b: u8) -> (res: Result<Option<u8>, ColorResolutionError>)
    ensures
        res matches Ok(n) ==> spec_resolve(code, r, g, b) matches Ok(c) && n == spec_color_number(
            c,
        ),
        res matches Err(e) ==> spec_resolve(code, r, g, b) == Err::<
            ResolvedColor,
            ColorResolutionError,
        >(e),
{
    match resolve(code, r, g, b) {
        Ok(ResolvedColor::Unset) => Ok(None),
        Ok(ResolvedColor::Indexed(v)) => Ok(Some(v)),
        Ok(ResolvedColor::Palette(v)) => Ok(Some(v)),
        Err(e) => Err(e),
    }
}


/// Every triple whose channels all sit on the six cube levels resolves,
/// under the RGB code, to the cube entry `16 + pos(r)*36 + pos(g)*6 +
/// pos(b)`: no such triple is ever taken for a grayscale-ramp entry.
pub proof fn lemma_cube_triple_resolution(r: u8, g: u8, b: u8)
    requires
        is_cube_level(r),
        is_cube_level(g),
        is_cube_level(b),
    ensures
        spec_resolve(-1i8, r, g, b) == Ok::<ResolvedColor, ColorResolutionError>(
            ResolvedColor::Palette(cube_entry(r, g, b) as u8),
        ),
{
    assert(!is_grayscale(r, g, b));
}

/// Every equal-channel triple on the grayscale ramp (8, 18, ..., 238)
/// resolves, under the RGB code, to the ramp entry `232 + (r - 8) / 10`.
pub proof fn lemma_grayscale_resolution(r: u8)
    requires
        8 <= r <= 238,
        (r - 8) % 10 == 0,
    ensures
        spec_resolve(-1i8, r, r, r) == Ok::<ResolvedColor, ColorResolutionError>(
            ResolvedColor::Palette(grayscale_entry(r) as u8),
        ),
{
}

/// Every color code in 0..=15 resolves to that directly indexed color,
/// whatever the RGB triple holds.
pub proof fn lemma_indexed_resolution(code: i8, r: u8, g: u8, b: u8)
    requires
        0 <= code < 16,
    ensures
        spec_resolve(code, r, g, b) == Ok::<ResolvedColor, ColorResolutionError>(
            ResolvedColor::Indexed(code as u8),
        ),
{
}

} // verus!
