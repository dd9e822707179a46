use terminal::color::{get_color, get_rgb_color, get_rgb_index, resolve, ColorResolutionError, ResolvedColor};

const LEVELS: [u8; 6] = [0x00, 0x5f, 0x87, 0xaf, 0xd7, 0xff];

#[test]
fn cube_triples_resolve_to_cube_entries() {
    for (ri, &r) in LEVELS.iter().enumerate() {
        for (gi, &g) in LEVELS.iter().enumerate() {
            for (bi, &b) in LEVELS.iter().enumerate() {
                let expected = 16 + (ri as u8) * 36 + (gi as u8) * 6 + (bi as u8);
                assert_eq!(resolve(-1, r, g, b), Ok(ResolvedColor::Palette(expected)));
            }
        }
    }
}

#[test]
fn cube_corner_values() {
    assert_eq!(resolve(-1, 0, 0, 0), Ok(ResolvedColor::Palette(16)));
    assert_eq!(resolve(-1, 255, 255, 255), Ok(ResolvedColor::Palette(231)));
}

#[test]
fn grayscale_ramp_resolves_to_ramp_entries() {
    let mut r: u8 = 8;
    loop {
        assert_eq!(resolve(-1, r, r, r), Ok(ResolvedColor::Palette(232 + (r - 8) / 10)));
        if r == 238 {
            break;
        }
        r += 10;
    }
    assert_eq!(resolve(-1, 8, 8, 8), Ok(ResolvedColor::Palette(232)));
    assert_eq!(resolve(-1, 238, 238, 238), Ok(ResolvedColor::Palette(255)));
}

#[test]
fn low_codes_resolve_to_indexed() {
    for code in 0..16i8 {
        assert_eq!(resolve(code, 1, 2, 3), Ok(ResolvedColor::Indexed(code as u8)));
    }
}

#[test]
fn out_of_range_codes_resolve_to_unset() {
    assert_eq!(resolve(16, 0, 0, 0), Ok(ResolvedColor::Unset));
    assert_eq!(resolve(127, 0, 0, 0), Ok(ResolvedColor::Unset));
    assert_eq!(resolve(-2, 0, 0, 0), Ok(ResolvedColor::Unset));
    assert_eq!(resolve(-128, 0, 0, 0), Ok(ResolvedColor::Unset));
}

#[test]
fn off_grid_channel_is_an_error() {
    assert_eq!(resolve(-1, 7, 7, 7), Err(ColorResolutionError { value: 7 }));
    assert_eq!(resolve(-1, 0, 3, 0), Err(ColorResolutionError { value: 3 }));
    assert_eq!(resolve(-1, 0, 0, 254), Err(ColorResolutionError { value: 254 }));
    // All channels equal and on the 8 + 10k grid, but past the last ramp
    // entry: falls through to the cube and fails there.
    assert_eq!(resolve(-1, 248, 248, 248), Err(ColorResolutionError { value: 248 }));
}

#[test]
fn first_bad_channel_is_reported() {
    assert_eq!(resolve(-1, 2, 3, 4), Err(ColorResolutionError { value: 2 }));
    assert_eq!(resolve(-1, 0x5f, 3, 4), Err(ColorResolutionError { value: 3 }));
    assert_eq!(resolve(-1, 0x5f, 0x87, 4), Err(ColorResolutionError { value: 4 }));
}

#[test]
fn rgb_index_is_exact_match_only() {
    assert_eq!(get_rgb_index(0x00), Ok(0));
    assert_eq!(get_rgb_index(0x5f), Ok(1));
    assert_eq!(get_rgb_index(0x87), Ok(2));
    assert_eq!(get_rgb_index(0xaf), Ok(3));
    assert_eq!(get_rgb_index(0xd7), Ok(4));
    assert_eq!(get_rgb_index(0xff), Ok(5));
    assert_eq!(get_rgb_index(0x5e), Err(ColorResolutionError { value: 0x5e }));
}

#[test]
fn rgb_color_grayscale_and_cube() {
    assert_eq!(get_rgb_color(18, 18, 18), Ok(233));
    assert_eq!(get_rgb_color(0x5f, 0x87, 0xd7), Ok(16 + 36 + 2 * 6 + 4));
    assert_eq!(get_rgb_color(9, 9, 9), Err(ColorResolutionError { value: 9 }));
}

#[test]
fn get_color_yields_numeric_form() {
    assert_eq!(get_color(-1, 0, 0, 0), Ok(Some(16)));
    assert_eq!(get_color(3, 0, 0, 0), Ok(Some(3)));
    assert_eq!(get_color(77, 0, 0, 0), Ok(None));
    assert_eq!(get_color(-1, 1, 1, 1), Err(ColorResolutionError { value: 1 }));
}
