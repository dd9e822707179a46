use terminal::attr::RawAttribute;
use terminal::color::ColorResolutionError;
use terminal::snapshot::{decode_char, DrawError, State};

fn plain_raw() -> RawAttribute {
    RawAttribute {
        fccode: -2,
        bccode: -2,
        fr: 0,
        fg: 0,
        fb: 0,
        br: 0,
        bg: 0,
        bb: 0,
        bold: false,
        underline: false,
        inverse: false,
        protect: false,
        blink: false,
    }
}

fn bold_raw() -> RawAttribute {
    let mut r = plain_raw();
    r.bold = true;
    r
}

#[test]
fn row_boundary_scenario() {
    let mut state = State::new();
    let attr_x = bold_raw();
    let attr_y = plain_raw();
    state.draw_cell('A' as u32, 0, &attr_x).unwrap();
    state.draw_cell('B' as u32, 0, &attr_x).unwrap();
    state.draw_cell('C' as u32, 1, &attr_y).unwrap();
    assert_eq!(state.encode(), "[[[\"AB\",{\"bold\":true}]],[[\"C\",{}]]]");
}

#[test]
fn equal_attributes_merge_into_one_run() {
    let mut state = State::new();
    let attr = bold_raw();
    state.draw_cell('x' as u32, 0, &attr).unwrap();
    state.draw_cell('y' as u32, 0, &attr).unwrap();
    state.draw_cell('z' as u32, 0, &attr).unwrap();
    assert_eq!(state.rendered.len(), 1);
    assert_eq!(state.rendered[0].len(), 1);
    assert_eq!(state.encode(), "[[[\"xyz\",{\"bold\":true}]]]");
}

#[test]
fn attribute_change_starts_a_new_run() {
    let mut state = State::new();
    state.draw_cell('a' as u32, 0, &bold_raw()).unwrap();
    state.draw_cell('b' as u32, 0, &plain_raw()).unwrap();
    state.draw_cell('c' as u32, 0, &bold_raw()).unwrap();
    assert_eq!(state.rendered[0].len(), 3);
    assert_eq!(
        state.encode(),
        "[[[\"a\",{\"bold\":true}],[\"b\",{}],[\"c\",{\"bold\":true}]]]"
    );
}

#[test]
fn blank_code_maps_to_space() {
    let mut state = State::new();
    let attr = plain_raw();
    state.draw_cell('a' as u32, 0, &attr).unwrap();
    state.draw_cell(0, 0, &attr).unwrap();
    state.draw_cell('b' as u32, 0, &attr).unwrap();
    assert_eq!(state.encode(), "[[[\"a b\",{}]]]");
}

#[test]
fn empty_snapshot_encodes_to_empty_array() {
    let state = State::new();
    assert_eq!(state.encode(), "[]");
}

#[test]
fn text_is_json_escaped() {
    let mut state = State::new();
    let attr = plain_raw();
    state.draw_cell('"' as u32, 0, &attr).unwrap();
    state.draw_cell('\\' as u32, 0, &attr).unwrap();
    state.draw_cell('\t' as u32, 0, &attr).unwrap();
    state.draw_cell(0x01, 0, &attr).unwrap();
    assert_eq!(state.encode(), "[[[\"\\\"\\\\\\t\\u0001\",{}]]]");
}

#[test]
fn invalid_char_code_is_fatal_and_leaves_state() {
    let mut state = State::new();
    let attr = plain_raw();
    state.draw_cell('a' as u32, 0, &attr).unwrap();
    let res = state.draw_cell(0xD800, 0, &attr);
    assert_eq!(res, Err(DrawError::InvalidCharCode(0xD800)));
    assert_eq!(state.encode(), "[[[\"a\",{}]]]");
}

#[test]
fn bad_color_is_fatal_and_leaves_state() {
    let mut state = State::new();
    let mut attr = plain_raw();
    attr.fccode = -1;
    attr.fr = 9;
    let res = state.draw_cell('a' as u32, 0, &attr);
    assert_eq!(res, Err(DrawError::Color(ColorResolutionError { value: 9 })));
    assert_eq!(state.encode(), "[]");
}

#[test]
fn push_if_same_merges_only_equal_attributes() {
    let mut state = State::new();
    state.draw_cell('a' as u32, 0, &bold_raw()).unwrap();
    let bold_attr = state.rendered[0][0].attr;
    assert!(state.push_if_same('b', bold_attr));
    let mut other = bold_attr;
    other.inverse = true;
    assert!(!state.push_if_same('c', other));
    state.push_new_cell('c', other);
    assert_eq!(state.encode(), "[[[\"ab\",{\"bold\":true}],[\"c\",{\"bold\":true,\"inverse\":true}]]]");
}

#[test]
fn decode_char_maps_codes() {
    assert_eq!(decode_char(0), Some(' '));
    assert_eq!(decode_char('A' as u32), Some('A'));
    assert_eq!(decode_char(0x263A), Some('\u{263A}'));
    assert_eq!(decode_char(0xD800), None);
    assert_eq!(decode_char(0x110000), None);
}

#[test]
fn non_ascii_text_passes_through() {
    let mut state = State::new();
    let attr = plain_raw();
    state.draw_cell(0x263A, 0, &attr).unwrap();
    assert_eq!(state.encode(), "[[[\"\u{263A}\",{}]]]");
}

#[test]
fn rgb_colors_flow_through_to_the_snapshot() {
    let mut state = State::new();
    let mut attr = plain_raw();
    attr.fccode = -1;
    attr.fr = 0x5f;
    attr.fg = 0x5f;
    attr.fb = 0x5f;
    attr.bccode = -1;
    attr.br = 18;
    attr.bg = 18;
    attr.bb = 18;
    state.draw_cell('q' as u32, 0, &attr).unwrap();
    assert_eq!(state.encode(), "[[[\"q\",{\"fg\":59,\"bg\":233}]]]");
}
