use terminal::screen::{
    cursor_visible, error, screen_flag_set, setup_screen, CursorState, Screen, ScreenError,
    ScreenFlags, Vte,
};

#[test]
fn cursor_scenario_emits_exact_json() {
    let c = CursorState::new(5, 2, false);
    assert_eq!(c.encode(), "{\"x\":5,\"y\":2,\"visible\":false}");
}

#[test]
fn visible_cursor_encodes_true() {
    let c = CursorState::new(0, 0, true);
    assert_eq!(c.encode(), "{\"x\":0,\"y\":0,\"visible\":true}");
}

#[test]
fn large_coordinates_encode_in_decimal() {
    let c = CursorState::new(4294967295, 1000, true);
    assert_eq!(c.encode(), "{\"x\":4294967295,\"y\":1000,\"visible\":true}");
}

#[test]
fn cursor_visibility_follows_hide_flag() {
    assert!(cursor_visible(0));
    assert!(!cursor_visible(1 << 4));
    assert!(cursor_visible(1 | (1 << 1) | (1 << 6)));
    assert!(!cursor_visible(0x7f));
}

#[test]
fn screen_flag_bits() {
    let flags: u32 = (1 << 2) | (1 << 4);
    assert!(!screen_flag_set(flags, ScreenFlags::InsertMode));
    assert!(screen_flag_set(flags, ScreenFlags::RelOrigin));
    assert!(screen_flag_set(flags, ScreenFlags::HideCursor));
    assert!(!screen_flag_set(flags, ScreenFlags::Alternate));
}

#[test]
fn screen_flag_positions_round_trip() {
    let flags = [
        ScreenFlags::InsertMode,
        ScreenFlags::AutoWrap,
        ScreenFlags::RelOrigin,
        ScreenFlags::Inverse,
        ScreenFlags::HideCursor,
        ScreenFlags::FixedPos,
        ScreenFlags::Alternate,
    ];
    for (i, f) in flags.iter().enumerate() {
        assert_eq!(f.to_uint(), i);
        assert_eq!(ScreenFlags::from_uint(i), *f);
    }
}

#[test]
fn status_codes_classify_to_error_kinds() {
    assert_eq!(error(12), ScreenError::OutOfMemory);
    assert_eq!(error(22), ScreenError::InvalidArgument);
    assert_eq!(error(1), ScreenError::UnknownError);
    assert_eq!(error(255), ScreenError::UnknownError);
}

#[test]
fn setup_succeeds_when_every_step_does() {
    let (s, v) = setup_screen(7, 9, 0, 0, 0).unwrap();
    assert_eq!(s.handle, 7);
    assert_eq!(v.handle, 9);
}

#[test]
fn setup_reports_the_first_failing_step() {
    assert_eq!(setup_screen(1, 2, 12, 0, 0), Err(ScreenError::OutOfMemory));
    assert_eq!(setup_screen(1, 2, 0, 22, 0), Err(ScreenError::InvalidArgument));
    assert_eq!(setup_screen(1, 2, 0, 0, 5), Err(ScreenError::UnknownError));
    assert_eq!(setup_screen(1, 2, 12, 22, 5), Err(ScreenError::OutOfMemory));
}

#[test]
fn handles_wrap_as_given() {
    assert_eq!(Screen::new(42).handle, 42);
    assert_eq!(Vte::new(17).handle, 17);
}
