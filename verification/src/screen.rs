//! The library's model of the emulation-engine session: the handles the
//! host process pairs with the engine's screen and parser objects, the
//! setup decision chain, the engine's error taxonomy, and the cursor state
//! read per cursor query.
//!
//! The engine itself lives outside this library; the host performs the
//! engine calls and hands their plain outcomes (status codes, flag words,
//! cursor coordinates) to the functions here, which own every decision
//! made from them.

use vstd::prelude::*;

use crate::json::{chars_to_string, dec_str, push_dec_u32, push_str_chars};

verus! {

/// The engine's screen-wide mode flags, in bit order.
#[derive(Clone, Copy, PartialEq, Eq, Structural, Debug)]
pub enum ScreenFlags {
    InsertMode,
    AutoWrap,
    RelOrigin,
    Inverse,
    HideCursor,
    FixedPos,
    Alternate,
}

/// The bit position a screen flag occupies in the engine's flag word.
pub open spec fn spec_screen_flag_index(f: ScreenFlags) -> nat {
    match f {
        ScreenFlags::InsertMode => 0,
        ScreenFlags::AutoWrap => 1,
        ScreenFlags::RelOrigin => 2,
        ScreenFlags::Inverse => 3,
        ScreenFlags::HideCursor => 4,
        ScreenFlags::FixedPos => 5,
        ScreenFlags::Alternate => 6,
    }
}

impl ScreenFlags {
    /// The bit position of this flag in the engine's flag word.
    pub fn to_uint(&self) -> (r: usize)
        ensures
            r == spec_screen_flag_index(*self),
    {
        match self {
            ScreenFlags::InsertMode => 0,
            ScreenFlags::AutoWrap => 1,
            ScreenFlags::RelOrigin => 2,
            ScreenFlags::Inverse => 3,
            ScreenFlags::HideCursor => 4,
            ScreenFlags::FixedPos => 5,
            ScreenFlags::Alternate => 6,
        }
    }

    /// The screen flag at a bit position.
    pub fn from_uint(v: usize) -> (r: ScreenFlags)
        requires
            v < 7,
        ensures
            spec_screen_flag_index(r) == v,
    {
        if v == 0 {
            ScreenFlags::InsertMode
        } else if v == 1 {
            ScreenFlags::AutoWrap
        } else if v == 2 {
            ScreenFlags::RelOrigin
        } else if v == 3 {
            ScreenFlags::Inverse
        } else if v == 4 {
            ScreenFlags::HideCursor
        } else if v == 5 {
            ScreenFlags::FixedPos
        } else {
            ScreenFlags::Alternate
        }
    }
}

/// Whether the bit at `idx` is set in the engine's flag word.
pub open spec fn spec_flag_set(flags: u32, idx: nat) -> bool {
    flags & (1u32 << idx) != 0
}

/// Whether one screen flag is set in the engine's flag word.
pub fn screen_flag_set(flags: u32, flag: ScreenFlags) -> (r: bool)
    ensures
        r == spec_flag_set(flags, spec_screen_flag_index(flag)),
{
    let idx = flag.to_uint();
    flags & (1u32 << (idx as u32)) != 0
}

/// Whether the cursor is visible, read off the engine's flag word: visible
/// unless the hide-cursor flag is set.
pub fn cursor_visible(flags: u32) -> (r: bool)
    ensures
        r == !spec_flag_set(flags, spec_screen_flag_index(ScreenFlags::HideCursor)),
{
    !screen_flag_set(flags, ScreenFlags::HideCursor)
}

/// The engine's setup error taxonomy.
#[derive(Clone, Copy, PartialEq, Eq, Structural, Debug)]
pub enum ScreenError {
    OutOfMemory,
    InvalidArgument,
    UnknownError,
}

/// The error a positive engine status code stands for: the engine reports
/// errno values, of which out-of-memory (12) and invalid-argument (22) are
/// distinguished.
pub open spec fn spec_error(err: i32) -> ScreenError {
    if err == 12 {
        ScreenError::OutOfMemory
    } else if err == 22 {
        ScreenError::InvalidArgument
    } else {
        ScreenError::UnknownError
    }
}

/// Classifies a positive engine status code.
pub fn error(err: i32) -> (r: ScreenError)
    ensures
        r == spec_error(err),
{
    if err == 12 {
        ScreenError::OutOfMemory
    } else if err == 22 {
        ScreenError::InvalidArgument
    } else {
        ScreenError::UnknownError
    }
}

/// The library's record of the engine's screen object; the engine object
/// itself lives in the host process, which pairs it with this handle.
#[derive(Clone, Copy, PartialEq, Eq, Structural, Debug)]
pub struct Screen {
    /// The identifier the host assigned to the engine's screen object.
    pub handle: usize,
}

impl Screen {
    /// Wraps the host's identifier for an opened screen object.
    pub fn new(handle: usize) -> (s: Screen)
        ensures
            s.handle == handle,
    {
        Screen { handle }
    }
}

/// The library's record of the engine's escape-sequence parser object.
#[derive(Clone, Copy, PartialEq, Eq, Structural, Debug)]
pub struct Vte {
    /// The identifier the host assigned to the engine's parser object.
    pub handle: usize,
}

impl Vte {
    /// Wraps the host's identifier for a created parser object.
    pub fn new(handle: usize) -> (v: Vte)
        ensures
            v.handle == handle,
    {
        Vte { handle }
    }
}

/// The setup decision chain: the engine's screen is opened, resized, and
/// given a parser, in that order, and the first step whose status code is
/// positive aborts setup with that step's error. The later codes are only
/// meaningful — and are only read — when every earlier step succeeded.
pub fn setup_screen(
    screen_handle: usize,
    vte_handle: usize,
    open_code: i32,
    resize_code: i32,
    vte_code: i32,
) -> (res: Result<(Screen, Vte), ScreenError>)
    ensures
        open_code > 0 ==> res == Err::<(Screen, Vte), ScreenError>(spec_error(open_code)),
        open_code <= 0 && resize_code > 0 ==> res == Err::<(Screen, Vte), ScreenError>(
            spec_error(resize_code),
        ),
        open_code <= 0 && resize_code <= 0 && vte_code > 0 ==> res == Err::<
            (Screen, Vte),
            ScreenError,
        >(spec_error(vte_code)),
        open_code <= 0 && resize_code <= 0 && vte_code <= 0 ==> (res matches Ok(p) && p.0.handle
            == screen_handle && p.1.handle == vte_handle),
{
    if open_code > 0 {
        Err(error(open_code))
    } else if resize_code > 0 {
        Err(error(resize_code))
    } else if vte_code > 0 {
        Err(error(vte_code))
    } else {
        Ok((Screen::new(screen_handle), Vte::new(vte_handle)))
    }
}

/// The cursor's position and visibility, read fresh from the engine per
/// cursor query and never cached.
#[derive(Clone, Copy, PartialEq, Eq, Structural, Debug)]
pub struct CursorState {
    pub x: u32,
    pub y: u32,
    pub visible: bool,
}

/// A cursor state serialized as `{"x":<x>,"y":<y>,"visible":<visible>}`.
pub open spec fn json_of_cursor(c: CursorState) -> Seq<char> {
    "{\"x\":"@ + dec_str(c.x as nat) + ",\"y\":"@ + dec_str(c.y as nat) + ",\"visible\":"@ + (
    if c.visible {
        "true"@
    } else {
        "false"@
    }) + seq!['}']
}

impl CursorState {
    /// Bundles one cursor reading.
    pub fn new(x: u32, y: u32, visible: bool) -> (c: CursorState)
        ensures
            c == (CursorState { x, y, visible }),
    {
        CursorState { x, y, visible }
    }

    /// Serializes the cursor state as one JSON object; all three fields are
    /// always present.
    pub fn encode(&self) -> (r: String)
        ensures
            r@ == json_of_cursor(*self),
    {
        let mut out: Vec<char> = Vec::new();
        push_str_chars(&mut out, "{\"x\":");
        push_dec_u32(&mut out, self.x);
        push_str_chars(&mut out, ",\"y\":");
        push_dec_u32(&mut out, self.y);
        push_str_chars(&mut out, ",\"visible\":");
        if self.visible {
            push_str_chars(&mut out, "true");
        } else {
            push_str_chars(&mut out, "false");
        }
        out.push('}');
        assert(out@ =~= json_of_cursor(*self));
        chars_to_string(&out)
    }
}

} // verus!
