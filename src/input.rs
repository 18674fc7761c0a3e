use vstd::prelude::*;

verus! {

/// The keys and mouse buttons that input can report.
#[derive(Clone, Copy, Debug, PartialEq, Eq, Structural)]
pub enum InputCode {
    Key1,
    Key2,
    Key3,
    Key4,
    Key5,
    Key6,
    Key7,
    Key8,
    Key9,
    Key0,
    A,
    B,
    C,
    D,
    E,
    F,
    G,
    H,
    I,
    J,
    K,
    L,
    M,
    N,
    O,
    P,
    Q,
    R,
    S,
    T,
    U,
    V,
    W,
    X,
    Y,
    Z,
    Escape,
    F1,
    F2,
    F3,
    F4,
    F5,
    F6,
    F7,
    F8,
    F9,
    F10,
    F11,
    F12,
    F13,
    F14,
    F15,
    F16,
    F17,
    F18,
    F19,
    F20,
    F21,
    F22,
    F23,
    F24,
    Snapshot,
    Scroll,
    Pause,
    Insert,
    Home,
    Delete,
    End,
    PageDown,
    PageUp,
    Left,
    Up,
    Right,
    Down,
    Back,
    Return,
    Space,
    Compose,
    Caret,
    Numlock,
    Numpad0,
    Numpad1,
    Numpad2,
    Numpad3,
    Numpad4,
    Numpad5,
    Numpad6,
    Numpad7,
    Numpad8,
    Numpad9,
    NumpadAdd,
    NumpadDivide,
    NumpadDecimal,
    NumpadComma,
    NumpadEnter,
    NumpadEquals,
    NumpadMultiply,
    NumpadSubtract,
    AbntC1,
    AbntC2,
    Apostrophe,
    Apps,
    Asterisk,
    At,
    Ax,
    Backslash,
    Calculator,
    Capital,
    Colon,
    Comma,
    Convert,
    Equals,
    Grave,
    Kana,
    Kanji,
    LAlt,
    LBracket,
    LControl,
    Shift,
    LWin,
    Mail,
    MediaSelect,
    MediaStop,
    Minus,
    Mute,
    MyComputer,
    NavigateForward,
    NavigateBackward,
    NextTrack,
    NoConvert,
    OEM102,
    Period,
    PlayPause,
    Plus,
    Power,
    PrevTrack,
    RAlt,
    RBracket,
    RControl,
    RWin,
    Semicolon,
    Slash,
    Sleep,
    Stop,
    Sysrq,
    Tab,
    Underline,
    Unlabeled,
    VolumeDown,
    VolumeUp,
    Wake,
    WebBack,
    WebFavorites,
    WebForward,
    WebHome,
    WebRefresh,
    WebSearch,
    WebStop,
    Yen,
    Copy,
    Paste,
    Cut,
    LMB,
    RMB,
    MMB,
    Invalid,
    Enter,
}

/// How many key states `Input` holds.
pub const KEY_COUNT: usize = 256;

impl InputCode {
    /// The slot of this key in `Input`'s key states.
    pub fn index(self) -> (r: usize)
        ensures
            r == self.spec_index(),
            r < KEY_COUNT,
    {
        self as usize
    }

    pub open spec fn spec_index(self) -> usize {
        self as usize
    }
}

/// The state of the keys and the mouse for one frame, and for the frame before.
pub struct Input {
    pub keys: [bool; 256],
    pub keys_previous: [bool; 256],
    pub last_char: Option<char>,
    pub mouse_x: i32,
    pub mouse_y: i32,
    pub mouse_raw_x: i32,
    pub mouse_raw_y: i32,
    pub mouse_raw_delta_x: i32,
    pub mouse_raw_delta_y: i32,
}

impl Input {
    /// Whether `key` is down in this frame.
    pub open spec fn down(&self, key: InputCode) -> bool {
        self.keys@[key.spec_index() as int]
    }

    /// Whether `key` was down in the frame before.
    pub open spec fn was_down(&self, key: InputCode) -> bool {
        self.keys_previous@[key.spec_index() as int]
    }

    /// Whether `key` went down in this frame.
    pub open spec fn is_pressed_spec(&self, key: InputCode) -> bool {
        self.down(key) && !self.was_down(key)
    }

    /// Whether `key` came up in this frame.
    pub open spec fn is_released_spec(&self, key: InputCode) -> bool {
        !self.down(key) && self.was_down(key)
    }

    /// No key down, no character, the mouse at the origin.
    pub fn new() -> (r: Self)
        ensures
            forall|i: int| 0 <= i < 256 ==> !r.keys@[i] && !r.keys_previous@[i],
            r.last_char.is_none(),
            r.mouse_x == 0 && r.mouse_y == 0,
            r.mouse_raw_x == 0 && r.mouse_raw_y == 0,
            r.mouse_raw_delta_x == 0 && r.mouse_raw_delta_y == 0,
    {
        Input {
            keys: [false; 256],
            keys_previous: [false; 256],
            last_char: None,
            mouse_x: 0,
            mouse_y: 0,
            mouse_raw_x: 0,
            mouse_raw_y: 0,
            mouse_raw_delta_x: 0,
            mouse_raw_delta_y: 0,
        }
    }

    /// Whether `key` went down in this frame.
    pub fn is_pressed(&self, key: InputCode) -> (r: bool)
        ensures
            r == self.is_pressed_spec(key),
    {
        let key = key.index();
        self.keys[key] && !self.keys_previous[key]
    }

    /// Whether `key` is down.
    pub fn is_held(&self, key: InputCode) -> (r: bool)
        ensures
            r == self.down(key),
    {
        let key = key.index();
        self.keys[key]
    }

    /// Whether `key` came up in this frame.
    pub fn is_released(&self, key: InputCode) -> (r: bool)
        ensures
            r == self.is_released_spec(key),
    {
        let key = key.index();
        !self.keys[key] && self.keys_previous[key]
    }

    /// Takes the mouse position in window coordinates and the raw device
    /// position, whose change since the last call becomes the raw delta.
    pub fn update_mouse(&mut self, normal: (i32, i32), raw: (i32, i32))
        requires
            i32::MIN <= raw.0 - old(self).mouse_raw_x <= i32::MAX,
            i32::MIN <= raw.1 - old(self).mouse_raw_y <= i32::MAX,
        ensures
            final(self).mouse_x == normal.0 && final(self).mouse_y == normal.1,
            final(self).mouse_raw_delta_x == raw.0 - old(self).mouse_raw_x,
            final(self).mouse_raw_delta_y == raw.1 - old(self).mouse_raw_y,
            final(self).mouse_raw_x == raw.0 && final(self).mouse_raw_y == raw.1,
            final(self).keys == old(self).keys,
            final(self).keys_previous == old(self).keys_previous,
            final(self).last_char == old(self).last_char,
    {
        self.mouse_x = normal.0;
        self.mouse_y = normal.1;
        self.mouse_raw_delta_x = raw.0 - self.mouse_raw_x;
        self.mouse_raw_x = raw.0;
        self.mouse_raw_delta_y = raw.1 - self.mouse_raw_y;
        self.mouse_raw_y = raw.1;
    }

    /// Ends a frame: the keys become the previous frame's keys, and the
    /// character and the raw mouse delta are cleared.
    pub fn reset(&mut self)
        ensures
            final(self).keys == old(self).keys,
            final(self).keys_previous == old(self).keys,
            final(self).last_char.is_none(),
            final(self).mouse_raw_delta_x == 0 && final(self).mouse_raw_delta_y == 0,
            final(self).mouse_x == old(self).mouse_x && final(self).mouse_y == old(self).mouse_y,
            final(self).mouse_raw_x == old(self).mouse_raw_x,
            final(self).mouse_raw_y == old(self).mouse_raw_y,
    {
        self.last_char = None;
        self.mouse_raw_delta_x = 0;
        self.mouse_raw_delta_y = 0;
        self.keys_previous = self.keys;
    }

    /// Records whether `key` is down.
    pub fn set_key(&mut self, key: InputCode, pressed: bool)
        ensures
            final(self).keys@ == old(self).keys@.update(key.spec_index() as int, pressed),
            final(self).keys_previous == old(self).keys_previous,
            final(self).last_char == old(self).last_char,
            final(self).mouse_x == old(self).mouse_x && final(self).mouse_y == old(self).mouse_y,
            final(self).mouse_raw_x == old(self).mouse_raw_x,
            final(self).mouse_raw_y == old(self).mouse_raw_y,
            final(self).mouse_raw_delta_x == old(self).mouse_raw_delta_x,
            final(self).mouse_raw_delta_y == old(self).mouse_raw_delta_y,
    {
        let key = key.index();
        self.keys[key] = pressed;
    }
}

} // verus!
