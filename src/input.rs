//! Keyboard and window state: reduces raw key codes to a small set of
//! modifiers, tells control characters from text, and records the window size
//! that the layout is resolved against.

use vstd::prelude::*;

verus! {

/// Determines which keys are pressed currently (modifiers, etc.)
#[derive(Debug)]
pub struct KeyboardState {
    /// Modifier keys that are currently actively pressed during this cycle
    pub modifiers: Vec<ReducedKbModifier>,
    /// Hidden keys, such as the "n" in CTRL + n. Always lowercase
    pub hidden_keys: Vec<char>,
    /// Actual keys pressed during this cycle (i.e. regular text input)
    pub keys: Vec<char>,
}

impl KeyboardState {
    /// Creates a state in which no key is pressed
    pub fn new() -> (s: Self)
        ensures
            s.modifiers@ == Seq::<ReducedKbModifier>::empty(),
            s.hidden_keys@ == Seq::<char>::empty(),
            s.keys@ == Seq::<char>::empty(),
    {
        Self { modifiers: Vec::new(), hidden_keys: Vec::new(), keys: Vec::new() }
    }
}

/// Keyboard modifier key, reduced set suited for desktop UIs.
/// Left and right variants of a key are one modifier; function keys carry
/// their number. Other keys are not modifiers.
#[derive(Debug, Copy, Clone, PartialEq, Eq, Structural)]
pub enum ReducedKbModifier {
    /// Function keys F1, F2, ...
    Fn(u8),
    /// The "Fn" modifier key
    Function,
    Alt,
    Shift,
    /// Kept apart from Alt, though it does what Alt + Shift does
    AltGr,
    /// "Super" or Windows key
    Super,
    Ctrl,
    RightClickMenu,
    Tab,
    Esc,
    Del,
    Return,
    Backspace,
    PgUp,
    PgDown,
    Home,
    End,
    Insert,
    ArrowUp,
    ArrowDown,
    ArrowLeft,
    ArrowRight,
}

/// State, size, etc of the window, for comparing to the last frame
#[derive(Debug, Copy, Clone, PartialEq, Eq, Structural)]
pub struct WindowState {
    pub width: u32,
    pub height: u32,
}

impl WindowState {
    /// Creates a new window state
    pub fn new(width: u32, height: u32) -> (s: Self)
        ensures
            s.width == width,
            s.height == height,
    {
        Self { width, height }
    }
}

/// Records the new size of the window
pub fn handle_resize(window: &mut WindowState, width: u32, height: u32)
    ensures
        final(window).width == width,
        final(window).height == height,
{
    window.width = width;
    window.height = height;
}

/// The modifier that a raw key code stands for, if any.
pub open spec fn modifier_of_code(key: u8) -> Option<ReducedKbModifier> {
    match key {
        9 => Some(ReducedKbModifier::Esc),
        23 => Some(ReducedKbModifier::Tab),
        67 => Some(ReducedKbModifier::Fn(1)),
        68 => Some(ReducedKbModifier::Fn(2)),
        69 => Some(ReducedKbModifier::Fn(3)),
        70 => Some(ReducedKbModifier::Fn(4)),
        71 => Some(ReducedKbModifier::Fn(5)),
        72 => Some(ReducedKbModifier::Fn(6)),
        73 => Some(ReducedKbModifier::Fn(7)),
        74 => Some(ReducedKbModifier::Fn(8)),
        75 => Some(ReducedKbModifier::Fn(9)),
        76 => Some(ReducedKbModifier::Fn(10)),
        95 => Some(ReducedKbModifier::Fn(11)),
        96 => Some(ReducedKbModifier::Fn(12)),
        108 => Some(ReducedKbModifier::AltGr),
        111 => Some(ReducedKbModifier::ArrowUp),
        116 => Some(ReducedKbModifier::ArrowDown),
        113 => Some(ReducedKbModifier::ArrowLeft),
        114 => Some(ReducedKbModifier::ArrowRight),
        112 => Some(ReducedKbModifier::PgUp),
        117 => Some(ReducedKbModifier::PgDown),
        118 => Some(ReducedKbModifier::Insert),
        119 => Some(ReducedKbModifier::Del),
        110 => Some(ReducedKbModifier::Home),
        115 => Some(ReducedKbModifier::End),
        133 => Some(ReducedKbModifier::Super),
        36 => Some(ReducedKbModifier::Return),
        64 => Some(ReducedKbModifier::Alt),
        135 => Some(ReducedKbModifier::RightClickMenu),
        22 => Some(ReducedKbModifier::Backspace),
        50 | 62 => Some(ReducedKbModifier::Shift),
        37 | 105 => Some(ReducedKbModifier::Ctrl),
        151 => Some(ReducedKbModifier::Function),
        _ => None,
    }
}

/// The letter that a control character stands for (as in CTRL + letter), if any.
pub open spec fn letter_of_control(key: u32) -> Option<char> {
    match key {
        25 => Some('y'),
        24 => Some('x'),
        22 => Some('v'),
        3 => Some('c'),
        13 => Some('m'),
        2 => Some('b'),
        14 => Some('n'),
        1 => Some('a'),
        19 => Some('s'),
        4 => Some('d'),
        6 => Some('f'),
        7 => Some('g'),
        8 => Some('h'),
        10 => Some('j'),
        11 => Some('k'),
        12 => Some('l'),
        39 => Some('\u{e4}'),
        45 => Some('\u{df}'),
        59 => Some('\u{f6}'),
        27 => Some('\u{fc}'),
        16 => Some('p'),
        15 => Some('o'),
        9 => Some('i'),
        21 => Some('u'),
        26 => Some('z'),
        20 => Some('t'),
        18 => Some('r'),
        5 => Some('e'),
        23 => Some('w'),
        17 => Some('q'),
        0 => Some('2'),
        28 => Some('4'),
        29 => Some('5'),
        30 => Some('6'),
        31 => Some('7'),
        32 => Some('8'),
        33 => Some('9'),
        _ => None,
    }
}

/// Checks if the key is really a modifier key, reduces the granularity
pub fn check_modifier_key_u8(key: u8) -> (r: Option<ReducedKbModifier>)
    ensures
        r == modifier_of_code(key),
{
    match key {
        9 => Some(ReducedKbModifier::Esc),
        23 => Some(ReducedKbModifier::Tab),
        67 => Some(ReducedKbModifier::Fn(1)),
        68 => Some(ReducedKbModifier::Fn(2)),
        69 => Some(ReducedKbModifier::Fn(3)),
        70 => Some(ReducedKbModifier::Fn(4)),
        71 => Some(ReducedKbModifier::Fn(5)),
        72 => Some(ReducedKbModifier::Fn(6)),
        73 => Some(ReducedKbModifier::Fn(7)),
        74 => Some(ReducedKbModifier::Fn(8)),
        75 => Some(ReducedKbModifier::Fn(9)),
        76 => Some(ReducedKbModifier::Fn(10)),
        95 => Some(ReducedKbModifier::Fn(11)),
        96 => Some(ReducedKbModifier::Fn(12)),
        108 => Some(ReducedKbModifier::AltGr),
        111 => Some(ReducedKbModifier::ArrowUp),
        116 => Some(ReducedKbModifier::ArrowDown),
        113 => Some(ReducedKbModifier::ArrowLeft),
        114 => Some(ReducedKbModifier::ArrowRight),
        112 => Some(ReducedKbModifier::PgUp),
        117 => Some(ReducedKbModifier::PgDown),
        118 => Some(ReducedKbModifier::Insert),
        119 => Some(ReducedKbModifier::Del),
        110 => Some(ReducedKbModifier::Home),
        115 => Some(ReducedKbModifier::End),
        133 => Some(ReducedKbModifier::Super),
        36 => Some(ReducedKbModifier::Return),
        64 => Some(ReducedKbModifier::Alt),
        135 => Some(ReducedKbModifier::RightClickMenu),
        22 => Some(ReducedKbModifier::Backspace),
        50 | 62 => Some(ReducedKbModifier::Shift),
        37 | 105 => Some(ReducedKbModifier::Ctrl),
        151 => Some(ReducedKbModifier::Function),
        _ => None,
    }
}

/// The letter that a character received as text stands for, when it is in
/// truth a control character typed together with a letter key.
/// The keyboard state is left as it is.
pub fn check_modifier_key_char(key: &char, keyboard: &mut KeyboardState) -> (r: Option<char>)
    ensures
        r == letter_of_control(*key as u32),
        *final(keyboard) == *old(keyboard),
{
    match *key as u32 {
        25 => Some('y'),
        24 => Some('x'),
        22 => Some('v'),
        3 => Some('c'),
        13 => Some('m'),
        2 => Some('b'),
        14 => Some('n'),
        1 => Some('a'),
        19 => Some('s'),
        4 => Some('d'),
        6 => Some('f'),
        7 => Some('g'),
        8 => Some('h'),
        10 => Some('j'),
        11 => Some('k'),
        12 => Some('l'),
        39 => Some('\u{e4}'),
        45 => Some('\u{df}'),
        59 => Some('\u{f6}'),
        27 => Some('\u{fc}'),
        16 => Some('p'),
        15 => Some('o'),
        9 => Some('i'),
        21 => Some('u'),
        26 => Some('z'),
        20 => Some('t'),
        18 => Some('r'),
        5 => Some('e'),
        23 => Some('w'),
        17 => Some('q'),
        0 => Some('2'),
        28 => Some('4'),
        29 => Some('5'),
        30 => Some('6'),
        31 => Some('7'),
        32 => Some('8'),
        33 => Some('9'),
        _ => None,
    }
}

/// Whether `v` holds `m`.
fn holds_modifier(v: &Vec<ReducedKbModifier>, m: ReducedKbModifier) -> (r: bool)
    ensures
        r == v@.contains(m),
{
    let mut i: usize = 0;
    while i < v.len()
        invariant
            0 <= i <= v@.len(),
            forall|j: int| 0 <= j < i ==> v@[j] != m,
        decreases v@.len() - i,
    {
        if v[i] == m {
            return true;
        }
        i = i + 1;
    }
    false
}

/// Whether `v` holds `c`.
fn holds_char(v: &Vec<char>, c: char) -> (r: bool)
    ensures
        r == v@.contains(c),
{
    let mut i: usize = 0;
    while i < v.len()
        invariant
            0 <= i <= v@.len(),
            forall|j: int| 0 <= j < i ==> v@[j] != c,
        decreases v@.len() - i,
    {
        if v[i] == c {
            return true;
        }
        i = i + 1;
    }
    false
}

/// `s` without the first occurrence of `m` (all of `s` when there is none).
pub open spec fn without_first<A>(s: Seq<A>, m: A) -> Seq<A> {
    if s.contains(m) {
        let j = choose|j: int| 0 <= j < s.len() && s[j] == m && forall|l: int| 0 <= l < j ==> s[l] != m;
        s.remove(j)
    } else {
        s
    }
}

/// `s` with `m` added at the end, unless it already holds `m`.
pub open spec fn with_once<A>(s: Seq<A>, m: A) -> Seq<A> {
    if s.contains(m) { s } else { s.push(m) }
}

/// Updates the pressed modifiers on a key press (`pressed`) or release.
/// A key that is no modifier leaves the state as it is. A pressed modifier is
/// recorded once; a released one is taken out.
pub fn handle_kb_input(keyboard: &mut KeyboardState, pressed: bool, code: u8)
    ensures
        final(keyboard).modifiers@ == match modifier_of_code(code) {
            Some(m) => if pressed {
                with_once(old(keyboard).modifiers@, m)
            } else {
                without_first(old(keyboard).modifiers@, m)
            },
            None => old(keyboard).modifiers@,
        },
        final(keyboard).hidden_keys == old(keyboard).hidden_keys,
        final(keyboard).keys == old(keyboard).keys,
{
    if let Some(m) = check_modifier_key_u8(code) {
        if pressed {
            if !holds_modifier(&keyboard.modifiers, m) {
                keyboard.modifiers.push(m);
            }
        } else {
            let mut i: usize = 0;
            let n = keyboard.modifiers.len();
            while i < n
                invariant
                    n == keyboard.modifiers@.len(),
                    modifier_of_code(code) == Some(m),
                    !pressed,
                    keyboard.modifiers@ == old(keyboard).modifiers@,
                    keyboard.hidden_keys == old(keyboard).hidden_keys,
                    keyboard.keys == old(keyboard).keys,
                    0 <= i <= n,
                    forall|l: int| 0 <= l < i ==> keyboard.modifiers@[l] != m,
                decreases n - i,
            {
                if keyboard.modifiers[i] == m {
                    proof {
                        let s = old(keyboard).modifiers@;
                        assert(0 <= i < s.len() && s[i as int] == m && forall|l: int| 0 <= l < i ==> s[l] != m);
                        assert(s.contains(m));
                        let j = choose|j: int| 0 <= j < s.len() && s[j] == m && forall|l: int| 0 <= l < j ==> s[l] != m;
                        assert(j == i as int) by {
                            if j < i {
                                assert(s[j] != m);
                            }
                            if i < j {
                                assert(s[i as int] != m);
                            }
                        }
                    }
                    keyboard.modifiers.remove(i);
                    assert(keyboard.modifiers@ == without_first(old(keyboard).modifiers@, m));
                    return;
                }
                i = i + 1;
            }
            proof {
                let s = old(keyboard).modifiers@;
                if s.contains(m) {
                    let j = choose|j: int| 0 <= j < s.len() && s[j] == m;
                    assert(s[j] != m);
                }
            }
        }
    }
}

/// Handles a character received as text: a control character standing for a
/// letter is recorded once among the hidden keys, any other character is
/// added to the typed keys.
pub fn handle_kb_char(keyboard: &mut KeyboardState, key: char)
    ensures
        match letter_of_control(key as u32) {
            Some(c) => {
                &&& final(keyboard).hidden_keys@ == with_once(old(keyboard).hidden_keys@, c)
                &&& final(keyboard).keys == old(keyboard).keys
            },
            None => {
                &&& final(keyboard).hidden_keys == old(keyboard).hidden_keys
                &&& final(keyboard).keys@ == old(keyboard).keys@.push(key)
            },
        },
        final(keyboard).modifiers == old(keyboard).modifiers,
{
    let modifier_char = check_modifier_key_char(&key, keyboard);
    if let Some(c) = modifier_char {
        if !holds_char(&keyboard.hidden_keys, c) {
            keyboard.hidden_keys.push(c);
        }
    } else {
        keyboard.keys.push(key);
    }
}

} // verus!
