//! The bytes that keys send.

use vstd::prelude::*;

verus! {

/// A key that was pressed.
#[derive(Debug, Clone, Copy, PartialEq, Eq, Structural)]
pub enum KeyCode {
    Char(char),
    Enter,
    Backspace,
    Tab,
    Esc,
    Up,
    Down,
    Right,
    Left,
    Home,
    End,
    PageUp,
    PageDown,
    Insert,
    Delete,
    /// A function key, by its number.
    F(u8),
    /// A key that sends nothing.
    Other,
}

/// Arrow key directions.
#[derive(Debug, Clone, Copy, PartialEq, Eq, Structural)]
pub enum Arrow {
    Up,
    Down,
    Left,
    Right,
}

impl Arrow {
    /// The key with an arrow in this direction.
    pub fn key(self) -> (res: KeyCode)
        ensures
            res == match self {
                Arrow::Up => KeyCode::Up,
                Arrow::Down => KeyCode::Down,
                Arrow::Left => KeyCode::Left,
                Arrow::Right => KeyCode::Right,
            },
    {
        match self {
            Arrow::Up => KeyCode::Up,
            Arrow::Down => KeyCode::Down,
            Arrow::Left => KeyCode::Left,
            Arrow::Right => KeyCode::Right,
        }
    }
}

/// The control character for a lower case letter: its place in the alphabet.
pub open spec fn control_byte(ch: char) -> u8 {
    (ch as int - 'a' as int + 1) as u8
}

/// Whether a character is a lower case letter of ASCII.
pub open spec fn is_lowercase(ch: char) -> bool {
    'a' as int <= ch as int <= 'z' as int
}

/// The low eight bits of a character.
pub open spec fn low_byte(ch: char) -> u8 {
    (ch as int % 256) as u8
}

/// The escape sequence that starts with `ESC [`.
pub open spec fn csi(rest: Seq<u8>) -> Seq<u8> {
    seq![0x1bu8, 0x5b] + rest
}

/// The bytes for a function key; there are twelve of them. The first four are single letters after
/// `ESC O`, the others are numbers.
pub open spec fn function_bytes(n: u8) -> Seq<u8> {
    if 1 <= n <= 4 {
        seq![0x1bu8, 0x4f, (0x4f + n) as u8]
    } else if n == 5 {
        csi(seq![0x31u8, 0x35, 0x7e])
    } else if 6 <= n <= 8 {
        csi(seq![0x31u8, (0x31 + n) as u8, 0x7e])
    } else if 9 <= n <= 10 {
        csi(seq![0x32u8, (0x27 + n) as u8, 0x7e])
    } else if 11 <= n <= 12 {
        csi(seq![0x32u8, (0x28 + n) as u8, 0x7e])
    } else {
        seq![]
    }
}

/// The bytes that a key sends, where control or alt may be held down.
pub open spec fn bytes_for(code: KeyCode, control: bool, alt: bool) -> Seq<u8> {
    match code {
        KeyCode::Char(ch) => if control && is_lowercase(ch) {
            seq![control_byte(ch)]
        } else if alt {
            seq![0x1bu8, low_byte(ch)]
        } else {
            seq![low_byte(ch)]
        },
        KeyCode::Enter => seq![0x0du8],
        KeyCode::Backspace => seq![0x7fu8],
        KeyCode::Tab => seq![0x09u8],
        KeyCode::Esc => seq![0x1bu8],
        KeyCode::Up => csi(seq![0x41u8]),
        KeyCode::Down => csi(seq![0x42u8]),
        KeyCode::Right => csi(seq![0x43u8]),
        KeyCode::Left => csi(seq![0x44u8]),
        KeyCode::Home => csi(seq![0x48u8]),
        KeyCode::End => csi(seq![0x46u8]),
        KeyCode::PageUp => csi(seq![0x35u8, 0x7e]),
        KeyCode::PageDown => csi(seq![0x36u8, 0x7e]),
        KeyCode::Insert => csi(seq![0x32u8, 0x7e]),
        KeyCode::Delete => csi(seq![0x33u8, 0x7e]),
        KeyCode::F(n) => function_bytes(n),
        KeyCode::Other => seq![],
    }
}

/// The escape sequence that starts with `ESC [` and ends with one byte.
fn letter_sequence(last: u8) -> (res: Vec<u8>)
    ensures
        res@ == csi(seq![last]),
{
    let res = vec![0x1b, 0x5b, last];
    assert(res@ =~= csi(seq![last]));
    res
}

/// The escape sequence that starts with `ESC [` and ends with a digit and a tilde.
fn digit_sequence(digit: u8) -> (res: Vec<u8>)
    ensures
        res@ == csi(seq![digit, 0x7e]),
{
    let res = vec![0x1b, 0x5b, digit, 0x7e];
    assert(res@ =~= csi(seq![digit, 0x7e]));
    res
}

/// The escape sequence that starts with `ESC [` and ends with two digits and a tilde.
fn two_digit_sequence(tens: u8, ones: u8) -> (res: Vec<u8>)
    ensures
        res@ == csi(seq![tens, ones, 0x7e]),
{
    let res = vec![0x1b, 0x5b, tens, ones, 0x7e];
    assert(res@ =~= csi(seq![tens, ones, 0x7e]));
    res
}

/// The bytes for a function key.
fn function_key(n: u8) -> (res: Vec<u8>)
    ensures
        res@ == function_bytes(n),
{
    match n {
        1 => vec![0x1b, 0x4f, 0x50],
        2 => vec![0x1b, 0x4f, 0x51],
        3 => vec![0x1b, 0x4f, 0x52],
        4 => vec![0x1b, 0x4f, 0x53],
        5 => two_digit_sequence(0x31, 0x35),
        6 => two_digit_sequence(0x31, 0x37),
        7 => two_digit_sequence(0x31, 0x38),
        8 => two_digit_sequence(0x31, 0x39),
        9 => two_digit_sequence(0x32, 0x30),
        10 => two_digit_sequence(0x32, 0x31),
        11 => two_digit_sequence(0x32, 0x33),
        12 => two_digit_sequence(0x32, 0x34),
        _ => Vec::new(),
    }
}

/// The bytes that a key sends, where control or alt may be held down.
pub fn key_bytes(code: KeyCode, control: bool, alt: bool) -> (res: Vec<u8>)
    ensures
        res@ == bytes_for(code, control, alt),
{
    match code {
        KeyCode::Char(ch) => {
            let low: u8 = (ch as u32 % 256) as u8;
            if control && ch >= 'a' && ch <= 'z' {
                vec![low - 0x61 + 1]
            } else if alt {
                vec![0x1b, low]
            } else {
                vec![low]
            }
        },
        KeyCode::Enter => vec![0x0d],
        KeyCode::Backspace => vec![0x7f],
        KeyCode::Tab => vec![0x09],
        KeyCode::Esc => vec![0x1b],
        KeyCode::Up => letter_sequence(0x41),
        KeyCode::Down => letter_sequence(0x42),
        KeyCode::Right => letter_sequence(0x43),
        KeyCode::Left => letter_sequence(0x44),
        KeyCode::Home => letter_sequence(0x48),
        KeyCode::End => letter_sequence(0x46),
        KeyCode::PageUp => digit_sequence(0x35),
        KeyCode::PageDown => digit_sequence(0x36),
        KeyCode::Insert => digit_sequence(0x32),
        KeyCode::Delete => digit_sequence(0x33),
        KeyCode::F(n) => function_key(n),
        KeyCode::Other => Vec::new(),
    }
}

/// Whether a key sends an escape sequence of its own.
pub open spec fn is_special(code: KeyCode) -> bool {
    match code {
        KeyCode::Up | KeyCode::Down | KeyCode::Right | KeyCode::Left => true,
        KeyCode::Home | KeyCode::End | KeyCode::PageUp | KeyCode::PageDown => true,
        KeyCode::Insert | KeyCode::Delete => true,
        KeyCode::F(n) => 1 <= n <= 12,
        _ => false,
    }
}

/// The bytes of special keys, one by one.
proof fn special_bytes(code: KeyCode, control: bool, alt: bool)
    requires
        is_special(code),
    ensures
        ({
            let s = bytes_for(code, control, alt);
            match code {
                KeyCode::Up => s.len() == 3 && s[1] == 0x5b && s[2] == 0x41,
                KeyCode::Down => s.len() == 3 && s[1] == 0x5b && s[2] == 0x42,
                KeyCode::Right => s.len() == 3 && s[1] == 0x5b && s[2] == 0x43,
                KeyCode::Left => s.len() == 3 && s[1] == 0x5b && s[2] == 0x44,
                KeyCode::Home => s.len() == 3 && s[1] == 0x5b && s[2] == 0x48,
                KeyCode::End => s.len() == 3 && s[1] == 0x5b && s[2] == 0x46,
                KeyCode::PageUp => s.len() == 4 && s[2] == 0x35,
                KeyCode::PageDown => s.len() == 4 && s[2] == 0x36,
                KeyCode::Insert => s.len() == 4 && s[2] == 0x32,
                KeyCode::Delete => s.len() == 4 && s[2] == 0x33,
                KeyCode::F(n) => if n <= 4 {
                    s.len() == 3 && s[1] == 0x4f && s[2] == 0x4f + n
                } else {
                    &&& s.len() == 5
                    &&& s[2] == if n <= 8 {
                        0x31int
                    } else {
                        0x32int
                    }
                    &&& s[3] == if n == 5 {
                        0x35int
                    } else if n <= 8 {
                        0x31 + n
                    } else if n <= 10 {
                        0x27 + n
                    } else {
                        0x28 + n
                    }
                },
                _ => true,
            }
        }),
{
}

/// Special keys are told apart by what they send.
pub proof fn special_keys_differ(a: KeyCode, b: KeyCode, control: bool, alt: bool)
    requires
        is_special(a),
        is_special(b),
        bytes_for(a, control, alt) == bytes_for(b, control, alt),
    ensures
        a == b,
{
    special_bytes(a, control, alt);
    special_bytes(b, control, alt);
}

/// Every key but the unknown ones sends something.
pub proof fn keys_send_something(code: KeyCode, control: bool, alt: bool)
    ensures
        bytes_for(code, control, alt).len() == 0 <==> match code {
            KeyCode::F(n) => !(1 <= n <= 12),
            KeyCode::Other => true,
            _ => false,
        },
{
}

/// A character sends its low eight bits; with alt an escape comes before them; a lower case letter
/// with control sends its place in the alphabet instead.
pub proof fn characters_send_themselves(ch: char, control: bool, alt: bool)
    ensures
        ({
            let s = bytes_for(KeyCode::Char(ch), control, alt);
            let code = ch as int;
            if control && 97 <= code <= 122 {
                s.len() == 1 && s[0] == code - 96
            } else if alt {
                s.len() == 2 && s[0] == 0x1b && s[1] == code % 256
            } else {
                s.len() == 1 && s[0] == code % 256
            }
        }),
{
}

/// Every key that is not a character sends what terminals agree on, whatever is held down.
pub proof fn keys_send_their_codes(control: bool, alt: bool)
    ensures
        bytes_for(KeyCode::Enter, control, alt) =~= seq![13u8],
        bytes_for(KeyCode::Backspace, control, alt) =~= seq![127u8],
        bytes_for(KeyCode::Tab, control, alt) =~= seq![9u8],
        bytes_for(KeyCode::Esc, control, alt) =~= seq![27u8],
        bytes_for(KeyCode::Up, control, alt) =~= seq![27u8, 91, 65],
        bytes_for(KeyCode::Down, control, alt) =~= seq![27u8, 91, 66],
        bytes_for(KeyCode::Right, control, alt) =~= seq![27u8, 91, 67],
        bytes_for(KeyCode::Left, control, alt) =~= seq![27u8, 91, 68],
        bytes_for(KeyCode::Home, control, alt) =~= seq![27u8, 91, 72],
        bytes_for(KeyCode::End, control, alt) =~= seq![27u8, 91, 70],
        bytes_for(KeyCode::Insert, control, alt) =~= seq![27u8, 91, 50, 126],
        bytes_for(KeyCode::Delete, control, alt) =~= seq![27u8, 91, 51, 126],
        bytes_for(KeyCode::PageUp, control, alt) =~= seq![27u8, 91, 53, 126],
        bytes_for(KeyCode::PageDown, control, alt) =~= seq![27u8, 91, 54, 126],
        bytes_for(KeyCode::F(1), control, alt) =~= seq![27u8, 79, 80],
        bytes_for(KeyCode::F(2), control, alt) =~= seq![27u8, 79, 81],
        bytes_for(KeyCode::F(3), control, alt) =~= seq![27u8, 79, 82],
        bytes_for(KeyCode::F(4), control, alt) =~= seq![27u8, 79, 83],
        bytes_for(KeyCode::F(5), control, alt) =~= seq![27u8, 91, 49, 53, 126],
        bytes_for(KeyCode::F(6), control, alt) =~= seq![27u8, 91, 49, 55, 126],
        bytes_for(KeyCode::F(7), control, alt) =~= seq![27u8, 91, 49, 56, 126],
        bytes_for(KeyCode::F(8), control, alt) =~= seq![27u8, 91, 49, 57, 126],
        bytes_for(KeyCode::F(9), control, alt) =~= seq![27u8, 91, 50, 48, 126],
        bytes_for(KeyCode::F(10), control, alt) =~= seq![27u8, 91, 50, 49, 126],
        bytes_for(KeyCode::F(11), control, alt) =~= seq![27u8, 91, 50, 51, 126],
        bytes_for(KeyCode::F(12), control, alt) =~= seq![27u8, 91, 50, 52, 126],
        forall|n: u8| n == 0 || n > 12 ==> #[trigger] bytes_for(KeyCode::F(n), control, alt).len()
            == 0,
        bytes_for(KeyCode::Other, control, alt).len() == 0,
{
}

} // verus!
