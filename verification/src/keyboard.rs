//! Translation of Scan Code Set 1 to ASCII, US QWERTY layout.

use vstd::prelude::*;

verus! {

/// Make code of the left Shift key.
pub const LEFT_SHIFT_MAKE: u8 = 0x2A;
/// Break code of the left Shift key.
pub const LEFT_SHIFT_BREAK: u8 = 0xAA;
/// Make code of the right Shift key.
pub const RIGHT_SHIFT_MAKE: u8 = 0x36;
/// Break code of the right Shift key.
pub const RIGHT_SHIFT_BREAK: u8 = 0xB6;

/// Pressed/released state of the two Shift keys, each followed on its own:
/// releasing one leaves the other's effect in place while it is held.
#[derive(Debug, Clone, Copy, PartialEq, Eq, Structural)]
pub struct ShiftState {
    pub left_held: bool,
    pub right_held: bool,
}

/// Shift is in effect while either Shift key is held.
pub open spec fn shift_active(s: ShiftState) -> bool {
    s.left_held || s.right_held
}

impl ShiftState {
    /// Both Shift keys released.
    pub fn new() -> (s: ShiftState)
        ensures
            !s.left_held,
            !s.right_held,
    {
        ShiftState { left_held: false, right_held: false }
    }

    /// Shift is in effect (either key held).
    pub fn is_active(&self) -> (r: bool)
        ensures
            r == shift_active(*self),
    {
        self.left_held || self.right_held
    }
}

/// The (unshifted, shifted) characters of the keys of the base table that
/// have two: digits, letters and punctuation.
pub open spec fn key_chars(code: u8) -> Option<(u8, u8)> {
    if code == 0x02 { Some((0x31, 0x21)) }       // '1' '!'
    else if code == 0x03 { Some((0x32, 0x40)) }  // '2' '@'
    else if code == 0x04 { Some((0x33, 0x23)) }  // '3' '#'
    else if code == 0x05 { Some((0x34, 0x24)) }  // '4' '$'
    else if code == 0x06 { Some((0x35, 0x25)) }  // '5' '%'
    else if code == 0x07 { Some((0x36, 0x5e)) }  // '6' '^'
    else if code == 0x08 { Some((0x37, 0x26)) }  // '7' '&'
    else if code == 0x09 { Some((0x38, 0x2a)) }  // '8' '*'
    else if code == 0x0A { Some((0x39, 0x28)) }  // '9' '('
    else if code == 0x0B { Some((0x30, 0x29)) }  // '0' ')'
    else if code == 0x0C { Some((0x2d, 0x5f)) }  // '-' '_'
    else if code == 0x0D { Some((0x3d, 0x2b)) }  // '=' '+'
    else if code == 0x10 { Some((0x71, 0x51)) }  // 'q' 'Q'
    else if code == 0x11 { Some((0x77, 0x57)) }  // 'w' 'W'
    else if code == 0x12 { Some((0x65, 0x45)) }  // 'e' 'E'
    else if code == 0x13 { Some((0x72, 0x52)) }  // 'r' 'R'
    else if code == 0x14 { Some((0x74, 0x54)) }  // 't' 'T'
    else if code == 0x15 { Some((0x79, 0x59)) }  // 'y' 'Y'
    else if code == 0x16 { Some((0x75, 0x55)) }  // 'u' 'U'
    else if code == 0x17 { Some((0x69, 0x49)) }  // 'i' 'I'
    else if code == 0x18 { Some((0x6f, 0x4f)) }  // 'o' 'O'
    else if code == 0x19 { Some((0x70, 0x50)) }  // 'p' 'P'
    else if code == 0x1A { Some((0x5b, 0x7b)) }  // '[' '{'
    else if code == 0x1B { Some((0x5d, 0x7d)) }  // ']' '}'
    else if code == 0x1E { Some((0x61, 0x41)) }  // 'a' 'A'
    else if code == 0x1F { Some((0x73, 0x53)) }  // 's' 'S'
    else if code == 0x20 { Some((0x64, 0x44)) }  // 'd' 'D'
    else if code == 0x21 { Some((0x66, 0x46)) }  // 'f' 'F'
    else if code == 0x22 { Some((0x67, 0x47)) }  // 'g' 'G'
    else if code == 0x23 { Some((0x68, 0x48)) }  // 'h' 'H'
    else if code == 0x24 { Some((0x6a, 0x4a)) }  // 'j' 'J'
    else if code == 0x25 { Some((0x6b, 0x4b)) }  // 'k' 'K'
    else if code == 0x26 { Some((0x6c, 0x4c)) }  // 'l' 'L'
    else if code == 0x27 { Some((0x3b, 0x3a)) }  // ';' ':'
    else if code == 0x28 { Some((0x27, 0x22)) }  // '\'' '"'
    else if code == 0x29 { Some((0x60, 0x7e)) }  // '`' '~'
    else if code == 0x2B { Some((0x5c, 0x7c)) }  // '\\' '|'
    else if code == 0x2C { Some((0x7a, 0x5a)) }  // 'z' 'Z'
    else if code == 0x2D { Some((0x78, 0x58)) }  // 'x' 'X'
    else if code == 0x2E { Some((0x63, 0x43)) }  // 'c' 'C'
    else if code == 0x2F { Some((0x76, 0x56)) }  // 'v' 'V'
    else if code == 0x30 { Some((0x62, 0x42)) }  // 'b' 'B'
    else if code == 0x31 { Some((0x6e, 0x4e)) }  // 'n' 'N'
    else if code == 0x32 { Some((0x6d, 0x4d)) }  // 'm' 'M'
    else if code == 0x33 { Some((0x2c, 0x3c)) }  // ',' '<'
    else if code == 0x34 { Some((0x2e, 0x3e)) }  // '.' '>'
    else if code == 0x35 { Some((0x2f, 0x3f)) }  // '/' '?'
    else { None }
}

/// The byte a make code of the base table gives: Backspace (0x08), Enter
/// (line feed) and Space whatever Shift does; a key with two characters
/// gives its shifted one while Shift is in effect; any other code none.
pub open spec fn make_code_char(code: u8, shift: bool) -> Option<u8> {
    if code == 0x0E {
        Some(0x08)
    } else if code == 0x1C {
        Some(0x0a)
    } else if code == 0x39 {
        Some(0x20)
    } else {
        match key_chars(code) {
            Some(pair) => Some(if shift { pair.1 } else { pair.0 }),
            None => None,
        }
    }
}

/// The Shift state after a scancode: the make and break codes of each
/// Shift key set and clear its own flag; any other code leaves the state.
pub open spec fn shift_after(s: ShiftState, scancode: u8) -> ShiftState {
    if scancode == LEFT_SHIFT_MAKE {
        ShiftState { left_held: true, ..s }
    } else if scancode == LEFT_SHIFT_BREAK {
        ShiftState { left_held: false, ..s }
    } else if scancode == RIGHT_SHIFT_MAKE {
        ShiftState { right_held: true, ..s }
    } else if scancode == RIGHT_SHIFT_BREAK {
        ShiftState { right_held: false, ..s }
    } else {
        s
    }
}

/// What a scancode translates to in Shift state `s`: nothing for a Shift
/// key, for any break code (bit 7 set, which covers the extended-key
/// prefix 0xE0) and for codes outside the base table; otherwise the
/// character of the make code.
pub open spec fn translation(s: ShiftState, scancode: u8) -> Option<u8> {
    if scancode == LEFT_SHIFT_MAKE || scancode == LEFT_SHIFT_BREAK || scancode == RIGHT_SHIFT_MAKE
        || scancode == RIGHT_SHIFT_BREAK {
        None
    } else if scancode >= 0x80 {
        None
    } else {
        make_code_char(scancode, shift_active(s))
    }
}

/// Translates a Scan Code Set 1 scancode to an ASCII byte (letter, digit,
/// space, Enter, Backspace or basic punctuation) under the current Shift
/// state, which the Shift keys' own codes update.
///
/// Gives `None`, and no error, for break codes of any key but Shift (bit 7
/// set), for the extended-key prefix 0xE0 (bit 7 set too) and for any code
/// outside the base table.
pub fn translate(shift: &mut ShiftState, scancode: u8) -> (r: Option<u8>)
    ensures
        *final(shift) == shift_after(*old(shift), scancode),
        r == translation(*old(shift), scancode),
{
    if scancode == LEFT_SHIFT_MAKE {
        shift.left_held = true;
        None
    } else if scancode == LEFT_SHIFT_BREAK {
        shift.left_held = false;
        None
    } else if scancode == RIGHT_SHIFT_MAKE {
        shift.right_held = true;
        None
    } else if scancode == RIGHT_SHIFT_BREAK {
        shift.right_held = false;
        None
    } else if scancode & 0x80 != 0 {
        assert(scancode & 0x80 != 0 ==> scancode >= 0x80) by (bit_vector);
        None
    } else {
        assert(scancode & 0x80 == 0 ==> scancode < 0x80) by (bit_vector);
        let active = shift.is_active();
        ascii_for_make_code(scancode, active)
    }
}

/// The base table of Scan Code Set 1 (US QWERTY): each key with two
/// characters gives (unshifted, shifted); Backspace, Enter and Space give
/// one byte whatever Shift does.
pub fn ascii_for_make_code(code: u8, shift: bool) -> (r: Option<u8>)
    ensures
        r == make_code_char(code, shift),
{
    let (lower, upper): (u8, u8) = match code {
        0x0E => return Some(0x08),  // Backspace
        0x1C => return Some(0x0a),  // Enter
        0x39 => return Some(0x20),  // Space

        0x02 => (0x31, 0x21),  // '1' '!'
        0x03 => (0x32, 0x40),  // '2' '@'
        0x04 => (0x33, 0x23),  // '3' '#'
        0x05 => (0x34, 0x24),  // '4' '$'
        0x06 => (0x35, 0x25),  // '5' '%'
        0x07 => (0x36, 0x5e),  // '6' '^'
        0x08 => (0x37, 0x26),  // '7' '&'
        0x09 => (0x38, 0x2a),  // '8' '*'
        0x0A => (0x39, 0x28),  // '9' '('
        0x0B => (0x30, 0x29),  // '0' ')'
        0x0C => (0x2d, 0x5f),  // '-' '_'
        0x0D => (0x3d, 0x2b),  // '=' '+'

        0x10 => (0x71, 0x51),  // 'q' 'Q'
        0x11 => (0x77, 0x57),  // 'w' 'W'
        0x12 => (0x65, 0x45),  // 'e' 'E'
        0x13 => (0x72, 0x52),  // 'r' 'R'
        0x14 => (0x74, 0x54),  // 't' 'T'
        0x15 => (0x79, 0x59),  // 'y' 'Y'
        0x16 => (0x75, 0x55),  // 'u' 'U'
        0x17 => (0x69, 0x49),  // 'i' 'I'
        0x18 => (0x6f, 0x4f),  // 'o' 'O'
        0x19 => (0x70, 0x50),  // 'p' 'P'
        0x1A => (0x5b, 0x7b),  // '[' '{'
        0x1B => (0x5d, 0x7d),  // ']' '}'

        0x1E => (0x61, 0x41),  // 'a' 'A'
        0x1F => (0x73, 0x53),  // 's' 'S'
        0x20 => (0x64, 0x44),  // 'd' 'D'
        0x21 => (0x66, 0x46),  // 'f' 'F'
        0x22 => (0x67, 0x47),  // 'g' 'G'
        0x23 => (0x68, 0x48),  // 'h' 'H'
        0x24 => (0x6a, 0x4a),  // 'j' 'J'
        0x25 => (0x6b, 0x4b),  // 'k' 'K'
        0x26 => (0x6c, 0x4c),  // 'l' 'L'
        0x27 => (0x3b, 0x3a),  // ';' ':'
        0x28 => (0x27, 0x22),  // '\'' '"'
        0x29 => (0x60, 0x7e),  // '`' '~'
        0x2B => (0x5c, 0x7c),  // '\\' '|'

        0x2C => (0x7a, 0x5a),  // 'z' 'Z'
        0x2D => (0x78, 0x58),  // 'x' 'X'
        0x2E => (0x63, 0x43),  // 'c' 'C'
        0x2F => (0x76, 0x56),  // 'v' 'V'
        0x30 => (0x62, 0x42),  // 'b' 'B'
        0x31 => (0x6e, 0x4e),  // 'n' 'N'
        0x32 => (0x6d, 0x4d),  // 'm' 'M'
        0x33 => (0x2c, 0x3c),  // ',' '<'
        0x34 => (0x2e, 0x3e),  // '.' '>'
        0x35 => (0x2f, 0x3f),  // '/' '?'

        _ => return None,
    };
    Some(if shift { upper } else { lower })
}

/// Releasing one Shift key while the other is still held keeps Shift in
/// effect.
pub proof fn lemma_shift_keys_independent(s: ShiftState)
    ensures
        s.right_held ==> shift_active(shift_after(s, LEFT_SHIFT_BREAK)),
        s.left_held ==> shift_active(shift_after(s, RIGHT_SHIFT_BREAK)),
{
}

/// A scancode with bit 7 set that is not a Shift break code never gives a
/// character and leaves the Shift state as it was.
pub proof fn lemma_break_codes_give_nothing(s: ShiftState, scancode: u8)
    requires
        scancode >= 0x80,
        scancode != LEFT_SHIFT_BREAK,
        scancode != RIGHT_SHIFT_BREAK,
    ensures
        translation(s, scancode) == None::<u8>,
        shift_after(s, scancode) == s,
{
}

/// The US QWERTY layout, row by row: the keys of a row of the keyboard
/// have consecutive make codes, and each gives the character printed on it,
/// the lower one without Shift and the upper one with Shift. `first` is
/// the make code of the row's leftmost key.
pub open spec fn layout_row_gives(s: ShiftState, first: int, lower: Seq<char>, upper: Seq<char>) -> bool {
    forall|i: int|
        0 <= i < lower.len() ==> #[trigger] translation(s, (first + i) as u8) == Some(
            (if shift_active(s) { upper[i] } else { lower[i] }) as u8,
        )
}

/// Every key of the base table types the character printed on it on a US
/// QWERTY keyboard: the digit row from 0x02, the `qwertyuiop` row from
/// 0x10, the `asdfghjkl` row from 0x1E and the `zxcvbnm` row from 0x2B,
/// lower case without Shift and upper case (or the upper symbol) with it.
/// Backspace, Enter and Space give their own byte, and no other make code
/// gives anything.
pub proof fn lemma_keys_follow_us_layout(s: ShiftState)
    ensures
        layout_row_gives(s, 0x02, "1234567890-="@, "!@#$%^&*()_+"@),
        layout_row_gives(s, 0x10, "qwertyuiop[]"@, "QWERTYUIOP{}"@),
        layout_row_gives(s, 0x1E, "asdfghjkl;'`"@, "ASDFGHJKL:\"~"@),
        layout_row_gives(s, 0x2B, "\\zxcvbnm,./"@, "|ZXCVBNM<>?"@),
        translation(s, 0x0E) == Some(0x08u8),
        translation(s, 0x1C) == Some(0x0au8),
        translation(s, 0x39) == Some(0x20u8),
        forall|code: u8|
            code < 0x80 && !(0x02 <= code <= 0x0E) && !(0x10 <= code <= 0x1C) && !(0x1E <= code <= 0x29) && !(
            0x2B <= code <= 0x35) && code != 0x39 ==> #[trigger] translation(s, code) == None::<u8>,
{
    reveal_strlit("1234567890-=");
    reveal_strlit("!@#$%^&*()_+");
    reveal_strlit("qwertyuiop[]");
    reveal_strlit("QWERTYUIOP{}");
    reveal_strlit("asdfghjkl;'`");
    reveal_strlit("ASDFGHJKL:\"~");
    reveal_strlit("\\zxcvbnm,./");
    reveal_strlit("|ZXCVBNM<>?");
    assert forall|i: int| 0 <= i < 12 implies #[trigger] translation(s, (0x02 + i) as u8) == Some(
        (if shift_active(s) { "!@#$%^&*()_+"@[i] } else { "1234567890-="@[i] }) as u8,
    ) by {
        assert(0 <= i < 12);
    }
    assert forall|i: int| 0 <= i < 12 implies #[trigger] translation(s, (0x10 + i) as u8) == Some(
        (if shift_active(s) { "QWERTYUIOP{}"@[i] } else { "qwertyuiop[]"@[i] }) as u8,
    ) by {
        assert(0 <= i < 12);
    }
    assert forall|i: int| 0 <= i < 12 implies #[trigger] translation(s, (0x1E + i) as u8) == Some(
        (if shift_active(s) { "ASDFGHJKL:\"~"@[i] } else { "asdfghjkl;'`"@[i] }) as u8,
    ) by {
        assert(0 <= i < 12);
    }
    assert forall|i: int| 0 <= i < 11 implies #[trigger] translation(s, (0x2B + i) as u8) == Some(
        (if shift_active(s) { "|ZXCVBNM<>?"@[i] } else { "\\zxcvbnm,./"@[i] }) as u8,
    ) by {
        assert(0 <= i < 11);
    }
}

} // verus!
