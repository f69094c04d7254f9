//! The keys of an ISO keyboard by row and column, the order in which a
//! layout lists them, and what each platform calls them.
//!
//! A key is written as its row (`'E'` the number row, `'D'`, `'C'`, `'B'` the
//! three letter rows from the top) and its column: `E00` is the key left of
//! `1`, `D01` the key of `Q`, `C12` the key left of Enter, `B00` the key left
//! of `Z`.

use vstd::prelude::*;

use crate::text::digit_char;

verus! {

/// The key at position `i` of a layout's key list, in the order of the
/// Windows and ChromeOS layers: the number row `E00`..`E12`, then
/// `D01`..`D12`, `C01`..`C12`, and `B00`..`B10`.
pub open spec fn layer_position_key(i: int) -> (char, int) {
    if i < 13 {
        ('E', i)
    } else if i < 25 {
        ('D', i - 12)
    } else if i < 37 {
        ('C', i - 24)
    } else {
        ('B', i - 37)
    }
}

/// The key at position `i` of a macOS layer's key list: the letter rows
/// `D01`..`D12`, `C01`..`C11`, `B01`..`B10`, then `C12`, the number row
/// `E00`..`E12`, and last `B00`.
pub open spec fn macos_position_key(i: int) -> (char, int) {
    if i < 12 {
        ('D', i + 1)
    } else if i < 23 {
        ('C', i - 11)
    } else if i < 33 {
        ('B', i - 22)
    } else if i == 33 {
        ('C', 12)
    } else if i < 47 {
        ('E', i - 34)
    } else {
        ('B', 0)
    }
}

/// The letters of the QWERTY layout on a letter row, from column 1 on.
pub open spec fn row_letters(row: char) -> Seq<char> {
    if row == 'D' {
        seq!['q', 'w', 'e', 'r', 't', 'y', 'u', 'i', 'o', 'p']
    } else if row == 'C' {
        seq!['a', 's', 'd', 'f', 'g', 'h', 'j', 'k', 'l']
    } else if row == 'B' {
        seq!['z', 'x', 'c', 'v', 'b', 'n', 'm']
    } else {
        seq![]
    }
}

/// The letter that a key types in the QWERTY layout, if it is a letter key.
pub open spec fn qwerty_letter(k: (char, int)) -> Option<char> {
    if 1 <= k.1 <= row_letters(k.0).len() {
        Some(row_letters(k.0)[k.1 - 1])
    } else {
        None
    }
}

/// The digit on a key of the number row, if it has one: `E01`..`E09` the
/// digits 1 to 9, `E10` the digit 0.
pub open spec fn number_row_digit(k: (char, int)) -> Option<char> {
    if k.0 == 'E' && 1 <= k.1 <= 9 {
        Some(digit_char(k.1 as nat))
    } else if k.0 == 'E' && k.1 == 10 {
        Some('0')
    } else {
        None
    }
}

/// The upper-case form of an ASCII lower-case letter.
pub open spec fn ascii_upper(c: char) -> char {
    ((c as u32) - 32) as char
}

/// The PC scan code (set 1) of a key: along each row the codes count up by
/// one, from `02` at `E01`, `10` at `D01`, `1e` at `C01` and `2c` at `B01`;
/// the keys at the rows' ends are `29` (`E00`), `2b` (`C12`) and `56`
/// (`B00`).
pub open spec fn pc_scan_code(k: (char, int)) -> nat {
    if k.0 == 'E' {
        if k.1 == 0 {
            0x29
        } else {
            (0x01 + k.1) as nat
        }
    } else if k.0 == 'D' {
        (0x0f + k.1) as nat
    } else if k.0 == 'C' {
        if k.1 == 12 {
            0x2b
        } else {
            (0x1d + k.1) as nat
        }
    } else {
        if k.1 == 0 {
            0x56
        } else {
            (0x2b + k.1) as nat
        }
    }
}

/// A number below 256 in two lower-case hex digits.
pub open spec fn two_hex_digits(n: nat) -> Seq<char> {
    seq![digit_char(n / 16), digit_char(n % 16)]
}

/// The Windows virtual key of a key: a letter key the upper-case letter, a
/// digit key the digit, any other its `OEM_` name.
pub open spec fn windows_virtual_key(k: (char, int)) -> Seq<char> {
    match qwerty_letter(k) {
        Some(c) => seq![ascii_upper(c)],
        None => match number_row_digit(k) {
            Some(d) => seq![d],
            None => if k == ('E', 0int) {
                "OEM_3"@
            } else if k == ('E', 11int) {
                "OEM_MINUS"@
            } else if k == ('E', 12int) {
                "OEM_PLUS"@
            } else if k == ('D', 11int) {
                "OEM_4"@
            } else if k == ('D', 12int) {
                "OEM_6"@
            } else if k == ('C', 10int) {
                "OEM_1"@
            } else if k == ('C', 11int) {
                "OEM_7"@
            } else if k == ('C', 12int) {
                "OEM_5"@
            } else if k == ('B', 0int) {
                "OEM_102"@
            } else if k == ('B', 8int) {
                "OEM_COMMA"@
            } else if k == ('B', 9int) {
                "OEM_PERIOD"@
            } else {
                "OEM_2"@
            },
        },
    }
}

/// The DOM `code` of a key: `Key` and the upper-case letter for a letter
/// key, `Digit` and the digit for a digit key, the key's name for any other.
pub open spec fn dom_code(k: (char, int)) -> Seq<char> {
    match qwerty_letter(k) {
        Some(c) => seq!['K', 'e', 'y', ascii_upper(c)],
        None => match number_row_digit(k) {
            Some(d) => seq!['D', 'i', 'g', 'i', 't', d],
            None => if k == ('E', 0int) {
                "Backquote"@
            } else if k == ('E', 11int) {
                "Minus"@
            } else if k == ('E', 12int) {
                "Equal"@
            } else if k == ('D', 11int) {
                "BracketLeft"@
            } else if k == ('D', 12int) {
                "BracketRight"@
            } else if k == ('C', 10int) {
                "Semicolon"@
            } else if k == ('C', 11int) {
                "Quote"@
            } else if k == ('C', 12int) {
                "Backslash"@
            } else if k == ('B', 0int) {
                "IntlBackslash"@
            } else if k == ('B', 8int) {
                "Comma"@
            } else if k == ('B', 9int) {
                "Period"@
            } else {
                "Slash"@
            },
        },
    }
}

/// The macOS virtual key code of a key (Apple's `kVK_ANSI_` and `kVK_ISO_`
/// codes), by row.
pub open spec fn mac_key_code(k: (char, int)) -> nat {
    let (row, col) = k;
    let codes: Seq<nat> = if row == 'E' {
        seq![10, 18, 19, 20, 21, 23, 22, 26, 28, 25, 29, 27, 24]
    } else if row == 'D' {
        seq![0, 12, 13, 14, 15, 17, 16, 32, 34, 31, 35, 33, 30]
    } else if row == 'C' {
        seq![0, 0, 1, 2, 3, 5, 4, 38, 40, 37, 41, 39, 42]
    } else {
        seq![50, 6, 7, 8, 9, 11, 45, 46, 43, 47, 44]
    };
    codes[col]
}

} // verus!
