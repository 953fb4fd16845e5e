//! Interrupt numbering and the keyboard scancode table.
use vstd::prelude::*;

verus! {

/// The vector at which the primary PIC's interrupts start.
pub const PIC_1_OFFSET: u8 = 32;

/// The vector at which the secondary PIC's interrupts start.
pub const PIC_2_OFFSET: u8 = PIC_1_OFFSET + 8;

/// The hardware interrupts the kernel handles, on the primary PIC.
#[derive(Debug, Clone, Copy, PartialEq, Eq, Structural)]
pub enum InterruptIndex {
    Timer,
    Keyboard,
}

/// The interrupt vector of each hardware interrupt: the timer is the first
/// line of the primary PIC, the keyboard the second.
pub open spec fn vector_of(i: InterruptIndex) -> u8 {
    match i {
        InterruptIndex::Timer => PIC_1_OFFSET,
        InterruptIndex::Keyboard => (PIC_1_OFFSET + 1) as u8,
    }
}

impl InterruptIndex {
    /// The interrupt vector, as a byte.
    pub fn as_u8(self) -> (v: u8)
        ensures
            v == vector_of(self),
    {
        match self {
            InterruptIndex::Timer => PIC_1_OFFSET,
            InterruptIndex::Keyboard => PIC_1_OFFSET + 1,
        }
    }

    /// The interrupt vector, as an index into the descriptor table.
    pub fn as_usize(self) -> (v: usize)
        ensures
            v == vector_of(self),
    {
        self.as_u8() as usize
    }
}

/// The character that a key's make code (scan code set 1) stands for, for the
/// digit row, the three letter rows, Enter, Space and Backspace.
pub open spec fn scancode_char(code: u8) -> Option<char> {
    match code {
        0x02u8 => Some('1'),
        0x03u8 => Some('2'),
        0x04u8 => Some('3'),
        0x05u8 => Some('4'),
        0x06u8 => Some('5'),
        0x07u8 => Some('6'),
        0x08u8 => Some('7'),
        0x09u8 => Some('8'),
        0x0Au8 => Some('9'),
        0x0Bu8 => Some('0'),
        0x0Cu8 => Some('-'),
        0x0Du8 => Some('='),
        0x10u8 => Some('q'),
        0x11u8 => Some('w'),
        0x12u8 => Some('e'),
        0x13u8 => Some('r'),
        0x14u8 => Some('t'),
        0x15u8 => Some('y'),
        0x16u8 => Some('u'),
        0x17u8 => Some('i'),
        0x18u8 => Some('o'),
        0x19u8 => Some('p'),
        0x1Eu8 => Some('a'),
        0x1Fu8 => Some('s'),
        0x20u8 => Some('d'),
        0x21u8 => Some('f'),
        0x22u8 => Some('g'),
        0x23u8 => Some('h'),
        0x24u8 => Some('j'),
        0x25u8 => Some('k'),
        0x26u8 => Some('l'),
        0x27u8 => Some(';'),
        0x2Cu8 => Some('z'),
        0x2Du8 => Some('x'),
        0x2Eu8 => Some('c'),
        0x2Fu8 => Some('v'),
        0x30u8 => Some('b'),
        0x31u8 => Some('n'),
        0x32u8 => Some('m'),
        0x1Cu8 => Some('\n'),
        0x39u8 => Some(' '),
        0x0Eu8 => Some('\x08'),
        _ => None,
    }
}

/// Translates a keyboard make code into the character it stands for, or
/// `None` for a key outside the table (and for every break code).
pub fn scancode_to_ascii(code: u8) -> (c: Option<char>)
    ensures
        c == scancode_char(code),
{
    match code {
        0x02u8 => Some('1'),
        0x03u8 => Some('2'),
        0x04u8 => Some('3'),
        0x05u8 => Some('4'),
        0x06u8 => Some('5'),
        0x07u8 => Some('6'),
        0x08u8 => Some('7'),
        0x09u8 => Some('8'),
        0x0Au8 => Some('9'),
        0x0Bu8 => Some('0'),
        0x0Cu8 => Some('-'),
        0x0Du8 => Some('='),
        0x10u8 => Some('q'),
        0x11u8 => Some('w'),
        0x12u8 => Some('e'),
        0x13u8 => Some('r'),
        0x14u8 => Some('t'),
        0x15u8 => Some('y'),
        0x16u8 => Some('u'),
        0x17u8 => Some('i'),
        0x18u8 => Some('o'),
        0x19u8 => Some('p'),
        0x1Eu8 => Some('a'),
        0x1Fu8 => Some('s'),
        0x20u8 => Some('d'),
        0x21u8 => Some('f'),
        0x22u8 => Some('g'),
        0x23u8 => Some('h'),
        0x24u8 => Some('j'),
        0x25u8 => Some('k'),
        0x26u8 => Some('l'),
        0x27u8 => Some(';'),
        0x2Cu8 => Some('z'),
        0x2Du8 => Some('x'),
        0x2Eu8 => Some('c'),
        0x2Fu8 => Some('v'),
        0x30u8 => Some('b'),
        0x31u8 => Some('n'),
        0x32u8 => Some('m'),
        0x1Cu8 => Some('\n'),
        0x39u8 => Some(' '),
        0x0Eu8 => Some('\x08'),
        _ => None,
    }
}

/// Every key of the table stands for a printable ASCII character, a line
/// feed or a backspace: one byte, which the console shows as itself.
pub proof fn lemma_scancode_chars_shown(code: u8)
    ensures
        scancode_char(code) matches Some(c) ==> {
            &&& (c as u32) < 0x80
            &&& ((0x20 <= (c as u32) <= 0x7e) || c == '\n' || c == '\x08')
        },
{
}

/// No key code of the break range (0x80 and up) is in the table: releasing a
/// key produces no character.
pub proof fn lemma_break_codes_ignored(code: u8)
    requires
        code >= 0x80,
    ensures
        scancode_char(code) is None,
{
}

/// The table never gives the same character for two different keys.
pub proof fn lemma_scancode_injective(a: u8, b: u8)
    requires
        scancode_char(a) is Some,
        scancode_char(a) == scancode_char(b),
    ensures
        a == b,
{
}

/// The table follows the scan code set 1 layout of a US keyboard: the digit
/// row 0x02..0x0B gives `1` to `9` and `0`, then `-` and `=`; the letter rows
/// 0x10..0x19, 0x1E..0x26 and 0x2C..0x32 give `qwertyuiop`, `asdfghjkl` and
/// `zxcvbnm` in order, 0x27 gives `;`; Enter (0x1C) gives a line feed, the
/// space bar (0x39) a space and Backspace (0x0E) a backspace.
pub proof fn lemma_scan_code_set_1_layout()
    ensures
        scancode_char(0x02u8) == Some('1'),
        scancode_char(0x03u8) == Some('2'),
        scancode_char(0x04u8) == Some('3'),
        scancode_char(0x05u8) == Some('4'),
        scancode_char(0x06u8) == Some('5'),
        scancode_char(0x07u8) == Some('6'),
        scancode_char(0x08u8) == Some('7'),
        scancode_char(0x09u8) == Some('8'),
        scancode_char(0x0Au8) == Some('9'),
        scancode_char(0x0Bu8) == Some('0'),
        scancode_char(0x0Cu8) == Some('-'),
        scancode_char(0x0Du8) == Some('='),
        scancode_char(0x10u8) == Some('q'),
        scancode_char(0x11u8) == Some('w'),
        scancode_char(0x12u8) == Some('e'),
        scancode_char(0x13u8) == Some('r'),
        scancode_char(0x14u8) == Some('t'),
        scancode_char(0x15u8) == Some('y'),
        scancode_char(0x16u8) == Some('u'),
        scancode_char(0x17u8) == Some('i'),
        scancode_char(0x18u8) == Some('o'),
        scancode_char(0x19u8) == Some('p'),
        scancode_char(0x1Eu8) == Some('a'),
        scancode_char(0x1Fu8) == Some('s'),
        scancode_char(0x20u8) == Some('d'),
        scancode_char(0x21u8) == Some('f'),
        scancode_char(0x22u8) == Some('g'),
        scancode_char(0x23u8) == Some('h'),
        scancode_char(0x24u8) == Some('j'),
        scancode_char(0x25u8) == Some('k'),
        scancode_char(0x26u8) == Some('l'),
        scancode_char(0x27u8) == Some(';'),
        scancode_char(0x2Cu8) == Some('z'),
        scancode_char(0x2Du8) == Some('x'),
        scancode_char(0x2Eu8) == Some('c'),
        scancode_char(0x2Fu8) == Some('v'),
        scancode_char(0x30u8) == Some('b'),
        scancode_char(0x31u8) == Some('n'),
        scancode_char(0x32u8) == Some('m'),
        scancode_char(0x1Cu8) == Some('\n'),
        scancode_char(0x39u8) == Some(' '),
        scancode_char(0x0Eu8) == Some('\x08'),
        forall|code: u8| #[trigger] scancode_char(code) is Some ==> {
            ||| 0x02 <= code <= 0x0E
            ||| 0x10 <= code <= 0x19
            ||| code == 0x1C
            ||| 0x1E <= code <= 0x27
            ||| 0x2C <= code <= 0x32
            ||| code == 0x39
        },
{
}

/// The timer is acknowledged as vector 32 and the keyboard as vector 33,
/// the first two lines of the primary controller.
pub proof fn lemma_interrupt_vectors()
    ensures
        vector_of(InterruptIndex::Timer) == 32,
        vector_of(InterruptIndex::Keyboard) == 33,
        PIC_2_OFFSET == 40,
{
}

} // verus!
