use kentos::kentos_gdt::{DOUBLE_FLT_IDX, DOUBLE_FLT_STACK_SIZE};
use kentos::kentos_interrupts::{scancode_to_ascii, InterruptIndex, PIC_1_OFFSET, PIC_2_OFFSET};

#[test]
fn pic_offsets() {
    assert_eq!(PIC_1_OFFSET, 32);
    assert_eq!(PIC_2_OFFSET, 40);
}

#[test]
fn interrupt_vectors() {
    assert_eq!(InterruptIndex::Timer.as_u8(), 32);
    assert_eq!(InterruptIndex::Keyboard.as_u8(), 33);
    assert_eq!(InterruptIndex::Timer.as_usize(), 32);
    assert_eq!(InterruptIndex::Keyboard.as_usize(), 33);
}

#[test]
fn scancodes_of_the_table() {
    assert_eq!(scancode_to_ascii(0x02), Some('1'));
    assert_eq!(scancode_to_ascii(0x0B), Some('0'));
    assert_eq!(scancode_to_ascii(0x10), Some('q'));
    assert_eq!(scancode_to_ascii(0x1E), Some('a'));
    assert_eq!(scancode_to_ascii(0x27), Some(';'));
    assert_eq!(scancode_to_ascii(0x32), Some('m'));
    assert_eq!(scancode_to_ascii(0x1C), Some('\n'));
    assert_eq!(scancode_to_ascii(0x39), Some(' '));
    assert_eq!(scancode_to_ascii(0x0E), Some('\x08'));
}

#[test]
fn scancodes_outside_the_table() {
    assert_eq!(scancode_to_ascii(0x00), None);
    assert_eq!(scancode_to_ascii(0x01), None);
    assert_eq!(scancode_to_ascii(0x1A), None);
    assert_eq!(scancode_to_ascii(0x9E), None);
    assert_eq!(scancode_to_ascii(0xFF), None);
}

#[test]
fn break_codes_give_nothing_and_keys_are_distinct() {
    let mut seen = std::collections::HashSet::new();
    for code in 0u8..=255 {
        if let Some(c) = scancode_to_ascii(code) {
            assert!(code < 0x80);
            assert!(c.is_ascii_graphic() || c == ' ' || c == '\n' || c == '\x08');
            assert!(seen.insert(c));
        }
    }
    assert_eq!(seen.len(), 42);
}

#[test]
fn double_fault_stack() {
    assert_eq!(DOUBLE_FLT_IDX, 0);
    assert_eq!(DOUBLE_FLT_STACK_SIZE, 20480);
}
