use kentos::kentos_console::{parse_command, Channel, Command, Console, ShellAction};
use kentos::kentos_stdio::{Buffer, Colour, ColourCode, ScreenChar, VGA_HEIGHT, VGA_WIDTH};

const ENTER: u8 = 0x1C;

fn console() -> Console {
    Console::new(Buffer::filled(ScreenChar { ascii_char: b' ', colour_code: ColourCode::new(Colour::White, Colour::Black) }))
}

fn row(c: &Console, r: usize) -> String {
    c.screen().chars[r].iter().map(|s| s.ascii_char as char).collect::<String>().trim_end().to_string()
}

fn scancode_of(ch: char) -> u8 {
    (0u8..=255).find(|&k| kentos::kentos_interrupts::scancode_to_ascii(k) == Some(ch)).unwrap()
}

/// Types `text` and Enter the way the kernel does: each key through the
/// keyboard interrupt, then one turn of the main loop.
fn type_line(c: &mut Console, text: &str) -> ShellAction {
    for ch in text.chars() {
        let code = scancode_of(ch);
        assert!(c.can_take_scancode(code));
        assert_eq!(c.on_keyboard_interrupt(code), 33);
        assert!(c.can_poll());
        assert_eq!(c.poll(), ShellAction::Continue);
    }
    assert_eq!(c.on_keyboard_interrupt(ENTER), 33);
    assert!(c.can_poll());
    c.poll()
}

#[test]
fn no_key_means_halt() {
    let mut c = console();
    assert!(c.can_poll());
    assert_eq!(c.poll(), ShellAction::Halt);
}

#[test]
fn commands_are_recognised() {
    let v = |s: &str| s.chars().collect::<Vec<char>>();
    assert_eq!(parse_command(&v("greet")), Command::Greet);
    assert_eq!(parse_command(&v("echo hi there")), Command::Echo);
    assert_eq!(parse_command(&v("echo ")), Command::Echo);
    assert_eq!(parse_command(&v("echo")), Command::EchoEmpty);
    assert_eq!(parse_command(&v("reboot")), Command::Reboot);
    assert_eq!(parse_command(&v("clear")), Command::Clear);
    assert_eq!(parse_command(&v("")), Command::Empty);
    assert_eq!(parse_command(&v("greetings")), Command::Unknown);
    assert_eq!(parse_command(&v("echox")), Command::Unknown);
    assert_eq!(parse_command(&v("gree")), Command::Unknown);
}

#[test]
fn greet_says_hello() {
    let mut c = console();
    assert_eq!(type_line(&mut c, "greet"), ShellAction::Continue);
    // the echoed keys, the command's line, then the prompt
    assert_eq!(row(&c, VGA_HEIGHT - 3), "greet");
    assert_eq!(row(&c, VGA_HEIGHT - 2), "Hello");
    assert_eq!(row(&c, VGA_HEIGHT - 1), ">");
}

#[test]
fn echo_prints_its_argument() {
    let mut c = console();
    type_line(&mut c, "echo rust is great");
    assert_eq!(row(&c, VGA_HEIGHT - 2), "rust is great");
    assert_eq!(row(&c, VGA_HEIGHT - 1), ">");
}

#[test]
fn echo_alone_prints_an_empty_line() {
    let mut c = console();
    type_line(&mut c, "echo");
    assert_eq!(row(&c, VGA_HEIGHT - 3), "echo");
    assert_eq!(row(&c, VGA_HEIGHT - 2), "");
    assert_eq!(row(&c, VGA_HEIGHT - 1), ">");
}

#[test]
fn unknown_command_is_reported_on_the_error_writer() {
    let mut c = console();
    type_line(&mut c, "ls");
    // the error writer's cursor was at the start of the bottom row
    assert_eq!(row(&c, VGA_HEIGHT - 2), "Unknown shell command, ls");
    let red = ColourCode::new(Colour::LightRed, Colour::Black);
    assert_eq!(c.screen().chars[VGA_HEIGHT - 2][0].colour_code, red);
    assert_eq!(row(&c, VGA_HEIGHT - 1), ">");
}

#[test]
fn empty_line_only_prompts() {
    let mut c = console();
    assert_eq!(type_line(&mut c, ""), ShellAction::Continue);
    assert_eq!(row(&c, VGA_HEIGHT - 2), "");
    assert_eq!(row(&c, VGA_HEIGHT - 1), ">");
}

#[test]
fn clear_scrolls_everything_away() {
    let mut c = console();
    type_line(&mut c, "greet");
    type_line(&mut c, "clear");
    for r in 0..VGA_HEIGHT - 1 {
        assert_eq!(row(&c, r), "");
    }
    assert_eq!(row(&c, VGA_HEIGHT - 1), ">");
}

#[test]
fn reboot_is_requested_and_enter_stays_pending() {
    let mut c = console();
    assert_eq!(type_line(&mut c, "reboot"), ShellAction::Reboot);
    // the restarted shell runs the pending empty line and prompts
    assert_eq!(c.poll(), ShellAction::Continue);
    assert_eq!(c.poll(), ShellAction::Halt);
    assert_eq!(row(&c, VGA_HEIGHT - 1), ">");
}

#[test]
fn key_without_table_entry_does_nothing() {
    let mut c = console();
    assert_eq!(c.on_keyboard_interrupt(0x9C), 33);
    assert_eq!(c.poll(), ShellAction::Halt);
    assert_eq!(row(&c, VGA_HEIGHT - 1), "");
}

#[test]
fn backspace_is_echoed_and_kept_in_the_line() {
    let mut c = console();
    type_line(&mut c, "ab\x08");
    // the screen shows "a" after the erase, the line holds the backspace
    assert_eq!(row(&c, VGA_HEIGHT - 3), "a");
    assert_eq!(row(&c, VGA_HEIGHT - 2), "Unknown shell command, a");
}

#[test]
fn typed_counter_limits_the_line() {
    let mut c = console();
    let a = scancode_of('a');
    for _ in 0..255 {
        c.on_keyboard_interrupt(a);
        assert!(c.can_poll());
        c.poll();
    }
    c.on_keyboard_interrupt(a);
    assert!(!c.can_poll());
}

#[test]
fn backspace_at_the_top_left_is_refused() {
    let mut c = console();
    let bs = scancode_of('\x08');
    let mut n = 0;
    while c.can_take_scancode(bs) {
        c.on_keyboard_interrupt(bs);
        n += 1;
    }
    assert_eq!(n, (VGA_HEIGHT - 1) * VGA_WIDTH);
}

#[test]
fn timer_prints_a_dot() {
    let mut c = console();
    assert_eq!(c.on_timer_interrupt(true), 32);
    assert_eq!(row(&c, VGA_HEIGHT - 1), ".");
    let yellow = ColourCode::new(Colour::Yellow, Colour::Black);
    assert_eq!(c.screen().chars[VGA_HEIGHT - 1][0].colour_code, yellow);
}

#[test]
fn timer_in_a_release_build_prints_nothing() {
    let mut c = console();
    assert_eq!(c.on_timer_interrupt(false), 32);
    assert_eq!(row(&c, VGA_HEIGHT - 1), "");
    assert_eq!(c.poll(), ShellAction::Halt);
}

#[test]
fn k_puts_on_the_console_keeps_the_cursors() {
    let mut c = console();
    c.write(Channel::Shell, "ab");
    assert!(c.can_k_puts("kernel", Colour::LightCyan, Colour::Blue));
    c.k_puts("kernel", Colour::LightCyan, Colour::Blue);
    assert_eq!(row(&c, VGA_HEIGHT - 1), "kernel");
    assert_eq!(c.screen().chars[VGA_HEIGHT - 1][0].colour_code.value(), 0x1b);
    // the shell cursor is still after "ab"
    c.write(Channel::Shell, "!");
    assert_eq!(row(&c, VGA_HEIGHT - 1), "ke!nel");
    assert!(c.can_k_puts("\x08", Colour::White, Colour::Black));
}

#[test]
fn test_reports_pass_and_fail() {
    let mut c = console();
    assert!(c.can_test(1, "exception_handling", Ok(())));
    assert_eq!(c.test(1, "exception_handling", Ok(())), Ok(()));
    assert_eq!(row(&c, VGA_HEIGHT - 2), "Test no. 1, exception_handling_test, passed.");
    let green = ColourCode::new(Colour::LightGreen, Colour::Black);
    assert_eq!(c.screen().chars[VGA_HEIGHT - 2][0].colour_code, green);
    assert_eq!(c.test(12, "heap_allocation", Err(())), Err(()));
    assert_eq!(row(&c, VGA_HEIGHT - 2), "Test no. 12, heap_allocation_test, failed.");
}

#[test]
fn write_goes_to_the_channel_cursor() {
    let mut c = console();
    assert!(c.can_write(Channel::Main, "Booting up.\n"));
    c.write(Channel::Main, "Booting up.\n");
    c.write(Channel::Success, "ok");
    assert_eq!(row(&c, VGA_HEIGHT - 2), "Booting up.");
    assert_eq!(row(&c, VGA_HEIGHT - 1), "ok");
    assert!(c.can_write(Channel::Shell, "\x08"));
}

#[test]
fn a_command_depends_only_on_its_own_line() {
    let mut a = console();
    type_line(&mut a, "ls");
    type_line(&mut a, "echo hi");
    let mut b = console();
    type_line(&mut b, "echo hi");
    assert_eq!(row(&a, VGA_HEIGHT - 2), "hi");
    assert_eq!(row(&b, VGA_HEIGHT - 2), "hi");
}

#[test]
fn counter_resets_at_each_line() {
    let mut c = console();
    let line: String = "a".repeat(200);
    type_line(&mut c, &line);
    type_line(&mut c, &line);
    assert!(c.can_poll());
}
