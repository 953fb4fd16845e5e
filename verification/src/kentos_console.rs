//! The kernel console: the four writers that share the VGA screen, the last
//! key the keyboard delivered, and the shell that reads commands from it.
//!
//! Each interrupt handler and each turn of the kernel's main loop is a step
//! of this state machine; the caller performs the hardware work (port I/O,
//! end-of-interrupt, halting, copying the screen to video memory).
use vstd::prelude::*;
use crate::kentos_stdio;
use crate::kentos_interrupts;
use crate::kentos_interrupts::InterruptIndex;
use crate::kentos_stdio::{
    Buffer, Colour, ColourCode, ScreenChar, Writer, WriterModel, VGA_HEIGHT, VGA_WIDTH,
};

verus! {

/// The four writers of the kernel, each with its own cursor and colour.
#[derive(Debug, Clone, Copy, PartialEq, Eq, Structural)]
pub enum Channel {
    /// Kernel messages, yellow on black.
    Main,
    /// Errors, light red on black.
    Error,
    /// Test successes, light green on black.
    Success,
    /// The shell, white on black.
    Shell,
}

/// A writer's cursor and colour, apart from the screen it draws on.
pub struct Cursor {
    pub row: int,
    pub column: int,
    pub colour: ColourCode,
}

/// The abstract state of the console.
pub struct ConsoleModel {
    /// The shared screen.
    pub screen: Seq<Seq<ScreenChar>>,
    pub main: Cursor,
    pub error: Cursor,
    pub success: Cursor,
    pub shell: Cursor,
    /// The last key delivered and not yet consumed; `'\0'` when none.
    pub last_key: char,
    /// The command line typed so far.
    pub input: Seq<char>,
    /// How many keys the command line holds (a byte-sized counter).
    pub typed: u8,
}

impl ConsoleModel {
    /// The cursor of a channel.
    pub open spec fn cursor(self, ch: Channel) -> Cursor {
        match ch {
            Channel::Main => self.main,
            Channel::Error => self.error,
            Channel::Success => self.success,
            Channel::Shell => self.shell,
        }
    }

    /// The writer of a channel, drawing on the shared screen.
    pub open spec fn writer(self, ch: Channel) -> WriterModel {
        WriterModel {
            row: self.cursor(ch).row,
            column: self.cursor(ch).column,
            colour: self.cursor(ch).colour,
            screen: self.screen,
        }
    }

    /// The console after the writer of `ch` has become `w`.
    pub open spec fn with_writer(self, ch: Channel, w: WriterModel) -> ConsoleModel {
        let c = Cursor { row: w.row, column: w.column, colour: w.colour };
        match ch {
            Channel::Main => ConsoleModel { screen: w.screen, main: c, ..self },
            Channel::Error => ConsoleModel { screen: w.screen, error: c, ..self },
            Channel::Success => ConsoleModel { screen: w.screen, success: c, ..self },
            Channel::Shell => ConsoleModel { screen: w.screen, shell: c, ..self },
        }
    }

    /// The console after printing the bytes `bs` on channel `ch`.
    pub open spec fn print(self, ch: Channel, bs: Seq<u8>) -> ConsoleModel {
        self.with_writer(ch, kentos_stdio::write_bytes(self.writer(ch), bs))
    }

    /// Printing `bs` on `ch` keeps its cursor on the screen.
    pub open spec fn print_ok(self, ch: Channel, bs: Seq<u8>) -> bool {
        kentos_stdio::bytes_ok(self.writer(ch), bs)
    }
}

/// The attribute byte of each channel's writer.
pub open spec fn channel_colour(ch: Channel) -> ColourCode {
    match ch {
        Channel::Main => kentos_stdio::colour_code_of(Colour::Yellow, Colour::Black),
        Channel::Error => kentos_stdio::colour_code_of(Colour::LightRed, Colour::Black),
        Channel::Success => kentos_stdio::colour_code_of(Colour::LightGreen, Colour::Black),
        Channel::Shell => kentos_stdio::colour_code_of(Colour::White, Colour::Black),
    }
}

/// A writer's cursor and colour.
pub open spec fn cursor_of(w: &Writer) -> Cursor {
    Cursor { row: w.row as int, column: w.column as int, colour: w.colourc }
}

/// Whether printing `bs` from the cursor at (`row`, `column`) keeps the cursor
/// on the screen; `m` is any writer at that cursor.
fn printable(row: usize, column: usize, bs: &[u8], Ghost(m): Ghost<WriterModel>) -> (ok: bool)
    requires
        m.row == row,
        m.column == column,
        row < VGA_HEIGHT,
        column <= VGA_WIDTH,
    ensures
        ok == kentos_stdio::bytes_ok(m, bs@),
{
    let mut r = row;
    let mut c = column;
    let mut i: usize = 0;
    while i < bs.len()
        invariant
            i <= bs@.len(),
            kentos_stdio::bytes_ok(m, bs@.take(i as int)),
            kentos_stdio::write_bytes(m, bs@.take(i as int)).row == r,
            kentos_stdio::write_bytes(m, bs@.take(i as int)).column == c,
            r < VGA_HEIGHT,
            c <= VGA_WIDTH,
        decreases bs@.len() - i,
    {
        proof {
            assert(bs@.take(i + 1).drop_last() =~= bs@.take(i as int));
        }
        let b = bs[i];
        let shown: u8 = if (0x20u8 <= b && b <= 0x7eu8) || b == 10u8 || b == 8u8 { b } else { 0xfeu8 };
        if shown == 8u8 {
            if c == 0 {
                if r == 0 {
                    proof {
                        if kentos_stdio::bytes_ok(m, bs@) {
                            crate::kentos_stdio::lemma_bytes_ok_prefix(m, bs@, i + 1);
                        }
                    }
                    return false;
                }
                r -= 1;
                c = VGA_WIDTH - 1;
            } else {
                c -= 1;
            }
        } else if shown == 10u8 {
            c = 0;
        } else {
            if c >= VGA_WIDTH {
                c = 0;
            }
            c += 1;
        }
        i += 1;
    }
    proof {
        assert(bs@.take(i as int) =~= bs@);
    }
    true
}

/// From a cursor on the screen, printing bytes none of which is a backspace
/// never leaves the screen.
pub proof fn lemma_no_backspace_ok(m: WriterModel, bs: Seq<u8>)
    requires
        m.wf(),
        forall|i: int| 0 <= i < bs.len() ==> #[trigger] bs[i] != 8,
    ensures
        kentos_stdio::bytes_ok(m, bs),
    decreases bs.len(),
{
    if bs.len() > 0 {
        let p = bs.drop_last();
        assert forall|i: int| 0 <= i < p.len() implies #[trigger] p[i] != 8 by {
            assert(p[i] == bs[i]);
        }
        lemma_no_backspace_ok(m, p);
        kentos_stdio::lemma_write_bytes_wf(m, p);
        assert(bs.last() == bs[bs.len() - 1]);
    }
}

/// The UTF-8 encoding of a character string grows character by character.
pub proof fn lemma_encode_push(s: Seq<char>, c: char)
    ensures
        vstd::utf8::encode_utf8(s.push(c)) == vstd::utf8::encode_utf8(s) + vstd::utf8::encode_utf8(seq![c]),
    decreases s.len(),
{
    if s.len() == 0 {
        assert(s.push(c) =~= seq![c]);
        assert(vstd::utf8::encode_utf8(s) =~= Seq::<u8>::empty());
        assert(Seq::<u8>::empty() + vstd::utf8::encode_utf8(seq![c]) =~= vstd::utf8::encode_utf8(seq![c]));
    } else {
        assert(s.push(c).drop_first() =~= s.drop_first().push(c));
        lemma_encode_push(s.drop_first(), c);
        assert(s.push(c)[0] == s[0]);
        let h = vstd::utf8::encode_scalar(s[0] as u32);
        let t = vstd::utf8::encode_utf8(s.drop_first());
        let e = vstd::utf8::encode_utf8(seq![c]);
        assert(h + (t + e) =~= (h + t) + e);
    }
}

/// Appends the UTF-8 bytes of `s` to `v`.
fn push_str(v: &mut Vec<u8>, s: &str)
    ensures
        final(v)@ == old(v)@ + vstd::utf8::encode_utf8(s@),
{
    let bytes = s.as_bytes();
    let mut i: usize = 0;
    while i < bytes.len()
        invariant
            i <= bytes@.len(),
            bytes@ == vstd::utf8::encode_utf8(s@),
            v@ == old(v)@ + bytes@.take(i as int),
        decreases bytes@.len() - i,
    {
        v.push(bytes[i]);
        assert(bytes@.take(i + 1) =~= bytes@.take(i as int).push(bytes@[i as int]));
        i += 1;
    }
    assert(bytes@.take(i as int) =~= bytes@);
}

/// Appends the UTF-8 bytes of the characters of `cs` from index `from` on.
fn push_chars(v: &mut Vec<u8>, cs: &Vec<char>, from: usize)
    requires
        from <= cs@.len(),
    ensures
        final(v)@ == old(v)@ + vstd::utf8::encode_utf8(cs@.skip(from as int)),
{
    let mut i: usize = from;
    assert(cs@.subrange(from as int, from as int) =~= Seq::<char>::empty());
    assert(old(v)@ + vstd::utf8::encode_utf8(Seq::<char>::empty()) =~= old(v)@);
    while i < cs.len()
        invariant
            from <= i <= cs@.len(),
            v@ == old(v)@ + vstd::utf8::encode_utf8(cs@.subrange(from as int, i as int)),
        decreases cs@.len() - i,
    {
        let c = cs[i];
        let enc = kentos_stdio::encode_char(c);
        let mut j: usize = 0;
        let ghost before = v@;
        while j < enc.len()
            invariant
                j <= enc@.len(),
                v@ == before + enc@.take(j as int),
            decreases enc@.len() - j,
        {
            v.push(enc[j]);
            assert(enc@.take(j + 1) =~= enc@.take(j as int).push(enc@[j as int]));
            j += 1;
        }
        proof {
            assert(enc@.take(j as int) =~= enc@);
            assert(cs@.subrange(from as int, i + 1) =~= cs@.subrange(from as int, i as int).push(c));
            lemma_encode_push(cs@.subrange(from as int, i as int), c);
            let a = vstd::utf8::encode_utf8(cs@.subrange(from as int, i as int));
            assert(old(v)@ + (a + enc@) =~= (old(v)@ + a) + enc@);
        }
        i += 1;
    }
    assert(cs@.subrange(from as int, i as int) =~= cs@.skip(from as int));
}

/// The decimal digits of `n`, most significant first, as ASCII bytes.
pub open spec fn decimal(n: nat) -> Seq<u8>
    decreases n,
{
    if n < 10 {
        seq![(48 + n) as u8]
    } else {
        decimal(n / 10).push((48 + n % 10) as u8)
    }
}

/// The decimal digits of `n`, as `{}` formats an integer.
fn decimal_digits(n: u64) -> (v: Vec<u8>)
    ensures
        v@ == decimal(n as nat),
    decreases n,
{
    if n < 10 {
        vec![48u8 + n as u8]
    } else {
        let mut v = decimal_digits(n / 10);
        v.push(48u8 + (n % 10) as u8);
        v
    }
}

/// The line a test run reports: `Test no. <n>, <name>_test, passed.` on the
/// success channel, or `... failed.` on the error channel.
pub open spec fn test_report(test_no: u64, name: Seq<char>, passed: bool) -> (Channel, Seq<u8>) {
    (
        if passed { Channel::Success } else { Channel::Error },
        vstd::utf8::encode_utf8("Test no. "@) + decimal(test_no as nat) + vstd::utf8::encode_utf8(", "@)
            + vstd::utf8::encode_utf8(name) + vstd::utf8::encode_utf8("_test, "@) + (if passed {
            vstd::utf8::encode_utf8("passed.\n"@)
        } else {
            vstd::utf8::encode_utf8("failed.\n"@)
        }),
    )
}

/// The channel and bytes of a test report.
fn test_report_bytes(test_no: u64, test_name: &str, passed: bool) -> (out: (Channel, Vec<u8>))
    ensures
        out.0 == test_report(test_no, test_name@, passed).0,
        out.1@ == test_report(test_no, test_name@, passed).1,
{
    let mut v: Vec<u8> = Vec::new();
    push_str(&mut v, "Test no. ");
    let digits = decimal_digits(test_no);
    let mut i: usize = 0;
    let ghost before = v@;
    while i < digits.len()
        invariant
            i <= digits@.len(),
            v@ == before + digits@.take(i as int),
        decreases digits@.len() - i,
    {
        v.push(digits[i]);
        assert(digits@.take(i + 1) =~= digits@.take(i as int).push(digits@[i as int]));
        i += 1;
    }
    assert(digits@.take(i as int) =~= digits@);
    push_str(&mut v, ", ");
    push_str(&mut v, test_name);
    push_str(&mut v, "_test, ");
    if passed {
        push_str(&mut v, "passed.\n");
        (Channel::Success, v)
    } else {
        push_str(&mut v, "failed.\n");
        (Channel::Error, v)
    }
}

/// What a command line asks the shell for.
#[derive(Debug, Clone, Copy, PartialEq, Eq, Structural)]
pub enum Command {
    /// `greet`: say hello.
    Greet,
    /// `echo ` followed by text: print the text.
    Echo,
    /// `echo` alone: print an empty line.
    EchoEmpty,
    /// `reboot`: clear the screen and start the kernel again.
    Reboot,
    /// `clear`: scroll the screen empty.
    Clear,
    /// An empty line: nothing.
    Empty,
    /// Anything else: an error message.
    Unknown,
}

/// The command that the command line `s` asks for.
pub open spec fn command_of(s: Seq<char>) -> Command {
    if s == seq!['g', 'r', 'e', 'e', 't'] {
        Command::Greet
    } else if s.len() >= 5 && s.take(5) == seq!['e', 'c', 'h', 'o', ' '] {
        Command::Echo
    } else if s == seq!['e', 'c', 'h', 'o'] {
        Command::EchoEmpty
    } else if s == seq!['r', 'e', 'b', 'o', 'o', 't'] {
        Command::Reboot
    } else if s == seq!['c', 'l', 'e', 'a', 'r'] {
        Command::Clear
    } else if s.len() == 0 {
        Command::Empty
    } else {
        Command::Unknown
    }
}

/// Whether `s` starts with the characters of `word`.
fn starts_with(s: &Vec<char>, word: &[char]) -> (b: bool)
    ensures
        b == (s@.len() >= word@.len() && s@.take(word@.len() as int) == word@),
{
    if s.len() < word.len() {
        return false;
    }
    let mut i: usize = 0;
    while i < word.len()
        invariant
            i <= word@.len(),
            word@.len() <= s@.len(),
            s@.take(i as int) == word@.take(i as int),
        decreases word@.len() - i,
    {
        if s[i] != word[i] {
            assert(s@.take(word@.len() as int)[i as int] != word@[i as int]);
            return false;
        }
        assert(s@.take(i + 1) =~= s@.take(i as int).push(s@[i as int]));
        assert(word@.take(i + 1) =~= word@.take(i as int).push(word@[i as int]));
        i += 1;
    }
    assert(word@.take(i as int) =~= word@);
    true
}

/// Whether `s` is exactly `word`.
fn is_word(s: &Vec<char>, word: &[char]) -> (b: bool)
    ensures
        b == (s@ == word@),
{
    let r = s.len() == word.len() && starts_with(s, word);
    proof {
        if s@.len() == word@.len() {
            assert(s@.take(word@.len() as int) =~= s@);
        }
    }
    r
}

/// Recognises the command of a command line.
pub fn parse_command(input: &Vec<char>) -> (c: Command)
    ensures
        c == command_of(input@),
{
    let greet = ['g', 'r', 'e', 'e', 't'];
    let echo_sp = ['e', 'c', 'h', 'o', ' '];
    let echo = ['e', 'c', 'h', 'o'];
    let reboot = ['r', 'e', 'b', 'o', 'o', 't'];
    let clear = ['c', 'l', 'e', 'a', 'r'];
    assert(greet@ =~= seq!['g', 'r', 'e', 'e', 't']);
    assert(echo_sp@ =~= seq!['e', 'c', 'h', 'o', ' ']);
    assert(echo@ =~= seq!['e', 'c', 'h', 'o']);
    assert(reboot@ =~= seq!['r', 'e', 'b', 'o', 'o', 't']);
    assert(clear@ =~= seq!['c', 'l', 'e', 'a', 'r']);
    if is_word(input, greet.as_slice()) {
        Command::Greet
    } else if starts_with(input, echo_sp.as_slice()) {
        Command::Echo
    } else if is_word(input, echo.as_slice()) {
        Command::EchoEmpty
    } else if is_word(input, reboot.as_slice()) {
        Command::Reboot
    } else if is_word(input, clear.as_slice()) {
        Command::Clear
    } else if input.len() == 0 {
        Command::Empty
    } else {
        Command::Unknown
    }
}

/// `n` line feeds.
pub open spec fn newlines(n: nat) -> Seq<u8> {
    Seq::new(n, |i: int| 10u8)
}

/// Where a command prints and what: `greet` prints `Hello` and a line feed,
/// `echo ` prints the rest of the line and a line feed, `echo` a line feed,
/// `reboot` and `clear` one line feed per screen row but one, an empty line
/// nothing; anything else prints `Unknown shell command, ` with the line on the
/// error channel.
pub open spec fn command_output(cmd: Command, input: Seq<char>) -> (Channel, Seq<u8>) {
    match cmd {
        Command::Greet => (Channel::Shell, vstd::utf8::encode_utf8("Hello\n"@)),
        Command::Echo => (Channel::Shell, vstd::utf8::encode_utf8(input.skip(5)) + vstd::utf8::encode_utf8("\n"@)),
        Command::EchoEmpty => (Channel::Shell, vstd::utf8::encode_utf8("\n"@)),
        Command::Reboot => (Channel::Shell, newlines((VGA_HEIGHT - 1) as nat)),
        Command::Clear => (Channel::Shell, newlines((VGA_HEIGHT - 1) as nat)),
        Command::Empty => (Channel::Shell, Seq::empty()),
        Command::Unknown => (
            Channel::Error,
            vstd::utf8::encode_utf8("Unknown shell command, "@) + vstd::utf8::encode_utf8(input) + vstd::utf8::encode_utf8("\n"@),
        ),
    }
}

/// The channel and bytes that `cmd` prints for the command line `input`.
fn command_bytes(cmd: Command, input: &Vec<char>) -> (out: (Channel, Vec<u8>))
    requires
        cmd == command_of(input@),
    ensures
        out.0 == command_output(cmd, input@).0,
        out.1@ == command_output(cmd, input@).1,
{
    let mut v: Vec<u8> = Vec::new();
    match cmd {
        Command::Greet => {
            push_str(&mut v, "Hello\n");
            (Channel::Shell, v)
        },
        Command::Echo => {
            push_chars(&mut v, input, 5);
            push_str(&mut v, "\n");
            (Channel::Shell, v)
        },
        Command::EchoEmpty => {
            push_str(&mut v, "\n");
            (Channel::Shell, v)
        },
        Command::Reboot | Command::Clear => {
            for k in 1..VGA_HEIGHT
                invariant
                    v@ == newlines((k - 1) as nat),
            {
                v.push(10u8);
                assert(v@ =~= newlines(k as nat));
            }
            (Channel::Shell, v)
        },
        Command::Empty => {
            assert(v@ =~= Seq::<u8>::empty());
            (Channel::Shell, v)
        },
        Command::Unknown => {
            push_str(&mut v, "Unknown shell command, ");
            push_chars(&mut v, input, 0);
            assert(input@.skip(0) =~= input@);
            push_str(&mut v, "\n");
            (Channel::Error, v)
        },
    }
}

/// What the kernel's main loop does after one turn of the shell.
#[derive(Debug, Clone, Copy, PartialEq, Eq, Structural)]
pub enum ShellAction {
    /// No key was pending: enable interrupts and halt until the next one.
    Halt,
    /// A key was handled: look again at once.
    Continue,
    /// The `reboot` command ran: start the kernel over.
    Reboot,
}

/// The bytes of the shell prompt.
pub open spec fn prompt() -> Seq<u8> {
    vstd::utf8::encode_utf8(">"@)
}

/// One turn of the kernel's main loop over the console `m`.
///
/// With no key pending nothing happens and the kernel halts. A line feed runs
/// the command line: its output is printed, the line and the key counter are
/// reset, and unless the command was `reboot` the pending key is consumed and
/// the prompt `>` printed (a reboot leaves the line feed pending). Any other
/// key is appended to the command line and consumed.
pub open spec fn poll_step(m: ConsoleModel) -> (ConsoleModel, ShellAction) {
    if m.last_key == '\0' {
        (m, ShellAction::Halt)
    } else if m.last_key == '\n' {
        let cmd = command_of(m.input);
        let out = command_output(cmd, m.input);
        let ran = m.print(out.0, out.1);
        if cmd == Command::Reboot {
            (ConsoleModel { input: Seq::empty(), typed: 0, ..ran }, ShellAction::Reboot)
        } else {
            (
                ConsoleModel { last_key: '\0', input: Seq::empty(), typed: 0, ..ran }.print(Channel::Shell, prompt()),
                ShellAction::Continue,
            )
        }
    } else {
        (
            ConsoleModel { last_key: '\0', input: m.input.push(m.last_key), typed: (m.typed + 1) as u8, ..m },
            ShellAction::Continue,
        )
    }
}

/// A turn of the main loop stays defined: the command's output keeps the
/// cursor on the screen, and the byte-sized key counter does not overflow.
pub open spec fn poll_ok(m: ConsoleModel) -> bool {
    if m.last_key == '\0' {
        true
    } else if m.last_key == '\n' {
        let out = command_output(command_of(m.input), m.input);
        m.print_ok(out.0, out.1)
    } else {
        m.typed < 255
    }
}

/// The console after the keyboard delivered the make code `code`: a key of
/// the table becomes the pending key and is echoed on the shell channel;
/// any other code changes nothing.
pub open spec fn key_step(m: ConsoleModel, code: u8) -> ConsoleModel {
    match kentos_interrupts::scancode_char(code) {
        Some(x) => ConsoleModel { last_key: x, ..m }.print(Channel::Shell, vstd::utf8::encode_utf8(seq![x])),
        None => m,
    }
}

/// Echoing the key of `code` keeps the shell cursor on the screen.
pub open spec fn key_ok(m: ConsoleModel, code: u8) -> bool {
    match kentos_interrupts::scancode_char(code) {
        Some(x) => m.print_ok(Channel::Shell, vstd::utf8::encode_utf8(seq![x])),
        None => true,
    }
}

/// The kernel console.
pub struct Console {
    writer: Writer,
    error_writer: Writer,
    success_writer: Writer,
    shell_writer: Writer,
    last_key: char,
    input: Vec<char>,
    char_no_idx: u8,
}

impl View for Console {
    type V = ConsoleModel;

    closed spec fn view(&self) -> ConsoleModel {
        ConsoleModel {
            screen: self.shell_writer.buffer@,
            main: cursor_of(&self.writer),
            error: cursor_of(&self.error_writer),
            success: cursor_of(&self.success_writer),
            shell: cursor_of(&self.shell_writer),
            last_key: self.last_key,
            input: self.input@,
            typed: self.char_no_idx,
        }
    }
}

/// A well-formed console model: every cursor on a well-formed screen, and
/// the key counter matching the command line.
pub open spec fn console_wf(m: ConsoleModel) -> bool {
    &&& m.writer(Channel::Main).wf()
    &&& m.writer(Channel::Error).wf()
    &&& m.writer(Channel::Success).wf()
    &&& m.writer(Channel::Shell).wf()
    &&& m.input.len() == m.typed
}

impl Console {
    /// The console is well formed.
    pub closed spec fn wf(&self) -> bool {
        &&& self.writer.wf()
        &&& self.error_writer.wf()
        &&& self.success_writer.wf()
        &&& self.shell_writer.wf()
        &&& self.input@.len() == self.char_no_idx
    }

    /// A well-formed console has a well-formed model.
    pub proof fn lemma_wf(&self)
        requires
            self.wf(),
        ensures
            console_wf(self@),
    {
        self.shell_writer.lemma_view_wf();
    }

    /// The console as the kernel starts it on `screen`: each writer at the
    /// start of the bottom row in its colour, no key pending, an empty
    /// command line.
    pub fn new(screen: Buffer) -> (c: Console)
        ensures
            c.wf(),
            c@.screen == screen@,
            forall|ch: Channel| #[trigger] c@.cursor(ch) == (Cursor { row: VGA_HEIGHT - 1, column: 0, colour: channel_colour(ch) }),
            c@.last_key == '\0',
            c@.input == Seq::<char>::empty(),
            c@.typed == 0,
    {
        let main = ColourCode::new(Colour::Yellow, Colour::Black);
        let error = ColourCode::new(Colour::LightRed, Colour::Black);
        let success = ColourCode::new(Colour::LightGreen, Colour::Black);
        let shell = ColourCode::new(Colour::White, Colour::Black);
        let scratch = ScreenChar { ascii_char: 32u8, colour_code: main };
        Console {
            writer: Writer { row: VGA_HEIGHT - 1, column: 0, colourc: main, buffer: Buffer::filled(scratch) },
            error_writer: Writer { row: VGA_HEIGHT - 1, column: 0, colourc: error, buffer: Buffer::filled(scratch) },
            success_writer: Writer { row: VGA_HEIGHT - 1, column: 0, colourc: success, buffer: Buffer::filled(scratch) },
            shell_writer: Writer { row: VGA_HEIGHT - 1, column: 0, colourc: shell, buffer: screen },
            last_key: '\0',
            input: Vec::new(),
            char_no_idx: 0,
        }
    }

    /// The shared screen, for copying to video memory.
    pub fn screen(&self) -> (b: &Buffer)
        ensures
            b@ == self@.screen,
    {
        &self.shell_writer.buffer
    }

    /// Prints `bs` on channel `ch`.
    fn print(&mut self, ch: Channel, bs: &[u8])
        requires
            old(self).wf(),
            old(self)@.print_ok(ch, bs@),
        ensures
            final(self).wf(),
            final(self)@ == old(self)@.print(ch, bs@),
    {
        match ch {
            Channel::Shell => {
                self.shell_writer.print_bytes(bs);
            },
            Channel::Main => {
                core::mem::swap(&mut self.writer.buffer, &mut self.shell_writer.buffer);
                self.writer.print_bytes(bs);
                core::mem::swap(&mut self.writer.buffer, &mut self.shell_writer.buffer);
            },
            Channel::Error => {
                core::mem::swap(&mut self.error_writer.buffer, &mut self.shell_writer.buffer);
                self.error_writer.print_bytes(bs);
                core::mem::swap(&mut self.error_writer.buffer, &mut self.shell_writer.buffer);
            },
            Channel::Success => {
                core::mem::swap(&mut self.success_writer.buffer, &mut self.shell_writer.buffer);
                self.success_writer.print_bytes(bs);
                core::mem::swap(&mut self.success_writer.buffer, &mut self.shell_writer.buffer);
            },
        }
    }

    /// Whether printing `bs` on `ch` keeps the cursor on the screen.
    fn can_print(&self, ch: Channel, bs: &[u8]) -> (ok: bool)
        requires
            self.wf(),
        ensures
            ok == self@.print_ok(ch, bs@),
    {
        match ch {
            Channel::Main => printable(self.writer.row, self.writer.column, bs, Ghost(self@.writer(ch))),
            Channel::Error => printable(self.error_writer.row, self.error_writer.column, bs, Ghost(self@.writer(ch))),
            Channel::Success => printable(self.success_writer.row, self.success_writer.column, bs, Ghost(self@.writer(ch))),
            Channel::Shell => printable(self.shell_writer.row, self.shell_writer.column, bs, Ghost(self@.writer(ch))),
        }
    }

    /// Prints the UTF-8 bytes of `s` on channel `ch`, as `write!` on that
    /// writer does.
    pub fn write(&mut self, ch: Channel, s: &str)
        requires
            old(self).wf(),
            old(self)@.print_ok(ch, vstd::utf8::encode_utf8(s@)),
        ensures
            final(self).wf(),
            final(self)@ == old(self)@.print(ch, vstd::utf8::encode_utf8(s@)),
    {
        self.print(ch, s.as_bytes());
    }

    /// One turn of the kernel's main loop, run with interrupts disabled.
    pub fn poll(&mut self) -> (action: ShellAction)
        requires
            old(self).wf(),
            poll_ok(old(self)@),
        ensures
            final(self).wf(),
            (final(self)@, action) == poll_step(old(self)@),
    {
        let key = self.last_key;
        if key == '\0' {
            return ShellAction::Halt;
        }
        if key == '\n' {
            let cmd = parse_command(&self.input);
            let (ch, bytes) = command_bytes(cmd, &self.input);
            self.print(ch, bytes.as_slice());
            if cmd == Command::Reboot {
                self.input = Vec::new();
                self.char_no_idx = 0;
                return ShellAction::Reboot;
            }
            self.last_key = '\0';
            self.char_no_idx = 0;
            self.input = Vec::new();
            let mut p: Vec<u8> = Vec::new();
            push_str(&mut p, ">");
            proof {
                reveal_strlit(">");
                assert(vstd::utf8::is_ascii_chars(">"@));
                vstd::utf8::is_ascii_chars_encode_utf8(">"@);
                assert(p@ =~= seq![62u8]);
                lemma_no_backspace_ok(self@.writer(Channel::Shell), p@);
            }
            self.print(Channel::Shell, p.as_slice());
            return ShellAction::Continue;
        }
        self.input.push(key);
        self.char_no_idx += 1;
        self.last_key = '\0';
        ShellAction::Continue
    }

    /// Whether `poll` may be called.
    pub fn can_poll(&self) -> (ok: bool)
        requires
            self.wf(),
        ensures
            ok == poll_ok(self@),
    {
        let key = self.last_key;
        if key == '\0' {
            true
        } else if key == '\n' {
            let cmd = parse_command(&self.input);
            let (ch, bytes) = command_bytes(cmd, &self.input);
            self.can_print(ch, bytes.as_slice())
        } else {
            self.char_no_idx < 255
        }
    }

    /// The keyboard interrupt with make code `scancode`; returns the vector to
    /// acknowledge to the interrupt controller.
    pub fn on_keyboard_interrupt(&mut self, scancode: u8) -> (eoi: u8)
        requires
            old(self).wf(),
            key_ok(old(self)@, scancode),
        ensures
            final(self).wf(),
            final(self)@ == key_step(old(self)@, scancode),
            eoi == kentos_interrupts::vector_of(InterruptIndex::Keyboard),
    {
        match kentos_interrupts::scancode_to_ascii(scancode) {
            Some(x) => {
                self.last_key = x;
                let bytes = kentos_stdio::encode_char(x);
                self.print(Channel::Shell, bytes.as_slice());
            },
            None => {},
        }
        InterruptIndex::Keyboard.as_u8()
    }

    /// Whether `on_keyboard_interrupt(scancode)` may be called.
    pub fn can_take_scancode(&self, scancode: u8) -> (ok: bool)
        requires
            self.wf(),
        ensures
            ok == key_ok(self@, scancode),
    {
        match kentos_interrupts::scancode_to_ascii(scancode) {
            Some(x) => {
                let bytes = kentos_stdio::encode_char(x);
                self.can_print(Channel::Shell, bytes.as_slice())
            },
            None => true,
        }
    }

    /// The timer interrupt: in a debug build (`debug_build`) a dot on the
    /// kernel channel, in a release build nothing; returns the vector to
    /// acknowledge to the interrupt controller.
    pub fn on_timer_interrupt(&mut self, debug_build: bool) -> (eoi: u8)
        requires
            old(self).wf(),
        ensures
            final(self).wf(),
            debug_build ==> final(self)@ == old(self)@.print(Channel::Main, vstd::utf8::encode_utf8("."@)),
            !debug_build ==> final(self)@ == old(self)@,
            eoi == kentos_interrupts::vector_of(InterruptIndex::Timer),
    {
        if !debug_build {
            return InterruptIndex::Timer.as_u8();
        }
        proof {
            reveal_strlit(".");
            assert(vstd::utf8::is_ascii_chars("."@));
            vstd::utf8::is_ascii_chars_encode_utf8("."@);
            assert(vstd::utf8::encode_utf8("."@) =~= seq![46u8]);
            lemma_no_backspace_ok(self@.writer(Channel::Main), vstd::utf8::encode_utf8("."@));
        }
        self.write(Channel::Main, ".");
        InterruptIndex::Timer.as_u8()
    }

    /// Reports test number `test_no`, called `test_name`, whose run returned
    /// `outcome`, and passes the outcome on.
    pub fn test(&mut self, test_no: u64, test_name: &str, outcome: Result<(), ()>) -> (r: Result<(), ()>)
        requires
            old(self).wf(),
            old(self)@.print_ok(
                test_report(test_no, test_name@, outcome is Ok).0,
                test_report(test_no, test_name@, outcome is Ok).1,
            ),
        ensures
            final(self).wf(),
            final(self)@ == old(self)@.print(
                test_report(test_no, test_name@, outcome is Ok).0,
                test_report(test_no, test_name@, outcome is Ok).1,
            ),
            r == outcome,
    {
        let passed = match outcome {
            Ok(()) => true,
            Err(()) => false,
        };
        let (ch, bytes) = test_report_bytes(test_no, test_name, passed);
        self.print(ch, bytes.as_slice());
        outcome
    }

    /// Whether `test(test_no, test_name, outcome)` may be called.
    pub fn can_test(&self, test_no: u64, test_name: &str, outcome: Result<(), ()>) -> (ok: bool)
        requires
            self.wf(),
        ensures
            ok == self@.print_ok(
                test_report(test_no, test_name@, outcome is Ok).0,
                test_report(test_no, test_name@, outcome is Ok).1,
            ),
    {
        let passed = match outcome {
            Ok(()) => true,
            Err(()) => false,
        };
        let (ch, bytes) = test_report_bytes(test_no, test_name, passed);
        self.can_print(ch, bytes.as_slice())
    }

    /// Prints `s` in foreground `fg` on background `bg` with a fresh writer at
    /// the start of the bottom row of the console's screen, as `k_puts` does;
    /// the channels' cursors are left as they were.
    pub fn k_puts(&mut self, s: &str, fg: Colour, bg: Colour)
        requires
            old(self).wf(),
            kentos_stdio::bytes_ok(kentos_stdio::k_puts_writer(old(self)@.screen, fg, bg), vstd::utf8::encode_utf8(s@)),
        ensures
            final(self).wf(),
            final(self)@ == (ConsoleModel {
                screen: kentos_stdio::write_bytes(
                    kentos_stdio::k_puts_writer(old(self)@.screen, fg, bg),
                    vstd::utf8::encode_utf8(s@),
                ).screen,
                ..old(self)@
            }),
    {
        kentos_stdio::k_puts(&mut self.shell_writer.buffer, s, fg, bg);
    }

    /// Whether `k_puts(s, fg, bg)` may be called: printing `s` from the start
    /// of the bottom row stays within the buffer.
    pub fn can_k_puts(&self, s: &str, fg: Colour, bg: Colour) -> (ok: bool)
        ensures
            ok == kentos_stdio::bytes_ok(kentos_stdio::k_puts_writer(self@.screen, fg, bg), vstd::utf8::encode_utf8(s@)),
    {
        printable(VGA_HEIGHT - 1, 0, s.as_bytes(), Ghost(kentos_stdio::k_puts_writer(self@.screen, fg, bg)))
    }

    /// Whether `write(ch, s)` may be called: printing `s` on `ch` does not move
    /// the cursor above the top row.
    pub fn can_write(&self, ch: Channel, s: &str) -> (ok: bool)
        requires
            self.wf(),
        ensures
            ok == self@.print_ok(ch, vstd::utf8::encode_utf8(s@)),
    {
        self.can_print(ch, s.as_bytes())
    }
}


/// Printing on one channel keeps a well-formed console well formed, keeps
/// the channel's colour, and leaves the other channels' cursors, the pending
/// key and the command line alone.
pub proof fn lemma_print_wf(m: ConsoleModel, ch: Channel, bs: Seq<u8>)
    requires
        console_wf(m),
        m.print_ok(ch, bs),
    ensures
        console_wf(m.print(ch, bs)),
        m.print(ch, bs).cursor(ch).colour == m.cursor(ch).colour,
        forall|other: Channel| other != ch ==> #[trigger] m.print(ch, bs).cursor(other) == m.cursor(other),
        m.print(ch, bs).last_key == m.last_key,
        m.print(ch, bs).input == m.input,
        m.print(ch, bs).typed == m.typed,
{
    kentos_stdio::lemma_write_bytes_wf(m.writer(ch), bs);
}

/// Every turn of the main loop keeps a well-formed console well formed; after
/// a line feed the command line is empty again.
pub proof fn lemma_poll_wf(m: ConsoleModel)
    requires
        console_wf(m),
        poll_ok(m),
    ensures
        console_wf(poll_step(m).0),
        m.last_key == '\n' ==> poll_step(m).0.input == Seq::<char>::empty(),
{
    if m.last_key == '\n' {
        let cmd = command_of(m.input);
        let out = command_output(cmd, m.input);
        lemma_print_wf(m, out.0, out.1);
        let ran = m.print(out.0, out.1);
        let reset = ConsoleModel { last_key: '\0', input: Seq::empty(), typed: 0, ..ran };
        if cmd != Command::Reboot {
            assert(forall|i: int| 0 <= i < prompt().len() ==> #[trigger] prompt()[i] != 8) by {
                reveal_strlit(">");
                assert(vstd::utf8::is_ascii_chars(">"@));
                vstd::utf8::is_ascii_chars_encode_utf8(">"@);
            }
            lemma_no_backspace_ok(reset.writer(Channel::Shell), prompt());
            lemma_print_wf(reset, Channel::Shell, prompt());
        }
    }
}

/// A key delivered by the keyboard keeps a well-formed console well formed.
pub proof fn lemma_key_wf(m: ConsoleModel, code: u8)
    requires
        console_wf(m),
        key_ok(m, code),
    ensures
        console_wf(key_step(m, code)),
{
    if let Some(x) = kentos_interrupts::scancode_char(code) {
        lemma_print_wf(ConsoleModel { last_key: x, ..m }, Channel::Shell, vstd::utf8::encode_utf8(seq![x]));
    }
}

/// `echo` prints its argument: for any text `t`, running the command line
/// `echo t` prints the UTF-8 bytes of `t` and a line feed on the shell
/// channel, then the prompt.
pub proof fn lemma_echo_prints_argument(m: ConsoleModel, t: Seq<char>)
    requires
        m.last_key == '\n',
        m.input == seq!['e', 'c', 'h', 'o', ' '] + t,
    ensures
        poll_step(m).1 == ShellAction::Continue,
        poll_step(m).0 == (ConsoleModel {
            last_key: '\0',
            input: Seq::empty(),
            typed: 0,
            ..m.print(Channel::Shell, vstd::utf8::encode_utf8(t) + vstd::utf8::encode_utf8("\n"@))
        }).print(Channel::Shell, prompt()),
{
    assert(m.input.take(5) =~= seq!['e', 'c', 'h', 'o', ' ']);
    assert(m.input.skip(5) =~= t);
    assert(m.input != seq!['g', 'r', 'e', 'e', 't']) by {
        assert(m.input[0] != 'g');
    }
}

/// `greet` says hello: the command line `greet` prints `Hello` and a line
/// feed on the shell channel, then the prompt.
pub proof fn lemma_greet_says_hello(m: ConsoleModel)
    requires
        m.last_key == '\n',
        m.input == seq!['g', 'r', 'e', 'e', 't'],
    ensures
        poll_step(m).1 == ShellAction::Continue,
        poll_step(m).0 == (ConsoleModel {
            last_key: '\0',
            input: Seq::empty(),
            typed: 0,
            ..m.print(Channel::Shell, vstd::utf8::encode_utf8("Hello\n"@))
        }).print(Channel::Shell, prompt()),
{
}

/// `reboot` scrolls the screen and restarts the kernel; the line feed stays
/// pending, so the restarted shell first runs an empty command line.
pub proof fn lemma_reboot_restarts(m: ConsoleModel)
    requires
        m.last_key == '\n',
        m.input == seq!['r', 'e', 'b', 'o', 'o', 't'],
    ensures
        poll_step(m).1 == ShellAction::Reboot,
        poll_step(m).0.last_key == '\n',
        poll_step(m).0.input == Seq::<char>::empty(),
        command_of(poll_step(m).0.input) == Command::Empty,
{
    assert(m.input != seq!['g', 'r', 'e', 'e', 't']) by {
        assert(m.input[0] != 'g');
    }
    assert(!(m.input.take(5) == seq!['e', 'c', 'h', 'o', ' '])) by {
        assert(m.input.take(5)[0] != 'e');
    }
    assert(m.input != seq!['e', 'c', 'h', 'o']);
    let e = Seq::<char>::empty();
    assert(seq!['g', 'r', 'e', 'e', 't'].len() == 5);
    assert(seq!['e', 'c', 'h', 'o'].len() == 4);
    assert(seq!['r', 'e', 'b', 'o', 'o', 't'].len() == 6);
    assert(seq!['c', 'l', 'e', 'a', 'r'].len() == 5);
    assert(command_of(e) == Command::Empty);
}

/// A command line that is none of the built-in commands is answered on the
/// error channel with `Unknown shell command, ` followed by the line itself.
pub proof fn lemma_unknown_command_reported(m: ConsoleModel)
    requires
        m.last_key == '\n',
        command_of(m.input) == Command::Unknown,
    ensures
        poll_step(m).1 == ShellAction::Continue,
        poll_step(m).0 == (ConsoleModel {
            last_key: '\0',
            input: Seq::empty(),
            typed: 0,
            ..m.print(
                Channel::Error,
                vstd::utf8::encode_utf8("Unknown shell command, "@) + vstd::utf8::encode_utf8(m.input)
                    + vstd::utf8::encode_utf8("\n"@),
            )
        }).print(Channel::Shell, prompt()),
{
}

/// Typing a key that is not a line feed appends it to the command line and
/// consumes it; nothing is printed.
pub proof fn lemma_typing_appends(m: ConsoleModel)
    requires
        m.last_key != '\0',
        m.last_key != '\n',
    ensures
        poll_step(m).1 == ShellAction::Continue,
        poll_step(m).0.input == m.input.push(m.last_key),
        poll_step(m).0.last_key == '\0',
        poll_step(m).0.screen == m.screen,
{
}

/// A key of the table is echoed where the shell cursor stands: when the
/// shell's line is not full, a printable key appears at the cursor in the
/// shell's colour and the cursor moves one cell right.
pub proof fn lemma_key_echoed(m: ConsoleModel, code: u8)
    requires
        console_wf(m),
        m.shell.column < VGA_WIDTH,
        kentos_interrupts::scancode_char(code) matches Some(x) && 0x20 <= (x as u32) <= 0x7e,
    ensures
        key_ok(m, code),
        key_step(m, code).last_key == kentos_interrupts::scancode_char(code)->0,
        key_step(m, code).screen[m.shell.row][m.shell.column] == (ScreenChar {
            ascii_char: kentos_interrupts::scancode_char(code)->0 as u8,
            colour_code: m.shell.colour,
        }),
        key_step(m, code).shell.row == m.shell.row,
        key_step(m, code).shell.column == m.shell.column + 1,
{
    let x = kentos_interrupts::scancode_char(code)->0;
    let k = ConsoleModel { last_key: x, ..m };
    assert(vstd::utf8::is_ascii_chars(seq![x]));
    vstd::utf8::is_ascii_chars_encode_utf8(seq![x]);
    let bs = vstd::utf8::encode_utf8(seq![x]);
    assert(bs =~= seq![x as u8]);
    kentos_stdio::lemma_text_appears(k.writer(Channel::Shell), bs);
    assert(bs[0] == x as u8);
}


/// A key typed on the keyboard reaches the command line: after the keyboard
/// interrupt for a key other than Enter, the next turn of the main loop
/// appends its character to the line.
pub proof fn lemma_typed_key_reaches_line(m: ConsoleModel, code: u8)
    requires
        console_wf(m),
        key_ok(m, code),
        kentos_interrupts::scancode_char(code) matches Some(x) && x != '\n',
    ensures
        poll_step(key_step(m, code)).0.input == m.input.push(kentos_interrupts::scancode_char(code)->0),
        poll_step(key_step(m, code)).0.last_key == '\0',
        poll_step(key_step(m, code)).1 == ShellAction::Continue,
{
    let x = kentos_interrupts::scancode_char(code)->0;
    lemma_print_wf(ConsoleModel { last_key: x, ..m }, Channel::Shell, vstd::utf8::encode_utf8(seq![x]));
}

/// Enter runs the line typed so far: after the keyboard interrupt for Enter,
/// the next turn of the main loop runs the command of the unchanged line.
pub proof fn lemma_enter_runs_line(m: ConsoleModel)
    requires
        console_wf(m),
        key_ok(m, 0x1C),
    ensures
        key_step(m, 0x1C).last_key == '\n',
        key_step(m, 0x1C).input == m.input,
        poll_step(key_step(m, 0x1C)).1 == (if command_of(m.input) == Command::Reboot {
            ShellAction::Reboot
        } else {
            ShellAction::Continue
        }),
{
    lemma_print_wf(ConsoleModel { last_key: '\n', ..m }, Channel::Shell, vstd::utf8::encode_utf8(seq!['\n']));
}

/// The console after each key of `keys` in turn has been delivered as the
/// pending key and consumed by a turn of the main loop.
pub open spec fn type_keys(m: ConsoleModel, keys: Seq<char>) -> ConsoleModel
    decreases keys.len(),
{
    if keys.len() == 0 {
        m
    } else {
        poll_step(ConsoleModel { last_key: keys.last(), ..type_keys(m, keys.drop_last()) }).0
    }
}

/// Every turn of the main loop in `type_keys(m, keys)` stays defined.
pub open spec fn type_keys_ok(m: ConsoleModel, keys: Seq<char>) -> bool
    decreases keys.len(),
{
    if keys.len() == 0 {
        true
    } else {
        type_keys_ok(m, keys.drop_last()) && poll_ok(ConsoleModel { last_key: keys.last(), ..type_keys(m, keys.drop_last()) })
    }
}

/// No line feed and no empty key among `keys`.
pub open spec fn plain_keys(keys: Seq<char>) -> bool {
    forall|i: int| 0 <= i < keys.len() ==> #[trigger] keys[i] != '\n' && keys[i] != '\0'
}

/// Typing keys other than Enter builds the command line: they are appended
/// to it in order and counted, nothing is printed, and as long as the line
/// holds at most 255 keys the byte-sized key counter never overflows.
pub proof fn lemma_typing_builds_line(m: ConsoleModel, keys: Seq<char>)
    requires
        console_wf(m),
        plain_keys(keys),
        m.typed + keys.len() <= 255,
    ensures
        type_keys_ok(m, keys),
        console_wf(type_keys(m, keys)),
        type_keys(m, keys).input == m.input + keys,
        type_keys(m, keys).typed == m.typed + keys.len(),
        type_keys(m, keys).screen == m.screen,
        forall|ch: Channel| #[trigger] type_keys(m, keys).cursor(ch) == m.cursor(ch),
        keys.len() > 0 ==> type_keys(m, keys).last_key == '\0',
        keys.len() == 0 ==> type_keys(m, keys) == m,
    decreases keys.len(),
{
    if keys.len() > 0 {
        let p = keys.drop_last();
        assert forall|i: int| 0 <= i < p.len() implies #[trigger] p[i] != '\n' && p[i] != '\0' by {
            assert(p[i] == keys[i]);
        }
        lemma_typing_builds_line(m, p);
        assert(keys.last() == keys[keys.len() - 1]);
        assert((m.input + p).push(keys.last()) =~= m.input + keys);
    }
}

/// A command depends only on the keys typed since the last line feed: after
/// a line other than `reboot` has run, the line is empty and the counter 0,
/// so typing a new line `keys` and Enter runs exactly `keys`, as it would on
/// a shell where `keys` is the first line typed, with the same screen.
pub proof fn lemma_line_starts_fresh(m: ConsoleModel, keys: Seq<char>)
    requires
        console_wf(m),
        poll_ok(m),
        m.last_key == '\n',
        command_of(m.input) != Command::Reboot,
        plain_keys(keys),
        keys.len() <= 255,
    ensures
        poll_step(m).0.input == Seq::<char>::empty(),
        poll_step(m).0.typed == 0,
        poll_step(m).0.last_key == '\0',
        type_keys_ok(poll_step(m).0, keys),
        type_keys(poll_step(m).0, keys).input == keys,
        poll_step(ConsoleModel { last_key: '\n', ..type_keys(poll_step(m).0, keys) })
            == poll_step(ConsoleModel { last_key: '\n', input: keys, typed: keys.len() as u8, ..poll_step(m).0 }),
{
    lemma_poll_wf(m);
    let m1 = poll_step(m).0;
    lemma_typing_builds_line(m1, keys);
    assert(m1.input + keys =~= keys);
    let t = type_keys(m1, keys);
    if keys.len() == 0 {
        assert(ConsoleModel { last_key: '\n', ..t } == ConsoleModel { last_key: '\n', input: keys, typed: keys.len() as u8, ..m1 });
    } else {
        assert(t.main == m1.cursor(Channel::Main));
        assert(t.error == m1.cursor(Channel::Error));
        assert(t.success == m1.cursor(Channel::Success));
        assert(t.shell == m1.cursor(Channel::Shell));
        assert(ConsoleModel { last_key: '\n', ..t } == ConsoleModel { last_key: '\n', input: keys, typed: keys.len() as u8, ..m1 });
    }
}

/// The number that a string of ASCII digits denotes in base 10.
pub open spec fn digits_value(s: Seq<u8>) -> int
    decreases s.len(),
{
    if s.len() == 0 {
        0
    } else {
        digits_value(s.drop_last()) * 10 + (s.last() - 48)
    }
}

/// `decimal(n)` is the decimal numeral of `n`: a non-empty string of ASCII
/// digits, without a leading zero unless `n` is zero, that reads back as `n`
/// in base 10.
pub proof fn lemma_decimal_numeral(n: nat)
    ensures
        decimal(n).len() >= 1,
        forall|i: int| 0 <= i < decimal(n).len() ==> 48 <= #[trigger] decimal(n)[i] <= 57,
        n > 0 ==> decimal(n)[0] != 48,
        n == 0 ==> decimal(n) == seq![48u8],
        digits_value(decimal(n)) == n,
    decreases n,
{
    if n >= 10 {
        let q = n / 10;
        lemma_decimal_numeral(q);
        let d = decimal(q);
        let e = decimal(n);
        assert(e == d.push((48 + n % 10) as u8));
        assert(e.drop_last() =~= d);
        assert(e[0] == d[0]);
        assert forall|i: int| 0 <= i < e.len() implies 48 <= #[trigger] e[i] <= 57 by {
            if i < d.len() {
                assert(e[i] == d[i]);
            }
        }
        assert(e.last() == (48 + n % 10) as u8);
        assert(digits_value(e) == digits_value(d) * 10 + (e.last() - 48));
        assert(digits_value(e) == q * 10 + n % 10);
        assert(n == q * 10 + n % 10);
    } else {
        let e = decimal(n);
        assert(e.drop_last() =~= Seq::<u8>::empty());
        assert(e.last() == (48 + n) as u8);
        assert(digits_value(e.drop_last()) == 0);
        assert(digits_value(e) == n);
    }
}

/// A run of `k` line feeds is `k` scrolls of the writer, and always stays
/// within the buffer.
proof fn lemma_write_newlines(w: WriterModel, k: nat)
    ensures
        kentos_stdio::bytes_ok(w, newlines(k)),
        kentos_stdio::write_bytes(w, newlines(k)) == kentos_stdio::newline_times(w, k),
    decreases k,
{
    if k > 0 {
        lemma_write_newlines(w, (k - 1) as nat);
        assert(newlines(k).drop_last() =~= newlines((k - 1) as nat));
        assert(newlines(k).last() == 10u8);
    } else {
        assert(newlines(k) =~= Seq::<u8>::empty());
    }
}

/// `reboot` and `clear` scroll the whole screen away before the kernel goes
/// on: the shell prints `VGA_HEIGHT - 1` line feeds, so afterwards only the
/// top row holds what the bottom row held (the typed command line), every
/// other row is spaces in the shell's colour, and the shell cursor is at the
/// start of its row. The other channels' cursors do not move.
pub proof fn lemma_reboot_and_clear_scroll_screen(m: ConsoleModel)
    requires
        console_wf(m),
        m.last_key == '\n',
        m.input == seq!['r', 'e', 'b', 'o', 'o', 't'] || m.input == seq!['c', 'l', 'e', 'a', 'r'],
    ensures
        m.input == seq!['r', 'e', 'b', 'o', 'o', 't'] ==> poll_step(m).1 == ShellAction::Reboot,
        m.input == seq!['c', 'l', 'e', 'a', 'r'] ==> poll_step(m).1 == ShellAction::Continue,
        m.input == seq!['r', 'e', 'b', 'o', 'o', 't'] ==> (poll_step(m).0.shell.row == m.shell.row
            && poll_step(m).0.shell.column == 0),
        poll_step(m).0.main == m.main,
        poll_step(m).0.error == m.error,
        poll_step(m).0.success == m.success,
        forall|r: int, c: int|
            0 <= r < VGA_HEIGHT && 0 <= c < VGA_WIDTH && !(r == m.shell.row && m.input == seq!['c', 'l', 'e', 'a', 'r'] && c == 0)
                ==> #[trigger] poll_step(m).0.screen[r][c] == (if r == 0 {
                m.screen[VGA_HEIGHT - 1][c]
            } else {
                ScreenChar { ascii_char: 32u8, colour_code: m.shell.colour }
            }),
{
    let w = m.writer(Channel::Shell);
    lemma_write_newlines(w, (VGA_HEIGHT - 1) as nat);
    kentos_stdio::lemma_newlines_scroll(w, (VGA_HEIGHT - 1) as nat);
    let n = kentos_stdio::newline_times(w, (VGA_HEIGHT - 1) as nat);
    assert(seq!['g', 'r', 'e', 'e', 't'].len() == 5);
    assert(seq!['e', 'c', 'h', 'o'].len() == 4);
    assert(seq!['r', 'e', 'b', 'o', 'o', 't'].len() == 6);
    assert(seq!['c', 'l', 'e', 'a', 'r'].len() == 5);
    if m.input == seq!['r', 'e', 'b', 'o', 'o', 't'] {
        assert(m.input[0] == 'r');
        assert(m.input.take(5)[0] == 'r');
        assert(command_of(m.input) == Command::Reboot);
    } else {
        assert(m.input[0] == 'c');
        assert(m.input.take(5)[0] == 'c');
        assert(m.input != seq!['g', 'r', 'e', 'e', 't']);
        assert(m.input != seq!['e', 'c', 'h', 'o']);
        assert(m.input != seq!['r', 'e', 'b', 'o', 'o', 't']);
        assert(command_of(m.input) == Command::Clear);
        let ran = m.print(Channel::Shell, newlines((VGA_HEIGHT - 1) as nat));
        let reset = ConsoleModel { last_key: '\0', input: Seq::empty(), typed: 0, ..ran };
        let pw = reset.writer(Channel::Shell);
        assert(pw.screen == n.screen);
        assert(pw.column == 0);
        assert(pw.row == m.shell.row);
        assert(vstd::utf8::is_ascii_chars(">"@)) by {
            reveal_strlit(">");
        }
        vstd::utf8::is_ascii_chars_encode_utf8(">"@);
        reveal_strlit(">");
        assert(prompt() =~= seq![62u8]);
        assert(seq![62u8].drop_last() =~= Seq::<u8>::empty());
        kentos_stdio::lemma_write_bytes_first(pw, 62u8, Seq::<u8>::empty());
        assert(seq![62u8] + Seq::<u8>::empty() =~= seq![62u8]);
        assert(kentos_stdio::write_bytes(pw.put(62), Seq::<u8>::empty()) == pw.put(62));
        assert(kentos_stdio::write_bytes(pw, prompt()) == pw.put(62));
        assert forall|r: int, c: int|
            0 <= r < VGA_HEIGHT && 0 <= c < VGA_WIDTH && !(r == m.shell.row && c == 0)
                implies #[trigger] poll_step(m).0.screen[r][c] == n.screen[r][c] by {
        }
    }
}

/// The kernel messages are yellow on black (0x0E), errors light red on black
/// (0x0C), test successes light green on black (0x0A) and the shell white on
/// black (0x0F).
pub proof fn lemma_channel_colours()
    ensures
        channel_colour(Channel::Main)@ == 0x0E,
        channel_colour(Channel::Error)@ == 0x0C,
        channel_colour(Channel::Success)@ == 0x0A,
        channel_colour(Channel::Shell)@ == 0x0F,
{
    kentos_stdio::lemma_colour_code_value(Colour::Yellow, Colour::Black);
    kentos_stdio::lemma_colour_code_value(Colour::LightRed, Colour::Black);
    kentos_stdio::lemma_colour_code_value(Colour::LightGreen, Colour::Black);
    kentos_stdio::lemma_colour_code_value(Colour::White, Colour::Black);
}

/// An empty command line prints nothing but the next prompt, and `echo`
/// alone prints a single line feed before it.
pub proof fn lemma_empty_and_bare_echo(m: ConsoleModel)
    requires
        m.last_key == '\n',
        m.input.len() == 0 || m.input == seq!['e', 'c', 'h', 'o'],
    ensures
        poll_step(m).1 == ShellAction::Continue,
        m.input.len() == 0 ==> poll_step(m).0 == (ConsoleModel {
            last_key: '\0',
            input: Seq::empty(),
            typed: 0,
            ..m
        }).print(Channel::Shell, prompt()),
        m.input == seq!['e', 'c', 'h', 'o'] ==> poll_step(m).0 == (ConsoleModel {
            last_key: '\0',
            input: Seq::empty(),
            typed: 0,
            ..m.print(Channel::Shell, seq![10u8])
        }).print(Channel::Shell, prompt()),
{
    assert(seq!['g', 'r', 'e', 'e', 't'].len() == 5);
    assert(seq!['r', 'e', 'b', 'o', 'o', 't'].len() == 6);
    assert(seq!['c', 'l', 'e', 'a', 'r'].len() == 5);
    assert(seq!['e', 'c', 'h', 'o'].len() == 4);
    if m.input.len() == 0 {
        assert(command_of(m.input) == Command::Empty);
        let w = m.writer(Channel::Shell);
        assert(kentos_stdio::write_bytes(w, Seq::<u8>::empty()) == w);
        assert(m.with_writer(Channel::Shell, w) == m);
    } else {
        assert(m.input[0] == 'e');
        assert(m.input != seq!['g', 'r', 'e', 'e', 't']);
        assert(command_of(m.input) == Command::EchoEmpty);
        reveal_strlit("\n");
        assert(vstd::utf8::is_ascii_chars("\n"@));
        vstd::utf8::is_ascii_chars_encode_utf8("\n"@);
        assert(vstd::utf8::encode_utf8("\n"@) =~= seq![10u8]);
    }
}

/// A test report reads `Test no. `, the test's number in decimal, `, `, the
/// test's name, `_test, ` and `passed.` or `failed.` with a line feed, and goes
/// to the success channel when the test passed and the error channel when it
/// failed.
pub proof fn lemma_test_report_text(test_no: u64, name: Seq<char>, passed: bool)
    ensures
        test_report(test_no, name, passed).0 == (if passed { Channel::Success } else { Channel::Error }),
        test_report(test_no, name, passed).1 == seq![84u8, 101u8, 115u8, 116u8, 32u8, 110u8, 111u8, 46u8, 32u8] + decimal(test_no as nat) + seq![44u8, 32u8]
            + vstd::utf8::encode_utf8(name) + seq![95u8, 116u8, 101u8, 115u8, 116u8, 44u8, 32u8] + (if passed {
            seq![112u8, 97u8, 115u8, 115u8, 101u8, 100u8, 46u8, 10u8]
        } else {
            seq![102u8, 97u8, 105u8, 108u8, 101u8, 100u8, 46u8, 10u8]
        }),
{
    reveal_strlit("Test no. ");
    assert(vstd::utf8::is_ascii_chars("Test no. "@));
    vstd::utf8::is_ascii_chars_encode_utf8("Test no. "@);
    assert(vstd::utf8::encode_utf8("Test no. "@) =~= seq![84u8, 101u8, 115u8, 116u8, 32u8, 110u8, 111u8, 46u8, 32u8]);
    reveal_strlit(", ");
    assert(vstd::utf8::is_ascii_chars(", "@));
    vstd::utf8::is_ascii_chars_encode_utf8(", "@);
    assert(vstd::utf8::encode_utf8(", "@) =~= seq![44u8, 32u8]);
    reveal_strlit("_test, ");
    assert(vstd::utf8::is_ascii_chars("_test, "@));
    vstd::utf8::is_ascii_chars_encode_utf8("_test, "@);
    assert(vstd::utf8::encode_utf8("_test, "@) =~= seq![95u8, 116u8, 101u8, 115u8, 116u8, 44u8, 32u8]);
    reveal_strlit("passed.\n");
    assert(vstd::utf8::is_ascii_chars("passed.\n"@));
    vstd::utf8::is_ascii_chars_encode_utf8("passed.\n"@);
    assert(vstd::utf8::encode_utf8("passed.\n"@) =~= seq![112u8, 97u8, 115u8, 115u8, 101u8, 100u8, 46u8, 10u8]);
    reveal_strlit("failed.\n");
    assert(vstd::utf8::is_ascii_chars("failed.\n"@));
    vstd::utf8::is_ascii_chars_encode_utf8("failed.\n"@);
    assert(vstd::utf8::encode_utf8("failed.\n"@) =~= seq![102u8, 97u8, 105u8, 108u8, 101u8, 100u8, 46u8, 10u8]);
}

} // verus!
