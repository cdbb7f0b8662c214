//! Line buffer and the minimal command prompt (`help`, `clear`, `echo`,
//! `sobre`, `panic`, `mem`, `falha`).

use crate::memory::MemoryInfo;
use crate::text::{
    decimal_text, hex_text, signed_decimal_text, write_decimal, write_hex, write_signed_decimal,
};
use crate::vga_buffer::{
    after_backspace, after_byte, after_chars, after_clear_to_top, after_text, cell_index,
    lemma_after_chars_concat, lemma_line_feed_moves_down, lemma_printable_written_from_line_start, row_matches, valid_state, ScreenState,
    Writer,
};
use crate::VERSION;
use vstd::prelude::*;
use vstd::string::StringSliceAdditionalSpecFns;
use vstd::utf8::{decode_utf8, encode_utf8, valid_utf8};

verus! {

/// Largest number of bytes a typed line holds.
pub const LINE_CAPACITY: usize = 128;

/// `core::str::from_utf8`, with its error turned into `None`. By the
/// standard library's documentation the call succeeds exactly when the
/// bytes are valid UTF-8, and the string it returns has those bytes.
#[verifier::external_body]
fn str_from_utf8(v: &[u8]) -> (r: Option<&str>)
    ensures
        r.is_some() == valid_utf8(v@),
        r matches Some(s) ==> s.spec_bytes() == v@,
{
    match core::str::from_utf8(v) {
        Ok(s) => Some(s),
        Err(_) => None,
    }
}

/// Backspace undoes a keystroke the line accepted: pushing a byte onto a
/// line with room, then popping, gives back the line as it was.
pub proof fn lemma_pop_undoes_push(line: Seq<u8>, byte: u8)
    requires
        line.len() < 128,
    ensures
        line.push(byte).drop_last() == line,
        line.push(byte).len() <= 128,
{
    assert(line.push(byte).drop_last() =~= line);
}

/// Fixed-size accumulator of the bytes typed up to the next Enter, with no
/// heap allocation.
pub struct LineBuffer {
    bytes: [u8; 128],
    len: usize,
}

impl View for LineBuffer {
    type V = Seq<u8>;

    /// The bytes of the line so far.
    closed spec fn view(&self) -> Seq<u8> {
        self.bytes@.subrange(0, self.len as int)
    }
}

impl LineBuffer {
    /// The buffer's invariant: the length fits the capacity.
    pub closed spec fn wf(&self) -> bool {
        self.len <= 128
    }

    pub proof fn lemma_len_bound(&self)
        requires
            self.wf(),
        ensures
            self@.len() <= 128,
    {
    }

    /// An empty line.
    pub fn new() -> (l: LineBuffer)
        ensures
            l.wf(),
            l@ == Seq::<u8>::empty(),
    {
        let l = LineBuffer { bytes: [0u8; 128], len: 0 };
        assert(l@ =~= Seq::<u8>::empty());
        l
    }

    /// Appends a byte to the line. Returns `false`, with no effect, when
    /// the line is already full.
    pub fn push(&mut self, byte: u8) -> (accepted: bool)
        requires
            old(self).wf(),
        ensures
            final(self).wf(),
            accepted == (old(self)@.len() < 128),
            accepted ==> final(self)@ == old(self)@.push(byte),
            !accepted ==> final(self)@ == old(self)@,
    {
        if self.len == LINE_CAPACITY {
            return false;
        }
        let ghost before = self@;
        let len = self.len;
        self.bytes[len] = byte;
        self.len = self.len + 1;
        assert(self@ =~= before.push(byte));
        true
    }

    /// Removes the last byte of the line. Returns `false`, with no effect,
    /// when the line is already empty (Backspace does not erase the prompt).
    pub fn pop(&mut self) -> (removed: bool)
        requires
            old(self).wf(),
        ensures
            final(self).wf(),
            removed == (old(self)@.len() > 0),
            removed ==> final(self)@ == old(self)@.drop_last(),
            !removed ==> final(self)@ == old(self)@,
    {
        if self.len == 0 {
            return false;
        }
        let ghost before = self@;
        self.len = self.len - 1;
        assert(self@ =~= before.drop_last());
        true
    }

    /// Empties the line.
    pub fn clear(&mut self)
        requires
            old(self).wf(),
        ensures
            final(self).wf(),
            final(self)@ == Seq::<u8>::empty(),
    {
        self.len = 0;
        assert(self@ =~= Seq::<u8>::empty());
    }

    /// The line as a string: its bytes when they are valid UTF-8 (always
    /// so for the printable ASCII that the prompt accepts), else empty.
    pub fn as_str(&self) -> (s: &str)
        requires
            self.wf(),
        ensures
            valid_utf8(self@) ==> s.spec_bytes() == self@,
            !valid_utf8(self@) ==> s@.len() == 0,
    {
        let all: &[u8] = self.bytes.as_slice();
        let line: &[u8] = &all[0..self.len];
        assert(line@ == self@);
        match str_from_utf8(line) {
            Some(s) => s,
            None => {
                let empty = "";
                proof {
                    reveal_strlit("");
                }
                empty
            },
        }
    }
}


/// Fixed text of the prompt, shown whenever the system is ready for a new
/// line.
pub const PROMPT: &'static str = "proto-os> ";

/// What the program around the library does after a command line: nothing
/// more, a deliberate panic, the memory report (which needs the heap), or
/// a deliberate CPU exception.
#[derive(Debug, Clone, Copy, PartialEq, Eq, Structural)]
pub enum Action {
    Nothing,
    Panic,
    ShowMemory,
    Fault(FaultKind),
}

/// The CPU exceptions that `falha` provokes: page fault, stack overflow
/// (double fault), invalid opcode, general protection, breakpoint.
#[derive(Debug, Clone, Copy, PartialEq, Eq, Structural)]
pub enum FaultKind {
    Page,
    Stack,
    Opcode,
    Protection,
    Breakpoint,
}

/// A character of the Unicode `White_Space` property, the whitespace that
/// `str::trim` removes.
pub open spec fn is_white_space(c: char) -> bool {
    ||| '\t' <= c <= '\r'
    ||| c == ' '
    ||| c == '\u{85}'
    ||| c == '\u{a0}'
    ||| c == '\u{1680}'
    ||| '\u{2000}' <= c <= '\u{200a}'
    ||| c == '\u{2028}'
    ||| c == '\u{2029}'
    ||| c == '\u{202f}'
    ||| c == '\u{205f}'
    ||| c == '\u{3000}'
}

/// `s` without its leading and trailing whitespace.
pub open spec fn trimmed(s: Seq<char>) -> Seq<char>
    decreases s.len(),
{
    if s.len() > 0 && is_white_space(s[0]) {
        trimmed(s.drop_first())
    } else if s.len() > 0 && is_white_space(s.last()) {
        trimmed(s.drop_last())
    } else {
        s
    }
}

/// `s` split at its first space: the text before it and the text after
/// it; `None` when `s` has no space.
pub open spec fn split_first_space(s: Seq<char>) -> Option<(Seq<char>, Seq<char>)>
    decreases s.len(),
{
    if s.len() == 0 {
        None
    } else if s[0] == ' ' {
        Some((Seq::empty(), s.drop_first()))
    } else {
        match split_first_space(s.drop_first()) {
            Some(p) => Some((seq![s[0]] + p.0, p.1)),
            None => None,
        }
    }
}

/// `str::trim`. By the standard library's documentation it removes the
/// leading and trailing characters of the Unicode `White_Space` property.
#[verifier::external_body]
fn str_trim(s: &str) -> (r: &str)
    ensures
        r@ == trimmed(s@),
{
    s.trim()
}

/// `str::split_once` on a space. By the standard library's documentation
/// it splits at the first occurrence of the delimiter and gives the text
/// before and after it, or `None` when the delimiter does not occur.
#[verifier::external_body]
fn str_split_once_space(s: &str) -> (r: Option<(&str, &str)>)
    ensures
        r is Some == split_first_space(s@) is Some,
        r matches Some(p) ==> p.0@ == split_first_space(s@).unwrap().0 && p.1@ == split_first_space(
            s@,
        ).unwrap().1,
{
    s.split_once(' ')
}

/// Two strings hold the same characters.
fn text_eq(a: &str, b: &str) -> (r: bool)
    ensures
        r == (a@ == b@),
{
    let x = a.as_bytes();
    let y = b.as_bytes();
    proof {
        vstd::utf8::encode_utf8_decode_utf8(a@);
        vstd::utf8::encode_utf8_decode_utf8(b@);
    }
    if x.len() != y.len() {
        return false;
    }
    let mut i: usize = 0;
    while i < x.len()
        invariant
            x@.len() == y@.len(),
            x@ == a.spec_bytes(),
            y@ == b.spec_bytes(),
            i <= x@.len(),
            forall|k: int| 0 <= k < i ==> x@[k] == y@[k],
        decreases x@.len() - i,
    {
        if x[i] != y[i] {
            return false;
        }
        i = i + 1;
    }
    assert(x@ =~= y@);
    true
}

/// The first word of a trimmed line and the rest after its first space.
pub open spec fn command_parts(line: Seq<char>) -> (Seq<char>, Seq<char>) {
    let t = trimmed(line);
    match split_first_space(t) {
        Some(p) => p,
        None => (t, Seq::empty()),
    }
}

/// One line of the `help` listing: name, dash, description.
pub open spec fn help_line(name: Seq<char>, description: Seq<char>) -> Seq<char> {
    name + " - "@ + description + "\n"@
}

/// The `help` listing: one line per command.
pub open spec fn help_text() -> Seq<char> {
    help_line("help"@, "lista os comandos disponiveis"@) + help_line("clear"@, "limpa a tela"@)
        + help_line("echo"@, "repete o texto digitado"@) + help_line("sobre"@, "descreve o proto-os"@)
        + help_line("panic"@, "dispara um panic proposital"@) + help_line(
        "mem"@,
        "mostra memoria fisica, heap, Box e Vec"@,
    ) + help_line(
        "falha"@,
        "provoca uma excecao de CPU para demonstracao (pagina, pilha, opcode, protecao, breakpoint)"@,
    )
}

/// `help` answers with the fixed command table, one line per command in
/// the order help, clear, echo, sobre, panic, mem, falha, each reading
/// `name - description` with that command's own description; whatever
/// follows the word `help` on the line is ignored.
pub proof fn lemma_help_lists_each_command(s: ScreenState, line: Seq<char>)
    requires
        command_parts(line).0 == "help"@,
    ensures
        command_outcome(s, line) == (after_chars(
            s,
            "help - lista os comandos disponiveis\nclear - limpa a tela\necho - repete o texto digitado\nsobre - descreve o proto-os\npanic - dispara um panic proposital\nmem - mostra memoria fisica, heap, Box e Vec\nfalha - provoca uma excecao de CPU para demonstracao (pagina, pilha, opcode, protecao, breakpoint)\n"@,
        ), Action::Nothing),
{
    reveal_strlit("help");
    reveal_strlit("");
    if trimmed(line).len() == 0 {
        assert(trimmed(line) =~= Seq::<char>::empty());
        assert(command_parts(line).0.len() == 0);
    }
    reveal_strlit(" - ");
    reveal_strlit("\n");
    reveal_strlit("lista os comandos disponiveis");
    reveal_strlit("clear");
    reveal_strlit("limpa a tela");
    reveal_strlit("echo");
    reveal_strlit("repete o texto digitado");
    reveal_strlit("sobre");
    reveal_strlit("descreve o proto-os");
    reveal_strlit("panic");
    reveal_strlit("dispara um panic proposital");
    reveal_strlit("mem");
    reveal_strlit("mostra memoria fisica, heap, Box e Vec");
    reveal_strlit("falha");
    reveal_strlit("provoca uma excecao de CPU para demonstracao (pagina, pilha, opcode, protecao, breakpoint)");
    reveal_strlit(
        "help - lista os comandos disponiveis\nclear - limpa a tela\necho - repete o texto digitado\nsobre - descreve o proto-os\npanic - dispara um panic proposital\nmem - mostra memoria fisica, heap, Box e Vec\nfalha - provoca uma excecao de CPU para demonstracao (pagina, pilha, opcode, protecao, breakpoint)\n",
    );
    assert(help_text() =~= "help - lista os comandos disponiveis\nclear - limpa a tela\necho - repete o texto digitado\nsobre - descreve o proto-os\npanic - dispara um panic proposital\nmem - mostra memoria fisica, heap, Box e Vec\nfalha - provoca uma excecao de CPU para demonstracao (pagina, pilha, opcode, protecao, breakpoint)\n"@);
}

/// The `sobre` text: the version, then two lines about the system.
pub open spec fn about_text() -> Seq<char> {
    VERSION@ + "\n"@ + "proto-os: demonstracao de boot bare metal em Rust, sem SO por baixo.\n"@
        + "Boot via BIOS, saida VGA e teclado via IRQ1, tudo no mesmo binario.\n"@
}

/// The list of exception kinds `falha` shows for a missing or unknown kind.
pub open spec fn fault_list_text() -> Seq<char> {
    "tipos disponiveis: pagina, pilha, opcode, protecao, breakpoint\n"@
}

/// The message for an unknown command.
pub open spec fn unknown_text(name: Seq<char>) -> Seq<char> {
    "comando desconhecido: "@ + name + " (digite help)\n"@
}

/// The exception kind an argument of `falha` names, once trimmed.
pub open spec fn fault_kind(arg: Seq<char>) -> Option<FaultKind> {
    let t = trimmed(arg);
    if t == "pagina"@ {
        Some(FaultKind::Page)
    } else if t == "pilha"@ {
        Some(FaultKind::Stack)
    } else if t == "opcode"@ {
        Some(FaultKind::Opcode)
    } else if t == "protecao"@ {
        Some(FaultKind::Protection)
    } else if t == "breakpoint"@ {
        Some(FaultKind::Breakpoint)
    } else {
        None
    }
}

/// What a complete command line does: the screen it leaves and what is
/// left for the program around the library to do. An empty line (after
/// trimming) does nothing; the first word names the command.
pub open spec fn command_outcome(s: ScreenState, line: Seq<char>) -> (ScreenState, Action) {
    if trimmed(line).len() == 0 {
        (s, Action::Nothing)
    } else {
        let (name, rest) = command_parts(line);
        if name == "help"@ {
            (after_chars(s, help_text()), Action::Nothing)
        } else if name == "clear"@ {
            (after_clear_to_top(s), Action::Nothing)
        } else if name == "echo"@ {
            (after_chars(s, rest + "\n"@), Action::Nothing)
        } else if name == "sobre"@ {
            (after_chars(s, about_text()), Action::Nothing)
        } else if name == "panic"@ {
            (s, Action::Panic)
        } else if name == "mem"@ {
            (s, Action::ShowMemory)
        } else if name == "falha"@ {
            match fault_kind(rest) {
                Some(k) => (s, Action::Fault(k)),
                None => (after_chars(s, fault_list_text()), Action::Nothing),
            }
        } else {
            (after_chars(s, unknown_text(name)), Action::Nothing)
        }
    }
}

/// Writes `a` then `b`.
fn write_pair(writer: &mut Writer, a: &str, b: &str)
    requires
        old(writer).wf(),
    ensures
        final(writer).wf(),
        final(writer)@ == after_chars(old(writer)@, a@ + b@),
{
    writer.write_string(a);
    writer.write_string(b);
    proof {
        lemma_after_chars_concat(old(writer)@, a@, b@);
    }
}

/// Writes a line of the `help` listing.
fn write_help_line(writer: &mut Writer, name: &str, description: &str)
    requires
        old(writer).wf(),
    ensures
        final(writer).wf(),
        final(writer)@ == after_chars(old(writer)@, help_line(name@, description@)),
{
    let ghost s0 = writer@;
    write_pair(writer, name, " - ");
    write_pair(writer, description, "\n");
    proof {
        lemma_after_chars_concat(s0, name@ + " - "@, description@ + "\n"@);
        assert(name@ + " - "@ + (description@ + "\n"@) =~= help_line(name@, description@));
    }
}

/// Prints the fixed prompt, without a line feed (the column stays after it).
pub fn print_prompt(writer: &mut Writer)
    requires
        old(writer).wf(),
    ensures
        final(writer).wf(),
        final(writer)@ == after_chars(old(writer)@, PROMPT@),
{
    writer.write_string(PROMPT);
}

/// Lists every command with its one-line description.
fn cmd_help(writer: &mut Writer)
    requires
        old(writer).wf(),
    ensures
        final(writer).wf(),
        final(writer)@ == after_chars(old(writer)@, help_text()),
{
    let ghost s0 = writer@;
    let l1 = "help";
    let d1 = "lista os comandos disponiveis";
    let l2 = "clear";
    let d2 = "limpa a tela";
    let l3 = "echo";
    let d3 = "repete o texto digitado";
    let l4 = "sobre";
    let d4 = "descreve o proto-os";
    let l5 = "panic";
    let d5 = "dispara um panic proposital";
    let l6 = "mem";
    let d6 = "mostra memoria fisica, heap, Box e Vec";
    let l7 = "falha";
    let d7 = "provoca uma excecao de CPU para demonstracao (pagina, pilha, opcode, protecao, breakpoint)";
    write_help_line(writer, l1, d1);
    let ghost s1 = writer@;
    write_help_line(writer, l2, d2);
    let ghost s2 = writer@;
    write_help_line(writer, l3, d3);
    let ghost s3 = writer@;
    write_help_line(writer, l4, d4);
    let ghost s4 = writer@;
    write_help_line(writer, l5, d5);
    let ghost s5 = writer@;
    write_help_line(writer, l6, d6);
    let ghost s6 = writer@;
    write_help_line(writer, l7, d7);
    proof {
        let h1 = help_line(l1@, d1@);
        let h2 = help_line(l2@, d2@);
        let h3 = help_line(l3@, d3@);
        let h4 = help_line(l4@, d4@);
        let h5 = help_line(l5@, d5@);
        let h6 = help_line(l6@, d6@);
        let h7 = help_line(l7@, d7@);
        lemma_after_chars_concat(s0, h1, h2);
        lemma_after_chars_concat(s0, h1 + h2, h3);
        lemma_after_chars_concat(s0, h1 + h2 + h3, h4);
        lemma_after_chars_concat(s0, h1 + h2 + h3 + h4, h5);
        lemma_after_chars_concat(s0, h1 + h2 + h3 + h4 + h5, h6);
        lemma_after_chars_concat(s0, h1 + h2 + h3 + h4 + h5 + h6, h7);
    }
}

/// Repeats the rest of the line.
fn cmd_echo(writer: &mut Writer, rest: &str)
    requires
        old(writer).wf(),
    ensures
        final(writer).wf(),
        final(writer)@ == after_chars(old(writer)@, rest@ + "\n"@),
{
    write_pair(writer, rest, "\n");
}

/// Describes the system: its version and what it is.
fn cmd_sobre(writer: &mut Writer)
    requires
        old(writer).wf(),
    ensures
        final(writer).wf(),
        final(writer)@ == after_chars(old(writer)@, about_text()),
{
    let ghost s0 = writer@;
    write_pair(writer, VERSION, "\n");
    let a = "proto-os: demonstracao de boot bare metal em Rust, sem SO por baixo.\n";
    let b = "Boot via BIOS, saida VGA e teclado via IRQ1, tudo no mesmo binario.\n";
    write_pair(writer, a, b);
    proof {
        lemma_after_chars_concat(s0, VERSION@ + "\n"@, a@ + b@);
        assert(VERSION@ + "\n"@ + (a@ + b@) =~= about_text());
    }
}

/// Picks the exception kind `falha` asks for; with no kind or an unknown
/// one it lists the kinds and provokes nothing.
fn cmd_falha(writer: &mut Writer, kind: &str) -> (action: Action)
    requires
        old(writer).wf(),
    ensures
        final(writer).wf(),
        fault_kind(kind@) matches Some(k) ==> action == Action::Fault(k) && final(writer)@ == old(writer)@,
        fault_kind(kind@) is None ==> action == Action::Nothing && final(writer)@ == after_chars(
            old(writer)@,
            fault_list_text(),
        ),
{
    let k = str_trim(kind);
    if text_eq(k, "pagina") {
        Action::Fault(FaultKind::Page)
    } else if text_eq(k, "pilha") {
        Action::Fault(FaultKind::Stack)
    } else if text_eq(k, "opcode") {
        Action::Fault(FaultKind::Opcode)
    } else if text_eq(k, "protecao") {
        Action::Fault(FaultKind::Protection)
    } else if text_eq(k, "breakpoint") {
        Action::Fault(FaultKind::Breakpoint)
    } else {
        writer.write_string("tipos disponiveis: pagina, pilha, opcode, protecao, breakpoint\n");
        Action::Nothing
    }
}

/// Interprets a complete line: trims it, takes the first word as the
/// command name and the rest after the first space as its argument, and
/// runs the command. What only the program around the library can do
/// (panic, the heap demonstration, CPU exceptions) comes back as the
/// action.
pub fn execute(writer: &mut Writer, line: &str) -> (action: Action)
    requires
        old(writer).wf(),
    ensures
        final(writer).wf(),
        (final(writer)@, action) == command_outcome(old(writer)@, line@),
{
    let line = str_trim(line);
    if line.is_empty() {
        return Action::Nothing;
    }
    let (name, rest) = match str_split_once_space(line) {
        Some((name, rest)) => (name, rest),
        None => {
            let empty = "";
            proof {
                reveal_strlit("");
                assert(empty@ =~= Seq::<char>::empty());
            }
            (line, empty)
        },
    };
    if text_eq(name, "help") {
        cmd_help(writer);
        Action::Nothing
    } else if text_eq(name, "clear") {
        writer.clear_screen_to_top();
        Action::Nothing
    } else if text_eq(name, "echo") {
        cmd_echo(writer, rest);
        Action::Nothing
    } else if text_eq(name, "sobre") {
        cmd_sobre(writer);
        Action::Nothing
    } else if text_eq(name, "panic") {
        Action::Panic
    } else if text_eq(name, "mem") {
        Action::ShowMemory
    } else if text_eq(name, "falha") {
        cmd_falha(writer, rest)
    } else {
        let ghost s0 = writer@;
        write_pair(writer, "comando desconhecido: ", name);
        writer.write_string(" (digite help)\n");
        proof {
            lemma_after_chars_concat(s0, "comando desconhecido: "@ + name@, " (digite help)\n"@);
        }
        Action::Nothing
    }
}


/// The text of a line's bytes: their UTF-8 decoding when valid, else empty.
pub open spec fn line_text(line: Seq<u8>) -> Seq<char> {
    if valid_utf8(line) {
        decode_utf8(line)
    } else {
        Seq::empty()
    }
}

/// What one translated byte does to the line, the screen and the program:
/// Enter echoes a line feed and runs the line (then empties it and shows the
/// prompt again, unless the program has an action to perform first);
/// Backspace erases the last character of the line and of the screen;
/// printable ASCII is kept and echoed while the line has room; any other
/// byte is ignored.
pub open spec fn feed_outcome(line: Seq<u8>, s: ScreenState, byte: u8) -> (Seq<u8>, ScreenState, Action) {
    if byte == 0x0a {
        let (s2, a) = command_outcome(after_byte(s, 0x0a), line_text(line));
        if a == Action::Nothing {
            (Seq::empty(), after_chars(s2, PROMPT@), Action::Nothing)
        } else {
            (line, s2, a)
        }
    } else if byte == 0x08 {
        if line.len() > 0 {
            (line.drop_last(), after_backspace(s), Action::Nothing)
        } else {
            (line, s, Action::Nothing)
        }
    } else if 0x20 <= byte <= 0x7e {
        if line.len() < 128 {
            (line.push(byte), after_byte(s, byte), Action::Nothing)
        } else {
            (line, s, Action::Nothing)
        }
    } else {
        (line, s, Action::Nothing)
    }
}

/// Processes a byte already translated by the keyboard: Enter ends and runs
/// the current line; Backspace erases the last character; any other
/// printable byte joins the line and, when accepted, is echoed. When the
/// line's command leaves an action to the program, the line stays as it is
/// until `finish_line`.
pub fn feed(line: &mut LineBuffer, writer: &mut Writer, byte: u8) -> (action: Action)
    requires
        old(line).wf(),
        old(writer).wf(),
    ensures
        final(line).wf(),
        final(writer).wf(),
        (final(line)@, final(writer)@, action) == feed_outcome(old(line)@, old(writer)@, byte),
{
    if byte == 0x0au8 {
        writer.write_byte(0x0au8);
        let text = line.as_str();
        proof {
            if valid_utf8(line@) {
                vstd::utf8::encode_utf8_decode_utf8(text@);
            } else {
                assert(text@ =~= Seq::<char>::empty());
            }
            assert(text@ == line_text(line@));
        }
        let action = execute(writer, text);
        if action == Action::Nothing {
            line.clear();
            print_prompt(writer);
        }
        action
    } else if byte == 0x08u8 {
        if line.pop() {
            writer.backspace();
        }
        Action::Nothing
    } else if 0x20u8 <= byte && byte <= 0x7eu8 {
        if line.push(byte) {
            writer.write_byte(byte);
        }
        Action::Nothing
    } else {
        Action::Nothing
    }
}

/// Ends a line whose action the program has performed: empties the line
/// and shows the prompt again.
pub fn finish_line(line: &mut LineBuffer, writer: &mut Writer)
    requires
        old(line).wf(),
        old(writer).wf(),
    ensures
        final(line).wf(),
        final(writer).wf(),
        final(line)@ == Seq::<u8>::empty(),
        final(writer)@ == after_chars(old(writer)@, PROMPT@),
{
    line.clear();
    print_prompt(writer);
}

/// `Vec::capacity`. By the standard library's documentation the capacity is
/// never below the length; beyond that it depends on the allocator.
#[verifier::external_body]
fn vec_capacity(v: &Vec<i32>) -> (r: usize)
    ensures
        r >= v@.len(),
{
    v.capacity()
}

/// The `mem` report: usable physical memory, the heap's place and size, a
/// boxed value with its address, and a vector of 1 to 10 with its length,
/// capacity and sum.
pub open spec fn mem_report(
    s: ScreenState,
    info: MemoryInfo,
    box_value: i32,
    box_address: usize,
    capacity: usize,
) -> ScreenState {
    let s1 = after_chars(
        after_text(after_chars(s, "memoria fisica utilizavel: "@), decimal_text((info.usable_bytes / 1024) as nat)),
        " KiB\n"@,
    );
    let s2 = after_chars(
        after_text(
            after_chars(after_text(after_chars(s1, "heap: "@), hex_text(info.heap_start as nat)), ", "@),
            decimal_text((info.heap_size / 1024) as nat),
        ),
        " KiB\n"@,
    );
    let s3 = after_chars(
        after_text(
            after_chars(after_text(after_chars(s2, "Box: valor="@), signed_decimal_text(box_value as int)), ", endereco="@),
            hex_text(box_address as nat),
        ),
        "\n"@,
    );
    after_chars(
        after_text(
            after_chars(
                after_text(
                    after_chars(after_text(after_chars(s3, "Vec: tamanho="@), decimal_text(10)), ", capacidade="@),
                    decimal_text(capacity as nat),
                ),
                ", soma="@,
            ),
            signed_decimal_text(55),
        ),
        "\n"@,
    )
}

/// Shows that the kernel allocates memory dynamically: usable physical
/// memory, the heap's place and size, a boxed value and its address (both
/// handed in by the program, which made the box), and a vector built from
/// empty with its length, capacity and sum. Returns the capacity shown.
/// The box always holds 42.
pub fn cmd_mem(writer: &mut Writer, info: MemoryInfo, box_value: i32, box_address: usize) -> (capacity:
    usize)
    requires
        old(writer).wf(),
        box_value == 42,
    ensures
        final(writer).wf(),
        capacity >= 10,
        final(writer)@ == mem_report(old(writer)@, info, box_value, box_address, capacity),
{
    writer.write_string("memoria fisica utilizavel: ");
    write_decimal(writer, info.usable_bytes / 1024);
    writer.write_string(" KiB\n");
    writer.write_string("heap: ");
    write_hex(writer, info.heap_start);
    writer.write_string(", ");
    write_decimal(writer, (info.heap_size / 1024) as u64);
    writer.write_string(" KiB\n");
    writer.write_string("Box: valor=");
    write_signed_decimal(writer, box_value as i64);
    writer.write_string(", endereco=");
    write_hex(writer, box_address as u64);
    writer.write_string("\n");

    let mut lista: Vec<i32> = Vec::new();
    let mut i: i32 = 1;
    while i <= 10
        invariant
            1 <= i <= 11,
            lista@.len() == i - 1,
            forall|k: int| 0 <= k < lista@.len() ==> #[trigger] lista@[k] == k + 1,
        decreases 11 - i,
    {
        lista.push(i);
        i = i + 1;
    }
    let mut soma: i32 = 0;
    let mut k: usize = 0;
    while k < lista.len()
        invariant
            lista@.len() == 10,
            forall|j: int| 0 <= j < lista@.len() ==> #[trigger] lista@[j] == j + 1,
            k <= 10,
            2 * soma == k * (k + 1),
        decreases 10 - k,
    {
        assert(lista@[k as int] == k + 1);
        assert(soma <= 45) by (nonlinear_arith)
            requires
                2 * soma == k * (k + 1),
                k < 10,
        ;
        assert(2 * (soma + k + 1) == (k + 1) * (k + 2)) by (nonlinear_arith)
            requires
                2 * soma == k * (k + 1),
        ;
        soma = soma + lista[k];
        k = k + 1;
    }
    let capacity = vec_capacity(&lista);
    writer.write_string("Vec: tamanho=");
    write_decimal(writer, lista.len() as u64);
    writer.write_string(", capacidade=");
    write_decimal(writer, capacity as u64);
    writer.write_string(", soma=");
    write_signed_decimal(writer, soma as i64);
    writer.write_string("\n");
    assert(soma == 55);
    capacity
}


/// Trimming a trimmed text changes nothing.
pub proof fn lemma_trimmed_idempotent(s: Seq<char>)
    ensures
        trimmed(trimmed(s)) == trimmed(s),
        trimmed(s).len() > 0 ==> !is_white_space(trimmed(s)[0]) && !is_white_space(trimmed(s).last()),
    decreases s.len(),
{
    if s.len() > 0 && is_white_space(s[0]) {
        lemma_trimmed_idempotent(s.drop_first());
    } else if s.len() > 0 && is_white_space(s.last()) {
        lemma_trimmed_idempotent(s.drop_last());
    }
}

/// Leading and trailing whitespace never change what a line does: a line
/// and its trimmed text have the same outcome.
pub proof fn lemma_execute_ignores_outer_whitespace(s: ScreenState, line: Seq<char>)
    ensures
        command_outcome(s, line) == command_outcome(s, trimmed(line)),
{
    lemma_trimmed_idempotent(line);
}

/// Every byte of the line is printable ASCII.
pub open spec fn printable_line(line: Seq<u8>) -> bool {
    forall|i: int| 0 <= i < line.len() ==> 0x20 <= #[trigger] line[i] <= 0x7e
}

/// The prompt only ever keeps printable ASCII on its line, and such a line
/// is valid UTF-8 whose text is its bytes, one character each: what runs
/// on Enter is what was typed.
pub proof fn lemma_feed_keeps_line_printable(line: Seq<u8>, s: ScreenState, byte: u8)
    requires
        printable_line(line),
    ensures
        printable_line(feed_outcome(line, s, byte).0),
        valid_utf8(line),
        line_text(line) == Seq::new(line.len(), |i: int| line[i] as char),
        line_text(line).len() == line.len(),
        forall|i: int| 0 <= i < line.len() ==> #[trigger] line_text(line)[i] as u8 == line[i],
{
    let out = feed_outcome(line, s, byte).0;
    if byte == 0x08 && line.len() > 0 {
        assert forall|i: int| 0 <= i < out.len() implies 0x20 <= #[trigger] out[i] <= 0x7e by {
            assert(out[i] == line[i]);
        }
    }
    let chars = Seq::new(line.len(), |i: int| line[i] as char);
    assert(vstd::utf8::is_ascii_chars(chars)) by {
        assert forall|i: int| 0 <= i < chars.len() implies '\0' <= #[trigger] chars[i] <= '\u{7f}' by {
            assert(line[i] <= 0x7e);
            assert(chars[i] == line[i] as char);
        }
    }
    vstd::utf8::is_ascii_chars_encode_utf8(chars);
    assert forall|i: int| 0 <= i < line.len() implies #[trigger] encode_utf8(chars)[i] == line[i] by {
        assert(chars[i] as u8 == encode_utf8(chars)[i]);
        assert(line[i] < 0x80);
        assert((line[i] as char) as u8 == line[i]);
    }
    assert(encode_utf8(chars) =~= line);
    vstd::utf8::encode_utf8_valid_utf8(chars);
    vstd::utf8::encode_utf8_decode_utf8(chars);
}


/// The line and the screen after the bytes are fed one by one, leaving
/// aside the actions commands return.
pub open spec fn typed(line: Seq<u8>, s: ScreenState, bytes: Seq<u8>) -> (Seq<u8>, ScreenState)
    decreases bytes.len(),
{
    if bytes.len() == 0 {
        (line, s)
    } else {
        let before = typed(line, s, bytes.drop_last());
        let out = feed_outcome(before.0, before.1, bytes.last());
        (out.0, out.1)
    }
}

/// Typing printable ASCII that fits in the line appends it to the line, in
/// order: what is typed before Enter is what the line holds.
pub proof fn lemma_typing_fills_line(line: Seq<u8>, s: ScreenState, bytes: Seq<u8>)
    requires
        line.len() + bytes.len() <= 128,
        forall|i: int| 0 <= i < bytes.len() ==> 0x20 <= #[trigger] bytes[i] <= 0x7e,
    ensures
        typed(line, s, bytes).0 == line + bytes,
    decreases bytes.len(),
{
    if bytes.len() > 0 {
        let p = bytes.drop_last();
        assert forall|i: int| 0 <= i < p.len() implies 0x20 <= #[trigger] p[i] <= 0x7e by {
            assert(p[i] == bytes[i]);
        }
        lemma_typing_fills_line(line, s, p);
        assert((line + p).push(bytes.last()) =~= line + bytes);
    } else {
        assert(line + bytes =~= line);
    }
}


/// Backspace on an empty line changes nothing: it never erases the prompt.
pub proof fn lemma_backspace_keeps_prompt(s: ScreenState)
    ensures
        feed_outcome(Seq::empty(), s, 0x08) == (Seq::<u8>::empty(), s, Action::Nothing),
{
}


/// The bytes of the prompt.
pub open spec fn prompt_bytes() -> Seq<u8> {
    seq![0x70u8, 0x72u8, 0x6fu8, 0x74u8, 0x6fu8, 0x2du8, 0x6fu8, 0x73u8, 0x3eu8, 0x20u8]
}

/// `clear` clears the screen and puts the prompt back at the top: typing
/// `clear` and Enter on the prompt leaves an empty line, a blank screen but
/// for the prompt at the start of the top row, and the cursor right after
/// it.
pub proof fn lemma_clear_puts_prompt_on_top(s: ScreenState)
    requires
        valid_state(s),
    ensures
        ({
            let line = seq![0x63u8, 0x6cu8, 0x65u8, 0x61u8, 0x72u8];
            let out = feed_outcome(line, s, 0x0a);
            &&& out.0 == Seq::<u8>::empty()
            &&& out.2 == Action::Nothing
            &&& out.1.row == 0
            &&& out.1.column == 10
            &&& row_matches(out.1.cells, 0, 0, prompt_bytes())
            &&& forall|k: int| 10 <= k < 2000 ==> #[trigger] out.1.cells[k].ascii_character == 0x20
        }),
{
    let line = seq![0x63u8, 0x6cu8, 0x65u8, 0x61u8, 0x72u8];
    assert forall|i: int| 0 <= i < line.len() implies 0x20 <= #[trigger] line[i] <= 0x7e by {}
    lemma_feed_keeps_line_printable(line, s, 0x0a);
    reveal_strlit("clear");
    reveal_strlit("help");
    reveal_strlit("proto-os> ");
    let clear = "clear"@;
    assert(line_text(line) =~= clear);
    assert(trimmed(clear) == clear);
    reveal_with_fuel(split_first_space, 6);
    assert(split_first_space(clear) is None);
    assert(command_parts(clear) == (clear, Seq::<char>::empty()));
    assert(clear != "help"@);
    let s1 = after_byte(s, 0x0a);
    let s2 = after_clear_to_top(s1);
    assert(command_outcome(s1, clear) == (s2, Action::Nothing));
    let p = PROMPT@;
    assert(vstd::utf8::is_ascii_chars(p));
    vstd::utf8::is_ascii_chars_encode_utf8(p);
    assert(encode_utf8(p) =~= prompt_bytes());
    assert forall|i: int| 0 <= i < prompt_bytes().len() implies 0x20 <= #[trigger] prompt_bytes()[i] <= 0x7e by {}
    lemma_printable_written_from_line_start(s2, prompt_bytes());
    let out = after_chars(s2, p);
    assert forall|i: int| 0 <= i < prompt_bytes().len() implies #[trigger] out.cells[cell_index(0, 0 + i)].ascii_character
        == prompt_bytes()[i] by {
        assert(cell_index(0, 0 + i) == cell_index(0, i));
    }
    assert forall|k: int| 10 <= k < 2000 implies #[trigger] out.cells[k].ascii_character == 0x20 by {
        assert(out.cells[k] == s2.cells[k]);
    }
}

/// Enter always echoes a line feed before the line runs: pressed on an
/// empty or blank line it leaves the line empty, keeps the row just typed
/// (one row higher when the line feed scrolls) and shows a fresh prompt at
/// the start of the next row, with the cursor right after it.
pub proof fn lemma_enter_on_blank_line_starts_next_row(line: Seq<u8>, s: ScreenState, col: int)
    requires
        valid_state(s),
        trimmed(line_text(line)).len() == 0,
        0 <= col < 80,
    ensures
        ({
            let out = feed_outcome(line, s, 0x0a);
            &&& out.0 == Seq::<u8>::empty()
            &&& out.2 == Action::Nothing
            &&& out.1.row == (if s.row < 24 { s.row + 1 } else { 24 })
            &&& out.1.column == 10
            &&& row_matches(out.1.cells, out.1.row as int, 0, prompt_bytes())
            &&& s.row < 24 ==> out.1.cells[cell_index(s.row as int, col)] == s.cells[cell_index(s.row as int, col)]
            &&& s.row == 24 ==> out.1.cells[cell_index(23, col)] == s.cells[cell_index(24, col)]
        }),
{
    reveal_strlit("proto-os> ");
    let s1 = after_byte(s, 0x0a);
    assert(command_outcome(s1, line_text(line)) == (s1, Action::Nothing));
    lemma_line_feed_moves_down(s, 23, col);
    lemma_line_feed_moves_down(s, s.row as int, col);
    let p = PROMPT@;
    assert(vstd::utf8::is_ascii_chars(p));
    vstd::utf8::is_ascii_chars_encode_utf8(p);
    assert(encode_utf8(p) =~= prompt_bytes());
    assert forall|i: int| 0 <= i < prompt_bytes().len() implies 0x20 <= #[trigger] prompt_bytes()[i] <= 0x7e by {}
    lemma_printable_written_from_line_start(s1, prompt_bytes());
    let out = after_chars(s1, p);
    let r = s1.row as int;
    assert forall|i: int| 0 <= i < prompt_bytes().len() implies #[trigger] out.cells[cell_index(r, 0 + i)].ascii_character
        == prompt_bytes()[i] by {
        assert(cell_index(r, 0 + i) == cell_index(r, i));
    }
    if s.row < 24 {
        assert(out.cells[cell_index(s.row as int, col)] == s1.cells[cell_index(s.row as int, col)]);
    } else {
        assert(out.cells[cell_index(23, col)] == s1.cells[cell_index(23, col)]);
    }
}

/// Enter always echoes a line feed first: the line then runs on the screen
/// the line feed left, and when it leaves nothing for the program to do
/// the line empties and a fresh prompt follows the command's output.
pub proof fn lemma_enter_runs_line_after_line_feed(line: Seq<u8>, s: ScreenState)
    ensures
        ({
            let out = feed_outcome(line, s, 0x0a);
            let ran = command_outcome(after_byte(s, 0x0a), line_text(line));
            &&& out.2 == ran.1
            &&& ran.1 == Action::Nothing ==> out.0 == Seq::<u8>::empty() && out.1 == after_chars(ran.0, PROMPT@)
            &&& ran.1 != Action::Nothing ==> out.0 == line && out.1 == ran.0
        }),
{
}

} // verus!
