//! What the interrupt handlers decide: the fixed-size queue of pending
//! scancodes between the keyboard handler and the main loop, and the text of
//! the exception screens.

use crate::text::{hex_text, write_hex};
use crate::vga_buffer::{after_chars, after_text, lemma_after_chars_concat, ScreenState, Writer};
use crate::VERSION;
use vstd::prelude::*;
use x86_64::structures::idt::PageFaultErrorCode;

verus! {

/// Fixed capacity of the queue of pending scancodes.
pub const SCANCODE_QUEUE_CAPACITY: usize = 16;

/// The pending scancodes after `scancode` arrives: appended at the end,
/// the oldest dropped first when 16 are already pending.
pub open spec fn pushed(q: Seq<u8>, scancode: u8) -> Seq<u8> {
    if q.len() >= 16 {
        q.drop_first().push(scancode)
    } else {
        q.push(scancode)
    }
}

/// The queue is first in, first out and never holds more than 16
/// scancodes: a new scancode goes last; below capacity nothing is lost,
/// at capacity only the oldest is; and the next pop after pushing onto an
/// empty queue gives back the scancode pushed.
pub proof fn lemma_queue_fifo(q: Seq<u8>, scancode: u8)
    requires
        q.len() <= 16,
    ensures
        pushed(q, scancode).len() <= 16,
        pushed(q, scancode).last() == scancode,
        q.len() < 16 ==> pushed(q, scancode).drop_last() == q,
        q.len() == 16 ==> pushed(q, scancode).drop_last() == q.drop_first(),
        q.len() == 0 ==> pushed(q, scancode)[0] == scancode,
{
    assert(q.push(scancode).drop_last() =~= q);
    if q.len() > 0 {
        assert(q.drop_first().push(scancode).drop_last() =~= q.drop_first());
    }
}

/// The pending scancodes after each of `codes` arrives, in order.
pub open spec fn pushed_all(q: Seq<u8>, codes: Seq<u8>) -> Seq<u8>
    decreases codes.len(),
{
    if codes.len() == 0 {
        q
    } else {
        pushed(pushed_all(q, codes.drop_last()), codes.last())
    }
}

/// After `n` scancodes arrive at an empty queue with no pop in between, the
/// queue holds the last `min(n, 16)` of them, oldest first.
pub proof fn lemma_queue_keeps_latest(codes: Seq<u8>)
    ensures
        pushed_all(Seq::empty(), codes) == codes.subrange(
            if codes.len() > 16 { codes.len() - 16 } else { 0 },
            codes.len() as int,
        ),
    decreases codes.len(),
{
    let n = codes.len() as int;
    if n > 0 {
        let p = codes.drop_last();
        lemma_queue_keeps_latest(p);
        let before = pushed_all(Seq::empty(), p);
        if n - 1 < 16 {
            assert(before.push(codes.last()) =~= codes.subrange(0, n));
        } else {
            assert(before.len() == 16);
            assert(before.drop_first().push(codes.last()) =~= codes.subrange(n - 16, n));
        }
    }
}

/// Popping a queue `k` times gives its first `k` scancodes in order and
/// leaves the rest; once every scancode is out, a pop finds none.
pub proof fn lemma_queue_pops_in_order(q: Seq<u8>, k: int)
    requires
        0 <= k < q.len(),
    ensures
        q.skip(k)[0] == q[k],
        q.skip(k).drop_first() == q.skip(k + 1),
        q.skip(q.len() as int).len() == 0,
{
    assert(q.skip(k).drop_first() =~= q.skip(k + 1));
}

/// Fixed-size ring buffer between the capture of a scancode (the IRQ1
/// handler, producer) and its processing in the kernel's main loop
/// (consumer).
pub struct ScancodeQueue {
    buffer: [u8; 16],
    head: usize,
    tail: usize,
    len: usize,
}

impl View for ScancodeQueue {
    type V = Seq<u8>;

    /// The pending scancodes, oldest first.
    closed spec fn view(&self) -> Seq<u8> {
        Seq::new(self.len as nat, |i: int| self.buffer@[(self.head + i) % 16])
    }
}

impl ScancodeQueue {
    /// The ring buffer's invariant.
    pub closed spec fn wf(&self) -> bool {
        &&& self.head < 16
        &&& self.len <= 16
        &&& self.tail == (self.head + self.len) % 16
    }

    pub proof fn lemma_len_bound(&self)
        requires
            self.wf(),
        ensures
            self@.len() <= 16,
    {
    }

    /// An empty queue.
    pub fn new() -> (q: ScancodeQueue)
        ensures
            q.wf(),
            q@ == Seq::<u8>::empty(),
    {
        let q = ScancodeQueue { buffer: [0u8; 16], head: 0, tail: 0, len: 0 };
        assert(q@ =~= Seq::<u8>::empty());
        q
    }

    /// Adds a scancode at the end. When the queue is full the oldest
    /// scancode is dropped first, so that the handler never blocks: losing
    /// a byte under abnormally fast typing is acceptable, hanging is not.
    pub fn push(&mut self, scancode: u8)
        requires
            old(self).wf(),
        ensures
            final(self).wf(),
            final(self)@ == pushed(old(self)@, scancode),
    {
        let ghost before = self@;
        if self.len == SCANCODE_QUEUE_CAPACITY {
            self.head = (self.head + 1) % SCANCODE_QUEUE_CAPACITY;
            self.len = self.len - 1;
            assert(self@ =~= before.drop_first());
        }
        let ghost mid = self@;
        let tail = self.tail;
        self.buffer[tail] = scancode;
        self.tail = (self.tail + 1) % SCANCODE_QUEUE_CAPACITY;
        self.len = self.len + 1;
        assert forall|i: int| 0 <= i < mid.len() implies #[trigger] self@[i] == mid[i] by {
            assert((self.head + i) % 16 != tail as int);
        }
        assert(self@ =~= mid.push(scancode));
    }

    /// Removes and returns the oldest scancode; `None` when empty.
    pub fn pop(&mut self) -> (r: Option<u8>)
        requires
            old(self).wf(),
        ensures
            final(self).wf(),
            old(self)@.len() == 0 ==> r == None::<u8> && final(self)@ == old(self)@,
            old(self)@.len() > 0 ==> r == Some(old(self)@[0]) && final(self)@ == old(self)@.drop_first(),
    {
        if self.len == 0 {
            return None;
        }
        let ghost before = self@;
        let scancode = self.buffer[self.head];
        self.head = (self.head + 1) % SCANCODE_QUEUE_CAPACITY;
        self.len = self.len - 1;
        assert(self@ =~= before.drop_first());
        Some(scancode)
    }
}

/// Removes and returns the next pending scancode of `queue`, if any.
pub fn next_scancode(queue: &mut ScancodeQueue) -> (r: Option<u8>)
    requires
        old(queue).wf(),
    ensures
        final(queue).wf(),
        old(queue)@.len() == 0 ==> r == None::<u8> && final(queue)@ == old(queue)@,
        old(queue)@.len() > 0 ==> r == Some(old(queue)@[0]) && final(queue)@ == old(queue)@.drop_first(),
{
    queue.pop()
}


/// `PageFaultErrorCode::contains` for `CAUSED_BY_WRITE` and for
/// `PROTECTION_VIOLATION` on the error code with the given bits. By the
/// x86_64 source those flags are bits 1 and 0, and bitflags' `contains` is
/// `self & other == other`.
#[verifier::external_body]
fn page_fault_flags(bits: u64) -> (r: (bool, bool))
    ensures
        r.0 == (bits & 2 == 2),
        r.1 == (bits & 1 == 1),
{
    let code = PageFaultErrorCode::from_bits_retain(bits);
    (code.contains(PageFaultErrorCode::CAUSED_BY_WRITE), code.contains(PageFaultErrorCode::PROTECTION_VIOLATION))
}

/// The kind of access of a page fault, in words: a write when bit 1 of the
/// error code is set, else a read.
pub open spec fn access_words(bits: u64) -> Seq<char> {
    if bits & 2 == 2 {
        "escrita"@
    } else {
        "leitura"@
    }
}

/// The cause of a page fault, in words: a protection violation when bit 0
/// of the error code is set, else a page not present.
pub open spec fn cause_words(bits: u64) -> Seq<char> {
    if bits & 1 == 1 {
        "violacao de protecao"@
    } else {
        "pagina ausente"@
    }
}

/// The interpretation in words of a page fault error code: the kind of
/// access and the cause.
pub fn page_fault_words(bits: u64) -> (r: (&'static str, &'static str))
    ensures
        r.0@ == access_words(bits),
        r.1@ == cause_words(bits),
{
    let (write, protection) = page_fault_flags(bits);
    let acesso = if write {
        "escrita"
    } else {
        "leitura"
    };
    let causa = if protection {
        "violacao de protecao"
    } else {
        "pagina ausente"
    };
    (acesso, causa)
}

/// The breakpoint line: the exception and the address of the instruction.
pub open spec fn breakpoint_screen(s: ScreenState, address: u64) -> ScreenState {
    after_chars(after_text(after_chars(s, "[EXCEPTION] breakpoint (#BP) em "@), hex_text(address as nat)), "\n"@)
}

/// Reports a breakpoint (`int3`) on the screen; the exception is not fatal
/// and execution goes on.
pub fn report_breakpoint(writer: &mut Writer, address: u64)
    requires
        old(writer).wf(),
    ensures
        final(writer).wf(),
        final(writer)@ == breakpoint_screen(old(writer)@, address),
{
    writer.write_string("[EXCEPTION] breakpoint (#BP) em ");
    write_hex(writer, address);
    writer.write_string("\n");
}

/// The screen of a fatal exception: a header with name, mnemonic and
/// version, the instruction address, the error code when the exception
/// has one, and for a page fault the faulting address and the error code
/// in words.
pub open spec fn fatal_screen(
    s: ScreenState,
    name: Seq<char>,
    mnemonic: Seq<char>,
    address: u64,
    error_code: Option<u64>,
    page_fault: Option<(u64, u64)>,
) -> ScreenState {
    let s1 = after_chars(s, "\n[EXCEPTION] "@ + name + " ("@ + mnemonic + ") - "@ + VERSION@ + " parou\n"@);
    let s2 = after_chars(after_text(after_chars(s1, "endereco da instrucao: "@), hex_text(address as nat)), "\n"@);
    let s3 = match error_code {
        Some(code) => after_chars(after_text(after_chars(s2, "codigo de erro: "@), hex_text(code as nat)), "\n"@),
        None => s2,
    };
    match page_fault {
        Some(pf) => after_chars(
            after_text(after_chars(s3, "endereco de falha: "@), hex_text(pf.0 as nat)),
            "\n"@ + "acesso: "@ + access_words(pf.1) + "\n"@ + "causa: "@ + cause_words(pf.1) + "\n"@,
        ),
        None => s3,
    }
}

/// Writes the screen of a fatal exception (`#UD`, `#GP`, `#PF`, `#DF`), in
/// the style of the panic screen, with the `[EXCEPTION]` header. The error
/// code shows when the exception has one; `page_fault` (faulting address,
/// error code bits) only for a page fault. Nothing is allocated.
pub fn write_fatal_exception(
    writer: &mut Writer,
    name: &str,
    mnemonic: &str,
    address: u64,
    error_code: Option<u64>,
    page_fault: Option<(u64, u64)>,
)
    requires
        old(writer).wf(),
    ensures
        final(writer).wf(),
        final(writer)@ == fatal_screen(old(writer)@, name@, mnemonic@, address, error_code, page_fault),
{
    let ghost s0 = writer@;
    writer.write_string("\n[EXCEPTION] ");
    writer.write_string(name);
    writer.write_string(" (");
    writer.write_string(mnemonic);
    writer.write_string(") - ");
    writer.write_string(VERSION);
    writer.write_string(" parou\n");
    proof {
        let p1 = "\n[EXCEPTION] "@;
        let p2 = " ("@;
        let p3 = ") - "@;
        let p4 = " parou\n"@;
        lemma_after_chars_concat(s0, p1, name@);
        lemma_after_chars_concat(s0, p1 + name@, p2);
        lemma_after_chars_concat(s0, p1 + name@ + p2, mnemonic@);
        lemma_after_chars_concat(s0, p1 + name@ + p2 + mnemonic@, p3);
        lemma_after_chars_concat(s0, p1 + name@ + p2 + mnemonic@ + p3, VERSION@);
        lemma_after_chars_concat(s0, p1 + name@ + p2 + mnemonic@ + p3 + VERSION@, p4);
    }
    writer.write_string("endereco da instrucao: ");
    write_hex(writer, address);
    writer.write_string("\n");
    if let Some(code) = error_code {
        writer.write_string("codigo de erro: ");
        write_hex(writer, code);
        writer.write_string("\n");
    }
    if let Some((fault_address, bits)) = page_fault {
        let (acesso, causa) = page_fault_words(bits);
        writer.write_string("endereco de falha: ");
        write_hex(writer, fault_address);
        let ghost s5 = writer@;
        writer.write_string("\n");
        writer.write_string("acesso: ");
        writer.write_string(acesso);
        writer.write_string("\n");
        writer.write_string("causa: ");
        writer.write_string(causa);
        writer.write_string("\n");
        proof {
            let n = "\n"@;
            let a = "acesso: "@;
            let c = "causa: "@;
            lemma_after_chars_concat(s5, n, a);
            lemma_after_chars_concat(s5, n + a, acesso@);
            lemma_after_chars_concat(s5, n + a + acesso@, n);
            lemma_after_chars_concat(s5, n + a + acesso@ + n, c);
            lemma_after_chars_concat(s5, n + a + acesso@ + n + c, causa@);
            lemma_after_chars_concat(s5, n + a + acesso@ + n + c + causa@, n);
        }
    }
}

} // verus!
