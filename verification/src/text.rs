//! Numbers as text: decimal (`{}`) and prefixed lowercase hexadecimal
//! (`{:#x}`), written straight onto the screen without allocating.

use crate::vga_buffer::{after_byte, after_text, lemma_after_text_concat, shown_byte, ScreenState, Writer};
use vstd::prelude::*;

verus! {

/// The ASCII byte of a digit below 16: '0'..'9', then 'a'..'f'.
pub open spec fn digit_byte(d: nat) -> u8 {
    if d < 10 {
        (0x30 + d) as u8
    } else {
        (0x61 + d - 10) as u8
    }
}

/// The digits of `n` in base `base` (2 to 16), most significant first,
/// without leading zeros; "0" for zero.
pub open spec fn digits(n: nat, base: nat) -> Seq<u8>
    recommends
        2 <= base <= 16,
    decreases n,
    when base >= 2
{
    if n < base {
        seq![digit_byte(n)]
    } else {
        proof {
            assert(n / base < n) by (nonlinear_arith)
                requires
                    n >= base,
                    base >= 2,
            ;
        }
        digits(n / base, base).push(digit_byte(n % base))
    }
}

/// Decimal text of an unsigned number.
pub open spec fn decimal_text(n: nat) -> Seq<u8> {
    digits(n, 10)
}

/// Decimal text of a signed number: a minus sign before the digits of the
/// magnitude when negative.
pub open spec fn signed_decimal_text(n: int) -> Seq<u8> {
    if n < 0 {
        seq![0x2du8] + digits((-n) as nat, 10)
    } else {
        digits(n as nat, 10)
    }
}

/// Hexadecimal text with the `0x` prefix and lowercase digits.
pub open spec fn hex_text(n: nat) -> Seq<u8> {
    seq![0x30u8, 0x78u8] + digits(n, 16)
}

/// Writing `t` then the byte `b` is writing `t` followed by `b`.
proof fn lemma_after_text_push(s: ScreenState, t: Seq<u8>, b: u8)
    ensures
        after_text(s, t.push(b)) == after_byte(after_text(s, t), shown_byte(b)),
{
    assert(t.push(b).drop_last() =~= t);
}

/// Writes the digits of `n` in base `base`, straight onto the screen
/// (nothing is allocated).
fn write_digits(writer: &mut Writer, n: u64, base: u64)
    requires
        old(writer).wf(),
        2 <= base <= 16,
    ensures
        final(writer).wf(),
        final(writer)@ == after_text(old(writer)@, digits(n as nat, base as nat)),
    decreases n,
{
    if n >= base {
        assert(n / base < n) by (nonlinear_arith)
            requires
                n >= base,
                base >= 2,
        ;
        write_digits(writer, n / base, base);
    }
    let d = n % base;
    assert(d < base) by (nonlinear_arith)
        requires
            d == n % base,
            base >= 2,
    ;
    let b: u8 = if d < 10 {
        0x30u8 + d as u8
    } else {
        0x61u8 + (d - 10) as u8
    };
    assert(b == digit_byte(d as nat));
    assert(shown_byte(b) == b);
    writer.write_byte(b);
    proof {
        if n >= base {
            lemma_after_text_push(old(writer)@, digits((n / base) as nat, base as nat), b);
        } else {
            assert(n % base == n) by (nonlinear_arith)
                requires
                    n < base,
                    base >= 2,
            ;
            lemma_after_text_push(old(writer)@, Seq::empty(), b);
            assert(Seq::<u8>::empty().push(b) =~= seq![b]);
        }
    }
}

/// Writes the decimal text of `n`, as `{}` formats it.
pub fn write_decimal(writer: &mut Writer, n: u64)
    requires
        old(writer).wf(),
    ensures
        final(writer).wf(),
        final(writer)@ == after_text(old(writer)@, decimal_text(n as nat)),
{
    write_digits(writer, n, 10);
}

/// Writes the decimal text of a signed `n`, as `{}` formats it.
pub fn write_signed_decimal(writer: &mut Writer, n: i64)
    requires
        old(writer).wf(),
    ensures
        final(writer).wf(),
        final(writer)@ == after_text(old(writer)@, signed_decimal_text(n as int)),
{
    if n < 0 {
        writer.write_byte(0x2du8);
        let magnitude: u64 = if n == i64::MIN {
            0x8000_0000_0000_0000u64
        } else {
            (-n) as u64
        };
        let ghost mid = writer@;
        write_digits(writer, magnitude, 10);
        proof {
            assert(mid == after_text(old(writer)@, seq![0x2du8])) by {
                lemma_after_text_push(old(writer)@, Seq::empty(), 0x2du8);
                assert(Seq::<u8>::empty().push(0x2du8) =~= seq![0x2du8]);
            }
            lemma_after_text_concat(old(writer)@, seq![0x2du8], digits(magnitude as nat, 10));
        }
    } else {
        write_digits(writer, n as u64, 10);
    }
}

/// Writes the hexadecimal text of `n`, as `{:#x}` formats it.
pub fn write_hex(writer: &mut Writer, n: u64)
    requires
        old(writer).wf(),
    ensures
        final(writer).wf(),
        final(writer)@ == after_text(old(writer)@, hex_text(n as nat)),
{
    writer.write_byte(0x30u8);
    writer.write_byte(0x78u8);
    let ghost mid = writer@;
    write_digits(writer, n, 16);
    proof {
        let prefix = seq![0x30u8, 0x78u8];
        assert(mid == after_text(old(writer)@, prefix)) by {
            lemma_after_text_push(old(writer)@, Seq::empty(), 0x30u8);
            assert(Seq::<u8>::empty().push(0x30u8) =~= seq![0x30u8]);
            lemma_after_text_push(old(writer)@, seq![0x30u8], 0x78u8);
            assert(seq![0x30u8].push(0x78u8) =~= prefix);
        }
        lemma_after_text_concat(old(writer)@, prefix, digits(n as nat, 16));
    }
}

} // verus!
