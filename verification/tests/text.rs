use proto_os::text::{write_decimal, write_hex, write_signed_decimal};
use proto_os::vga_buffer::{Color, ColorCode, Writer};

fn written(f: impl FnOnce(&mut Writer)) -> Vec<u8> {
    let mut w = Writer::new(ColorCode::new(Color::Yellow, Color::Black));
    f(&mut w);
    (0..w.column()).map(|c| w.char_at(24, c).ascii_character).collect()
}

#[test]
fn numeros_em_decimal() {
    assert_eq!(written(|w| write_decimal(w, 0)), b"0".to_vec());
    assert_eq!(written(|w| write_decimal(w, 7)), b"7".to_vec());
    assert_eq!(written(|w| write_decimal(w, 126976)), b"126976".to_vec());
    assert_eq!(written(|w| write_decimal(w, u64::MAX)), u64::MAX.to_string().into_bytes());
}

#[test]
fn numeros_com_sinal_em_decimal() {
    assert_eq!(written(|w| write_signed_decimal(w, 42)), b"42".to_vec());
    assert_eq!(written(|w| write_signed_decimal(w, -5)), b"-5".to_vec());
    assert_eq!(written(|w| write_signed_decimal(w, i64::MIN)), i64::MIN.to_string().into_bytes());
}

#[test]
fn numeros_em_hexadecimal() {
    assert_eq!(written(|w| write_hex(w, 0)), b"0x0".to_vec());
    assert_eq!(written(|w| write_hex(w, 0xdead)), b"0xdead".to_vec());
    assert_eq!(
        written(|w| write_hex(w, 0x4444_4444_0000)),
        format!("{:#x}", 0x4444_4444_0000u64).into_bytes()
    );
    assert_eq!(written(|w| write_hex(w, u64::MAX)), format!("{:#x}", u64::MAX).into_bytes());
}
