use proto_os::keyboard::{
    ascii_for_make_code, translate, ShiftState, LEFT_SHIFT_BREAK, LEFT_SHIFT_MAKE,
    RIGHT_SHIFT_BREAK, RIGHT_SHIFT_MAKE,
};

#[test]
fn letras_e_digitos_sem_shift() {
    let mut s = ShiftState::new();
    assert_eq!(translate(&mut s, 0x1E), Some(b'a'));
    assert_eq!(translate(&mut s, 0x02), Some(b'1'));
    assert_eq!(translate(&mut s, 0x35), Some(b'/'));
    assert_eq!(translate(&mut s, 0x28), Some(b'\''));
    assert_eq!(translate(&mut s, 0x2B), Some(b'\\'));
}

#[test]
fn shift_esquerdo_gera_maiusculas() {
    let mut s = ShiftState::new();
    assert_eq!(translate(&mut s, LEFT_SHIFT_MAKE), None);
    assert!(s.is_active());
    assert_eq!(translate(&mut s, 0x1E), Some(b'A'));
    assert_eq!(translate(&mut s, 0x02), Some(b'!'));
    assert_eq!(translate(&mut s, LEFT_SHIFT_BREAK), None);
    assert!(!s.is_active());
    assert_eq!(translate(&mut s, 0x1E), Some(b'a'));
}

#[test]
fn soltar_um_shift_nao_afeta_o_outro() {
    let mut s = ShiftState::new();
    translate(&mut s, LEFT_SHIFT_MAKE);
    translate(&mut s, RIGHT_SHIFT_MAKE);
    translate(&mut s, LEFT_SHIFT_BREAK);
    assert!(s.is_active());
    assert_eq!(translate(&mut s, 0x10), Some(b'Q'));
    translate(&mut s, RIGHT_SHIFT_BREAK);
    assert_eq!(translate(&mut s, 0x10), Some(b'q'));
}

#[test]
fn break_codes_e_prefixo_estendido_nao_geram_nada() {
    let mut s = ShiftState::new();
    assert_eq!(translate(&mut s, 0x9E), None);
    assert_eq!(translate(&mut s, 0xE0), None);
    assert_eq!(translate(&mut s, 0xFF), None);
    assert_eq!(s, ShiftState::new());
}

#[test]
fn teclas_especiais_ignoram_shift() {
    assert_eq!(ascii_for_make_code(0x0E, true), Some(0x08));
    assert_eq!(ascii_for_make_code(0x1C, true), Some(b'\n'));
    assert_eq!(ascii_for_make_code(0x39, true), Some(b' '));
    assert_eq!(ascii_for_make_code(0x0E, false), Some(0x08));
}

#[test]
fn codigos_fora_da_tabela_nao_geram_nada() {
    assert_eq!(ascii_for_make_code(0x01, false), None);
    assert_eq!(ascii_for_make_code(0x3A, true), None);
    assert_eq!(ascii_for_make_code(0x1D, false), None);
}

#[test]
fn tabela_inteira_de_letras() {
    let linha_q = [0x10u8, 0x11, 0x12, 0x13, 0x14, 0x15, 0x16, 0x17, 0x18, 0x19];
    let texto: Vec<u8> = linha_q.iter().map(|&c| ascii_for_make_code(c, false).unwrap()).collect();
    assert_eq!(texto, b"qwertyuiop".to_vec());
    let texto: Vec<u8> = linha_q.iter().map(|&c| ascii_for_make_code(c, true).unwrap()).collect();
    assert_eq!(texto, b"QWERTYUIOP".to_vec());
    let linha_z = [0x2Cu8, 0x2D, 0x2E, 0x2F, 0x30, 0x31, 0x32];
    let texto: Vec<u8> = linha_z.iter().map(|&c| ascii_for_make_code(c, false).unwrap()).collect();
    assert_eq!(texto, b"zxcvbnm".to_vec());
}
