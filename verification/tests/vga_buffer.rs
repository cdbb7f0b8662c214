use proto_os::vga_buffer::{
    backspace, clear_screen, screen_contains, screen_is_blank, Color, ColorCode, ScreenChar, Writer,
    BUFFER_HEIGHT, BUFFER_WIDTH,
};

fn new_writer() -> Writer {
    Writer::new(ColorCode::new(Color::Yellow, Color::Black))
}

fn row_text(w: &Writer, row: usize, len: usize) -> Vec<u8> {
    (0..len).map(|c| w.char_at(row, c).ascii_character).collect()
}

#[test]
fn escreve_caractere_simples() {
    let mut w = new_writer();
    clear_screen(&mut w);
    w.write_string("A");
    assert_eq!(w.char_at(BUFFER_HEIGHT - 1, 0).ascii_character, b'A');
}

#[test]
fn quebra_de_linha() {
    let mut w = new_writer();
    clear_screen(&mut w);
    w.write_string("ab\ncd");
    assert_eq!(w.char_at(BUFFER_HEIGHT - 1, 0).ascii_character, b'c');
    assert_eq!(w.char_at(BUFFER_HEIGHT - 1, 1).ascii_character, b'd');
    assert_eq!(w.char_at(BUFFER_HEIGHT - 2, 0).ascii_character, b'a');
    assert_eq!(w.char_at(BUFFER_HEIGHT - 2, 1).ascii_character, b'b');
}

#[test]
fn rolagem_ao_ultrapassar_a_altura_da_tela() {
    let mut w = new_writer();
    clear_screen(&mut w);
    w.write_string("\nPRIMEIRA\nSEGUNDA");
    assert_eq!(row_text(&w, BUFFER_HEIGHT - 2, 8), b"PRIMEIRA".to_vec());
    assert_eq!(row_text(&w, BUFFER_HEIGHT - 1, 7), b"SEGUNDA".to_vec());
}

#[test]
fn apaga_ultimo_caractere_com_backspace() {
    let mut w = new_writer();
    clear_screen(&mut w);
    w.write_string("AB");
    backspace(&mut w);
    assert_eq!(w.char_at(BUFFER_HEIGHT - 1, 0).ascii_character, b'A');
    assert_eq!(w.char_at(BUFFER_HEIGHT - 1, 1).ascii_character, b' ');
    assert_eq!(w.column(), 1);
}

#[test]
fn backspace_no_inicio_da_linha_nao_faz_nada() {
    let mut w = new_writer();
    w.write_string("x\n");
    let before: Vec<_> = (0..BUFFER_HEIGHT)
        .flat_map(|r| (0..BUFFER_WIDTH).map(move |c| (r, c)))
        .map(|(r, c)| w.char_at(r, c))
        .collect();
    backspace(&mut w);
    let after: Vec<_> = (0..BUFFER_HEIGHT)
        .flat_map(|r| (0..BUFFER_WIDTH).map(move |c| (r, c)))
        .map(|(r, c)| w.char_at(r, c))
        .collect();
    assert_eq!(before, after);
    assert_eq!(w.column(), 0);
}

#[test]
fn linha_cheia_quebra_automaticamente() {
    let mut w = new_writer();
    let linha = "x".repeat(BUFFER_WIDTH);
    w.write_string(&linha);
    assert_eq!(w.column(), BUFFER_WIDTH);
    w.write_string("y");
    assert_eq!(w.column(), 1);
    assert_eq!(w.char_at(BUFFER_HEIGHT - 1, 0).ascii_character, b'y');
    assert_eq!(w.char_at(BUFFER_HEIGHT - 2, BUFFER_WIDTH - 1).ascii_character, b'x');
}

#[test]
fn bytes_fora_do_ascii_imprimivel_viram_quadrado() {
    let mut w = new_writer();
    w.write_string("é\t");
    // 'é' has two UTF-8 bytes, the tab one: three squares.
    assert_eq!(w.column(), 3);
    for c in 0..3 {
        assert_eq!(w.char_at(BUFFER_HEIGHT - 1, c).ascii_character, 0xfe);
    }
}

#[test]
fn limpar_deixa_a_tela_em_branco() {
    let mut w = new_writer();
    w.write_string("texto qualquer\noutra linha");
    assert!(!screen_is_blank(&w));
    clear_screen(&mut w);
    assert!(screen_is_blank(&w));
    assert_eq!(w.column(), 0);
}

#[test]
fn texto_escrito_aparece_na_tela() {
    let mut w = new_writer();
    w.write_string("ola mundo\n");
    assert!(screen_contains(&w, "ola mundo"));
    assert!(!screen_contains(&w, "ola  mundo"));
    assert!(!screen_contains(&w, ""));
    let longo = "a".repeat(BUFFER_WIDTH + 1);
    assert!(!screen_contains(&w, &longo));
}

#[test]
fn texto_quebrado_entre_linhas_nao_e_encontrado() {
    let mut w = new_writer();
    w.write_string("abc\ndef");
    assert!(!screen_contains(&w, "abcdef"));
    assert!(screen_contains(&w, "abc"));
    assert!(screen_contains(&w, "def"));
}

#[test]
fn codigo_de_cor_combina_frente_e_fundo() {
    assert_eq!(ColorCode::new(Color::Yellow, Color::Black).value(), 0x0e);
    assert_eq!(ColorCode::new(Color::White, Color::Blue).value(), 0x1f);
    assert_eq!(ColorCode::new(Color::Black, Color::White).value(), 0xf0);
    assert_eq!(Color::LightGreen.value(), 10);
}

#[test]
fn celulas_usam_a_cor_do_escritor() {
    let cor = ColorCode::new(Color::LightCyan, Color::Red);
    let mut w = Writer::new(cor);
    w.write_string("z");
    let c = w.char_at(BUFFER_HEIGHT - 1, 0);
    assert_eq!(c.color_code, cor);
    assert_eq!(w.char_at(0, 0).color_code, cor);
}

#[test]
fn cursor_de_hardware_acompanha_a_coluna() {
    let mut w = new_writer();
    assert_eq!(w.cursor_location(), (0x07, 0x80));
    w.write_string("abc");
    let (alto, baixo) = w.cursor_location();
    assert_eq!(alto as usize * 256 + baixo as usize, 24 * 80 + 3);
}

#[test]
fn escritor_sobre_tela_existente_preserva_o_conteudo() {
    let cor = ColorCode::new(Color::Yellow, Color::Black);
    let mut cells = [ScreenChar { ascii_character: b'#', color_code: cor }; 2000];
    cells[0].ascii_character = b'B';
    let mut w = Writer::from_cells(cor, cells);
    assert_eq!(w.char_at(0, 0).ascii_character, b'B');
    w.write_string("x");
    assert_eq!(w.char_at(24, 0).ascii_character, b'x');
    assert_eq!(w.char_at(24, 1).ascii_character, b'#');
}

#[test]
fn quebra_de_linha_desce_ate_a_ultima_linha_antes_de_rolar() {
    let mut w = new_writer();
    w.clear_screen_to_top();
    for i in 0..25u8 {
        w.write_string(&format!("{}\n", (b'a' + i) as char));
    }
    // 25 lines from the top: the first one scrolled off, the last line is blank.
    assert_eq!(w.char_at(0, 0).ascii_character, b'b');
    assert_eq!(w.char_at(23, 0).ascii_character, b'y');
    assert_eq!(w.char_at(24, 0).ascii_character, b' ');
    assert_eq!(w.row(), 24);
}
