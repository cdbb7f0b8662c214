use proto_os::interrupts::{
    next_scancode, page_fault_words, report_breakpoint, write_fatal_exception, ScancodeQueue,
};
use proto_os::vga_buffer::{screen_contains, Color, ColorCode, Writer};

fn new_writer() -> Writer {
    Writer::new(ColorCode::new(Color::Yellow, Color::Black))
}

#[test]
fn fila_entrega_na_ordem_de_chegada() {
    let mut q = ScancodeQueue::new();
    assert_eq!(next_scancode(&mut q), None);
    q.push(1);
    q.push(2);
    q.push(3);
    assert_eq!(next_scancode(&mut q), Some(1));
    assert_eq!(q.pop(), Some(2));
    q.push(4);
    assert_eq!(q.pop(), Some(3));
    assert_eq!(q.pop(), Some(4));
    assert_eq!(q.pop(), None);
}

#[test]
fn fila_cheia_descarta_o_mais_antigo() {
    let mut q = ScancodeQueue::new();
    for code in 0..20u8 {
        q.push(code);
    }
    for esperado in 4..20u8 {
        assert_eq!(q.pop(), Some(esperado));
    }
    assert_eq!(q.pop(), None);
}

#[test]
fn fila_da_voltas_no_buffer() {
    let mut q = ScancodeQueue::new();
    for rodada in 0..5u8 {
        for i in 0..12u8 {
            q.push(rodada * 16 + i);
        }
        for i in 0..12u8 {
            assert_eq!(q.pop(), Some(rodada * 16 + i));
        }
    }
}

#[test]
fn palavras_do_codigo_de_page_fault() {
    assert_eq!(page_fault_words(0), ("leitura", "pagina ausente"));
    assert_eq!(page_fault_words(2), ("escrita", "pagina ausente"));
    assert_eq!(page_fault_words(1), ("leitura", "violacao de protecao"));
    assert_eq!(page_fault_words(0b111), ("escrita", "violacao de protecao"));
}

#[test]
fn breakpoint_e_relatado_na_tela() {
    let mut w = new_writer();
    report_breakpoint(&mut w, 0x2000_1234);
    assert!(screen_contains(&w, "[EXCEPTION] breakpoint (#BP) em 0x20001234"));
}

#[test]
fn tela_de_page_fault_tem_endereco_e_interpretacao() {
    let mut w = new_writer();
    write_fatal_exception(&mut w, "Page Fault", "#PF", 0xdead, Some(2), Some((0x4444_4445_9000, 2)));
    assert!(screen_contains(&w, "[EXCEPTION] Page Fault (#PF) - proto-os v0.3.0 parou"));
    assert!(screen_contains(&w, "endereco da instrucao: 0xdead"));
    assert!(screen_contains(&w, "codigo de erro: 0x2"));
    assert!(screen_contains(&w, "endereco de falha: 0x444444459000"));
    assert!(screen_contains(&w, "acesso: escrita"));
    assert!(screen_contains(&w, "causa: pagina ausente"));
}

#[test]
fn tela_de_double_fault_sem_codigo() {
    let mut w = new_writer();
    write_fatal_exception(&mut w, "Double Fault", "#DF", 0x10, None, None);
    assert!(screen_contains(&w, "[EXCEPTION] Double Fault (#DF)"));
    assert!(screen_contains(&w, "endereco da instrucao: 0x10"));
    assert!(!screen_contains(&w, "codigo de erro"));
    assert!(!screen_contains(&w, "acesso:"));
}

#[test]
fn fila_guarda_os_ultimos_dezesseis() {
    for n in 1..40u8 {
        let mut q = ScancodeQueue::new();
        for code in 0..n {
            q.push(code);
        }
        let inicio = if n > 16 { n - 16 } else { 0 };
        for esperado in inicio..n {
            assert_eq!(next_scancode(&mut q), Some(esperado));
        }
        assert_eq!(next_scancode(&mut q), None);
    }
}
