use proto_os::interrupts::report_breakpoint;
use proto_os::memory::MemoryInfo;
use proto_os::shell::{
    cmd_mem, execute, feed, finish_line, print_prompt, Action, FaultKind, LineBuffer,
    LINE_CAPACITY,
};
use proto_os::vga_buffer::{clear_screen, screen_contains, screen_is_blank, Color, ColorCode, Writer};
use proto_os::VERSION;

fn new_writer() -> Writer {
    let mut w = Writer::new(ColorCode::new(Color::Yellow, Color::Black));
    clear_screen(&mut w);
    w
}

// --- LineBuffer ---

#[test]
fn linha_acumula_caracteres_digitados() {
    let mut line = LineBuffer::new();
    assert!(line.push(b'a'));
    assert!(line.push(b'b'));
    assert!(line.push(b'c'));
    assert_eq!(line.as_str(), "abc");
}

#[test]
fn linha_backspace_remove_ultimo_caractere() {
    let mut line = LineBuffer::new();
    line.push(b'a');
    line.push(b'b');
    assert!(line.pop());
    assert_eq!(line.as_str(), "a");
    let mut empty = LineBuffer::new();
    assert!(!empty.pop());
    assert_eq!(empty.as_str(), "");
}

#[test]
fn linha_respeita_limite_de_tamanho() {
    let mut line = LineBuffer::new();
    for _ in 0..LINE_CAPACITY {
        assert!(line.push(b'x'));
    }
    assert!(!line.push(b'y'));
    assert_eq!(line.as_str().len(), LINE_CAPACITY);
}

#[test]
fn linha_com_utf8_invalido_vira_texto_vazio() {
    let mut line = LineBuffer::new();
    line.push(b'a');
    line.push(0xff);
    assert_eq!(line.as_str(), "");
    line.clear();
    assert_eq!(line.as_str(), "");
}

// --- Interpretação de comandos ---

#[test]
fn comando_help_lista_os_comandos() {
    let mut w = new_writer();
    assert_eq!(execute(&mut w, "help"), Action::Nothing);
    assert!(screen_contains(&w, "lista os comandos disponiveis"));
    assert!(screen_contains(&w, "clear - limpa a tela"));
    assert!(screen_contains(&w, "mem - mostra memoria fisica, heap, Box e Vec"));
}

#[test]
fn comando_clear_limpa_a_tela() {
    let mut w = new_writer();
    w.write_string("conteudo antes do clear");
    execute(&mut w, "clear");
    assert!(screen_is_blank(&w));
}

#[test]
fn comando_echo_repete_o_texto_digitado() {
    let mut w = new_writer();
    execute(&mut w, "echo ola mundo");
    assert!(screen_contains(&w, "ola mundo"));
}

#[test]
fn comando_sobre_descreve_o_proto_os() {
    let mut w = new_writer();
    execute(&mut w, "sobre");
    assert!(screen_contains(&w, "proto-os"));
}

#[test]
fn comando_mem_mostra_memoria_heap_box_e_vec() {
    let mut w = new_writer();
    assert_eq!(execute(&mut w, "mem"), Action::ShowMemory);
    let info = MemoryInfo { usable_bytes: 130_023_424, heap_start: 0x4444_4444_0000, heap_size: 102_400 };
    let capacidade = cmd_mem(&mut w, info, 42, 0x4444_4444_0010);
    assert!(capacidade >= 10);
    assert!(screen_contains(&w, "memoria fisica utilizavel"));
    assert!(screen_contains(&w, "memoria fisica utilizavel: 126976 KiB"));
    assert!(screen_contains(&w, "heap: 0x444444440000, 100 KiB"));
    assert!(screen_contains(&w, "Box: valor=42, endereco=0x444444440010"));
    assert!(screen_contains(&w, "Vec: tamanho=10"));
    assert!(screen_contains(&w, ", soma=55"));
    let linha_vec = format!("Vec: tamanho=10, capacidade={}, soma=55", capacidade);
    assert!(screen_contains(&w, &linha_vec));
}

#[test]
fn comando_desconhecido_mostra_mensagem_de_erro() {
    let mut w = new_writer();
    execute(&mut w, "xyz");
    assert!(screen_contains(&w, "comando desconhecido: xyz"));
    assert!(screen_contains(&w, "comando desconhecido: xyz (digite help)"));
}

#[test]
fn linha_vazia_nao_faz_nada() {
    let mut w = new_writer();
    assert_eq!(execute(&mut w, ""), Action::Nothing);
    assert!(screen_is_blank(&w));
    assert_eq!(execute(&mut w, "   \t  "), Action::Nothing);
    assert!(screen_is_blank(&w));
}

#[test]
fn espacos_extras_nas_pontas_sao_ignorados() {
    let mut w = new_writer();
    execute(&mut w, "   sobre   ");
    assert!(screen_contains(&w, "proto-os"));
}

#[test]
fn comando_sobre_mostra_a_versao() {
    let mut w = new_writer();
    execute(&mut w, "sobre");
    assert!(screen_contains(&w, VERSION));
}

#[test]
fn comando_panic_pede_um_panic() {
    let mut w = new_writer();
    assert_eq!(execute(&mut w, "panic"), Action::Panic);
    assert!(screen_is_blank(&w));
}

#[test]
fn comando_falha_sem_argumento_lista_tipos() {
    let mut w = new_writer();
    assert_eq!(execute(&mut w, "falha"), Action::Nothing);
    assert!(screen_contains(&w, "tipos disponiveis"));
}

#[test]
fn comando_falha_tipo_desconhecido_lista_tipos() {
    let mut w = new_writer();
    assert_eq!(execute(&mut w, "falha xyz"), Action::Nothing);
    assert!(screen_contains(&w, "tipos disponiveis"));
}

#[test]
fn comando_falha_escolhe_o_tipo_de_excecao() {
    let mut w = new_writer();
    assert_eq!(execute(&mut w, "falha pagina"), Action::Fault(FaultKind::Page));
    assert_eq!(execute(&mut w, "falha pilha"), Action::Fault(FaultKind::Stack));
    assert_eq!(execute(&mut w, "falha opcode"), Action::Fault(FaultKind::Opcode));
    assert_eq!(execute(&mut w, "falha  protecao "), Action::Fault(FaultKind::Protection));
    assert!(screen_is_blank(&w));
}

#[test]
fn comando_falha_breakpoint_retorna_ao_prompt() {
    let mut w = new_writer();
    assert_eq!(execute(&mut w, "falha breakpoint"), Action::Fault(FaultKind::Breakpoint));
    report_breakpoint(&mut w, 0x1234);
    assert!(screen_contains(&w, "#BP"));
    clear_screen(&mut w);
    execute(&mut w, "sobre");
    assert!(screen_contains(&w, "proto-os"));
}

// --- Prompt alimentado pelo teclado ---

fn digita(line: &mut LineBuffer, w: &mut Writer, texto: &[u8]) -> Action {
    let mut ultima = Action::Nothing;
    for &b in texto {
        ultima = feed(line, w, b);
    }
    ultima
}

#[test]
fn prompt_ecoa_e_executa_a_linha() {
    let mut w = new_writer();
    let mut line = LineBuffer::new();
    print_prompt(&mut w);
    assert_eq!(digita(&mut line, &mut w, b"echo oi\n"), Action::Nothing);
    assert!(screen_contains(&w, "proto-os> echo oi"));
    assert_eq!(line.as_str(), "");
    // The answer, then a fresh prompt on the bottom row.
    assert_eq!(w.column(), "proto-os> ".len());
    assert_eq!(w.char_at(23, 0).ascii_character, b'o');
    assert_eq!(w.char_at(23, 1).ascii_character, b'i');
}

#[test]
fn prompt_backspace_corrige_a_linha() {
    let mut w = new_writer();
    let mut line = LineBuffer::new();
    print_prompt(&mut w);
    digita(&mut line, &mut w, b"sobrx");
    feed(&mut line, &mut w, 0x08);
    digita(&mut line, &mut w, b"e");
    assert_eq!(line.as_str(), "sobre");
    assert!(screen_contains(&w, "proto-os> sobre"));
    // Backspace past the start of the line does not erase the prompt.
    for _ in 0..10 {
        feed(&mut line, &mut w, 0x08);
    }
    assert_eq!(line.as_str(), "");
    assert!(screen_contains(&w, "proto-os> "));
}

#[test]
fn prompt_ignora_bytes_nao_imprimiveis() {
    let mut w = new_writer();
    let mut line = LineBuffer::new();
    feed(&mut line, &mut w, 0x07);
    feed(&mut line, &mut w, 0x80);
    assert_eq!(line.as_str(), "");
    assert!(screen_is_blank(&w));
}

#[test]
fn prompt_com_acao_pendente_espera_finish_line() {
    let mut w = new_writer();
    let mut line = LineBuffer::new();
    assert_eq!(digita(&mut line, &mut w, b"mem\n"), Action::ShowMemory);
    assert_eq!(line.as_str(), "mem");
    finish_line(&mut line, &mut w);
    assert_eq!(line.as_str(), "");
    assert_eq!(w.column(), "proto-os> ".len());
}

#[test]
fn prompt_recusa_alem_da_capacidade() {
    let mut w = new_writer();
    let mut line = LineBuffer::new();
    for _ in 0..(LINE_CAPACITY + 5) {
        feed(&mut line, &mut w, b'z');
    }
    assert_eq!(line.as_str().len(), LINE_CAPACITY);
}

#[test]
fn comando_clear_reposiciona_o_prompt_no_topo() {
    let mut w = new_writer();
    let mut line = LineBuffer::new();
    print_prompt(&mut w);
    assert_eq!(digita(&mut line, &mut w, b"clear\n"), Action::Nothing);
    assert_eq!(line.as_str(), "");
    let topo: Vec<u8> = (0..10).map(|c| w.char_at(0, c).ascii_character).collect();
    assert_eq!(topo, b"proto-os> ".to_vec());
    assert_eq!(w.row(), 0);
    assert_eq!(w.column(), 10);
    assert_eq!(w.cursor_location(), (0, 10));
    for r in 1..25 {
        for c in 0..80 {
            assert_eq!(w.char_at(r, c).ascii_character, b' ');
        }
    }
    // Output after `clear` goes on from the top, line after line.
    digita(&mut line, &mut w, b"echo a\n");
    assert_eq!(w.char_at(1, 0).ascii_character, b'a');
    assert_eq!(w.row(), 2);
}
