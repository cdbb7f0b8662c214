use proto_os::panic::write_panic_header;
use proto_os::vga_buffer::{screen_contains, Color, ColorCode, Writer};
use proto_os::{print_welcome, QemuExitCode, VERSION};

fn new_writer() -> Writer {
    Writer::new(ColorCode::new(Color::Yellow, Color::Black))
}

#[test]
fn boas_vindas_comecam_pela_versao() {
    let mut w = new_writer();
    print_welcome(&mut w);
    assert!(screen_contains(&w, VERSION));
    assert!(screen_contains(&w, "proto-os - sem sistema operacional embaixo"));
    assert_eq!(w.char_at(20, 0).ascii_character, b'p');
    assert!(screen_contains(&w, "por este mesmo binario Rust, sem nenhum SO por baixo."));
}

#[test]
fn versao_tem_o_formato_esperado() {
    assert_eq!(VERSION, "proto-os v0.3.0");
}

#[test]
fn codigos_de_saida_do_qemu() {
    assert_eq!(QemuExitCode::Success.code(), 0x10);
    assert_eq!(QemuExitCode::Failed.code(), 0x11);
}

#[test]
fn tela_de_panic_mostra_versao_e_mensagem() {
    let mut w = new_writer();
    write_panic_header(&mut w);
    w.write_string("comando panic executado no prompt");
    assert!(screen_contains(&w, "[PANIC] proto-os v0.3.0 parou: comando panic executado no prompt"));
}
