use proto_os::allocator::{heap_page_range, HEAP_SIZE, HEAP_START};
use proto_os::memory::{info, memory_summary, BootInfoFrameAllocator, MemoryInfo, MemoryRegion};

fn region(start: u64, end: u64, usable: bool) -> MemoryRegion {
    MemoryRegion { start_frame_number: start, end_frame_number: end, usable }
}

fn mapa_de_boot() -> Vec<MemoryRegion> {
    vec![
        region(0, 1, false),
        region(1, 0x9f, true),
        region(0x9f, 0x100, false),
        region(0x100, 0x400, false),
        region(0x400, 0x7fe0, true),
        region(0x7fe0, 0x8000, false),
    ]
}

#[test]
fn frame_obtido_esta_alinhado_e_utilizavel() {
    let mapa = mapa_de_boot();
    let mut allocator = BootInfoFrameAllocator::init(&mapa);
    let frame = allocator.allocate_frame().expect("deveria haver memoria utilizavel");
    assert_eq!(frame % 4096, 0);
    assert_eq!(frame, 0x1000);
}

#[test]
fn frames_entregues_nunca_se_repetem() {
    let mapa = mapa_de_boot();
    let mut allocator = BootInfoFrameAllocator::init(&mapa);
    const AMOSTRA: usize = 2000;
    let mut enderecos = Vec::with_capacity(AMOSTRA);
    for _ in 0..AMOSTRA {
        enderecos.push(allocator.allocate_frame().expect("memoria suficiente para a amostra"));
    }
    let mut ordenados = enderecos.clone();
    ordenados.sort();
    ordenados.dedup();
    assert_eq!(ordenados.len(), AMOSTRA);
    for e in &enderecos {
        let n = e / 4096;
        assert!((1..0x9f).contains(&n) || (0x400..0x7fe0).contains(&n));
    }
}

#[test]
fn esgotar_a_memoria_utilizavel_devolve_none() {
    let pequeno = vec![region(0x100, 0x100 + 32, true)];
    let mut allocator = BootInfoFrameAllocator::init(&pequeno);
    let mut entregues = 0;
    while allocator.allocate_frame().is_some() {
        entregues += 1;
    }
    assert_eq!(entregues, 32);
    assert!(allocator.allocate_frame().is_none());
    assert!(allocator.allocate_frame().is_none());
}

#[test]
fn frames_seguem_a_ordem_do_mapa() {
    let mapa = vec![
        region(5, 7, true),
        region(7, 9, false),
        region(20, 21, true),
        region(30, 29, true),
        region(40, 41, true),
    ];
    let mut allocator = BootInfoFrameAllocator::init(&mapa);
    let frames: Vec<u64> = (0..6).map(|_| allocator.allocate_frame()).flatten().collect();
    assert_eq!(frames, vec![5 * 4096, 6 * 4096, 20 * 4096, 40 * 4096]);
}

#[test]
fn resumo_conta_os_bytes_utilizaveis() {
    let mapa = mapa_de_boot();
    let resumo = memory_summary(&mapa, HEAP_START, HEAP_SIZE);
    let frames = (0x9f - 1) + (0x7fe0 - 0x400);
    assert_eq!(resumo.usable_bytes, frames * 4096);
    assert_eq!(resumo.heap_start, 0x4444_4444_0000);
    assert_eq!(resumo.heap_size, 100 * 1024);
    let mut allocator = BootInfoFrameAllocator::init(&mapa);
    let mut entregues = 0u64;
    while allocator.allocate_frame().is_some() {
        entregues += 1;
    }
    assert_eq!(entregues * 4096, resumo.usable_bytes);
}

#[test]
fn info_devolve_o_resumo_guardado() {
    let guardado = Some(MemoryInfo { usable_bytes: 4096, heap_start: 1, heap_size: 2 });
    assert_eq!(info(&guardado), guardado.unwrap());
}

#[test]
fn paginas_do_heap_cobrem_a_faixa_inteira() {
    let (primeira, ultima) = heap_page_range();
    assert_eq!(primeira, HEAP_START);
    assert_eq!(ultima, HEAP_START + 24 * 4096);
    assert_eq!((ultima - primeira) / 4096 + 1, 25);
    let fim = HEAP_START + HEAP_SIZE as u64;
    assert!(ultima < fim && fim <= ultima + 4096);
    assert_eq!(ultima % 4096, 0);
}
