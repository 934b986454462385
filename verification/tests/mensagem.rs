use net_tank::mensagem::{formatar_mensagem, interpretar_mensagem, texto_decimal, Mensagem};

fn buffer(bytes: &[u8]) -> [u8; 100] {
    let mut buf = [0u8; 100];
    buf[..bytes.len()].copy_from_slice(bytes);
    buf
}

fn entrada(m: Mensagem) -> (String, u8) {
    match m {
        Mensagem::Entrada { nome, input } => (nome, input.0),
        _ => panic!("not an input message"),
    }
}

#[test]
fn formatar_junta_nome_e_valor() {
    assert_eq!(formatar_mensagem("ana", "17"), b"ana;17".to_vec());
    assert_eq!(formatar_mensagem("", ""), b";".to_vec());
    assert_eq!(formatar_mensagem("joão", "3"), "joão;3".as_bytes().to_vec());
}

#[test]
fn interpretar_mensagem_simples() {
    let (nome, v) = entrada(interpretar_mensagem(&buffer(b"ana;17")));
    assert_eq!(nome, "ana");
    assert_eq!(v, 17);
}

#[test]
fn ida_e_volta_todos_os_valores() {
    for v in 0u8..=255 {
        let msg = formatar_mensagem("jogador", &v.to_string());
        let (nome, lido) = entrada(interpretar_mensagem(&buffer(&msg)));
        assert_eq!(nome, "jogador");
        assert_eq!(lido, v);
    }
}

#[test]
fn ida_e_volta_nome_unicode() {
    let msg = formatar_mensagem("ação ☃", "9");
    let (nome, v) = entrada(interpretar_mensagem(&buffer(&msg)));
    assert_eq!(nome, "ação ☃");
    assert_eq!(v, 9);
}

#[test]
fn invalida_sem_valor_e_valor_invalido() {
    assert!(matches!(interpretar_mensagem(&buffer(&[0xFF, b';', b'1'])), Mensagem::Invalida));
    assert!(matches!(interpretar_mensagem(&buffer(b"ana")), Mensagem::SemValor));
    assert!(matches!(interpretar_mensagem(&buffer(b"")), Mensagem::SemValor));
    assert!(matches!(interpretar_mensagem(&buffer(b"ana;x")), Mensagem::ValorInvalido));
    assert!(matches!(interpretar_mensagem(&buffer(b"ana;256")), Mensagem::ValorInvalido));
    assert!(matches!(interpretar_mensagem(&buffer(b"ana;")), Mensagem::ValorInvalido));
    assert!(matches!(interpretar_mensagem(&buffer(b"ana;+")), Mensagem::ValorInvalido));
    assert!(matches!(interpretar_mensagem(&buffer(b"ana;-1")), Mensagem::ValorInvalido));
    assert!(matches!(interpretar_mensagem(&buffer(b"ana; 1")), Mensagem::ValorInvalido));
}

#[test]
fn valores_como_from_str() {
    assert_eq!(entrada(interpretar_mensagem(&buffer(b"a;+7"))).1, 7);
    assert_eq!(entrada(interpretar_mensagem(&buffer(b"a;007"))).1, 7);
    assert_eq!(entrada(interpretar_mensagem(&buffer(b"a;255"))).1, 255);
    assert_eq!(entrada(interpretar_mensagem(&buffer(b"a;0000000000255"))).1, 255);
    assert_eq!(entrada(interpretar_mensagem(&buffer(b"a;5;9"))).1, 5);
    assert_eq!(entrada(interpretar_mensagem(&buffer(b";3"))).0, "");
}

#[test]
fn nulos_no_meio_ficam() {
    let (nome, v) = entrada(interpretar_mensagem(&buffer(b"a\0b;4")));
    assert_eq!(nome, "a\0b");
    assert_eq!(v, 4);
    assert!(matches!(interpretar_mensagem(&buffer(b"a;4\0x")), Mensagem::ValorInvalido));
}

#[test]
fn sem_nulos_no_fim_tambem_le() {
    let (nome, v) = entrada(interpretar_mensagem(b"z;12"));
    assert_eq!(nome, "z");
    assert_eq!(v, 12);
}

#[test]
fn texto_decimal_como_to_string() {
    for v in 0u8..=255 {
        assert_eq!(texto_decimal(v), v.to_string());
    }
    assert_eq!(texto_decimal(7), "7");
    assert_eq!(texto_decimal(40), "40");
    assert_eq!(texto_decimal(255), "255");
}

#[test]
fn cliente_para_servidor() {
    let msg = formatar_mensagem("tanque", &texto_decimal(31));
    let (nome, v) = entrada(interpretar_mensagem(&buffer(&msg)));
    assert_eq!(nome, "tanque");
    assert_eq!(v, 31);
}
