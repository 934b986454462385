use net_tank::input_jogador::InputJogador;

#[test]
fn novo_input_sem_teclas() {
    let i = InputJogador::new();
    assert_eq!(i.0, 0);
    assert!(!i.up() && !i.left() && !i.down() && !i.right() && !i.action());
}

#[test]
fn bool_input_le_cada_tecla_de_volta() {
    for codigo in 0u8..32 {
        let w = codigo & 16 != 0;
        let a = codigo & 8 != 0;
        let s = codigo & 4 != 0;
        let d = codigo & 2 != 0;
        let spc = codigo & 1 != 0;
        let mut i = InputJogador(0xFF);
        i.bool_input(w, a, s, d, spc);
        assert_eq!(i.0, codigo);
        assert_eq!(i.up(), w);
        assert_eq!(i.left(), a);
        assert_eq!(i.down(), s);
        assert_eq!(i.right(), d);
        assert_eq!(i.action(), spc);
    }
}

#[test]
fn bool_input_valor_exato() {
    let mut i = InputJogador::new();
    i.bool_input(true, false, true, false, true);
    assert_eq!(i.0, 21);
    i.bool_input(false, true, false, true, false);
    assert_eq!(i.0, 10);
}

#[test]
fn bits_altos_nao_contam() {
    let i = InputJogador(0b1110_0000);
    assert!(!i.up() && !i.left() && !i.down() && !i.right() && !i.action());
}
