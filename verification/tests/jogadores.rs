use net_tank::endereco::Endereco;
use net_tank::input_jogador::InputJogador;
use net_tank::jogador::DadosJogador;
use net_tank::jogadores::Jogadores;

fn addr(porta: u16) -> Endereco {
    Endereco::V4 { ipv4: 0x0A00_0002, porta }
}

#[test]
fn add_or_update_acrescenta_e_atualiza() {
    let mut js = Jogadores::with_capacity(4);
    assert_eq!(js.len(), 0);
    js.add_or_update(addr(1), "ana", InputJogador(21));
    assert_eq!(js.len(), 1);
    assert_eq!(js.index(0).nome, "ana");
    // a player that joins starts with no key pressed
    assert_eq!(js.index(0).input.0, 0);
    assert!(js.index(0).timeout.is_some());
    js.add_or_update(addr(2), "bia", InputJogador(3));
    assert_eq!(js.len(), 2);
    js.add_or_update(addr(1), "ana2", InputJogador(5));
    assert_eq!(js.len(), 2);
    assert_eq!(js.index(0).nome, "ana2");
    assert_eq!(js.index(0).input.0, 5);
    assert_eq!(js.index(1).nome, "bia");
}

#[test]
fn add_or_update_reinicia_timeout() {
    let mut js = Jogadores::with_capacity(1);
    js.add_or_update(addr(1), "ana", InputJogador(0));
    js.index_mut(0).update(u64::MAX);
    assert!(js.index(0).timeout.unwrap().pronto);
    js.add_or_update(addr(1), "ana", InputJogador(1));
    let t = js.index(0).timeout.unwrap();
    assert!(!t.pronto);
    assert_eq!(t.restante, t.duracao);
}

#[test]
fn jogador_com_addr_acha_o_primeiro() {
    let mut js = Jogadores::with_capacity(3);
    js.push(DadosJogador::new("a".to_string(), addr(7), false));
    js.push(DadosJogador::new("b".to_string(), addr(8), false));
    js.push(DadosJogador::new("c".to_string(), addr(8), false));
    assert_eq!(js.jogador_com_addr(&addr(8)).unwrap().nome, "b");
    assert!(js.jogador_com_addr(&addr(9)).is_none());
    js.jogador_com_addr(&addr(7)).unwrap().pontos = 4;
    assert_eq!(js.index(0).pontos, 4);
}

#[test]
fn swap_remove_poe_o_ultimo_no_lugar() {
    let mut js = Jogadores::with_capacity(3);
    js.push(DadosJogador::new("a".to_string(), addr(1), false));
    js.push(DadosJogador::new("b".to_string(), addr(2), false));
    js.push(DadosJogador::new("c".to_string(), addr(3), false));
    js.swap_remove(0);
    assert_eq!(js.len(), 2);
    assert_eq!(js.index(0).nome, "c");
    assert_eq!(js.index(1).nome, "b");
    assert!(js.jogador_com_addr(&addr(1)).is_none());
}

#[test]
fn enderecos_v6_diferem_por_scope() {
    let a = Endereco::V6 { ipv6: 1, porta: 9, flowinfo: 0, scope_id: 1 };
    let b = Endereco::V6 { ipv6: 1, porta: 9, flowinfo: 0, scope_id: 2 };
    let mut js = Jogadores::with_capacity(2);
    js.add_or_update(a, "x", InputJogador(0));
    js.add_or_update(b, "y", InputJogador(0));
    assert_eq!(js.len(), 2);
}

#[test]
fn add_or_update_nao_duplica_enderecos() {
    let mut js = Jogadores::with_capacity(8);
    for k in 0..40u16 {
        js.add_or_update(addr(k % 5), "n", InputJogador(k as u8));
    }
    assert_eq!(js.len(), 5);
    for a in 0..js.len() {
        for b in (a + 1)..js.len() {
            assert_ne!(js.index(a).addr, js.index(b).addr);
        }
    }
}

#[test]
fn remover_se_inativo_so_remove_quem_calou() {
    let mut js = Jogadores::with_capacity(3);
    js.push(DadosJogador::new("admin".to_string(), addr(1), false));
    js.add_or_update(addr(2), "b", InputJogador(0));
    js.add_or_update(addr(3), "c", InputJogador(0));
    assert!(!js.remover_se_inativo(0));
    assert!(!js.remover_se_inativo(1));
    js.index_mut(1).update(u64::MAX);
    js.index_mut(0).update(u64::MAX);
    assert!(!js.remover_se_inativo(0));
    assert!(js.remover_se_inativo(1));
    assert_eq!(js.len(), 2);
    assert_eq!(js.index(1).nome, "c");
}

#[test]
fn registrar_acerto_pontua_e_mata() {
    let mut js = Jogadores::with_capacity(3);
    js.push(DadosJogador::new("a".to_string(), addr(1), false));
    js.push(DadosJogador::new("b".to_string(), addr(2), false));
    js.index_mut(1).pontos = 9;
    js.registrar_acerto(&addr(1), 1);
    assert_eq!(js.index(0).pontos, 1);
    assert_eq!(js.index(1).pontos, 4);
    assert!(!js.index(1).vivo());
    assert!(js.index(0).vivo());
    // a shot from a player that left scores for nobody
    js.registrar_acerto(&addr(9), 0);
    assert_eq!(js.index(0).pontos, 0);
    assert!(!js.index(0).vivo());
}

#[test]
fn contagem_de_jogadores() {
    let mut js = Jogadores::with_capacity(0);
    js.push(DadosJogador::new("admin".to_string(), addr(0), false));
    js.add_or_update(addr(1), "a", InputJogador(0));
    js.add_or_update(addr(1), "a", InputJogador(1));
    js.add_or_update(addr(2), "b", InputJogador(0));
    js.swap_remove(0);
    // 1 push + 2 new addresses - 1 removal
    assert_eq!(js.len(), 2);
}
