use net_tank::constantes::{
    INTERVALO_PISCADA, INTERVALO_TIROS, TEMPO_INVULNERAVEL, TEMPO_MORTE, TIMEOUT_JOGADOR,
};
use net_tank::endereco::Endereco;
use net_tank::jogador::DadosJogador;
use net_tank::temporizador::NANOS_POR_MILLI;

fn addr() -> Endereco {
    Endereco::V4 { ipv4: 0x7F00_0001, porta: 4000 }
}

fn ms(x: u64) -> u64 {
    x * NANOS_POR_MILLI
}

#[test]
fn jogador_novo() {
    let j = DadosJogador::new("ana".to_string(), addr(), true);
    assert_eq!(j.nome, "ana");
    assert_eq!(j.addr, addr());
    assert_eq!(j.input.0, 0);
    assert_eq!(f32::from_bits(j.x_bits), 0.5);
    assert_eq!(f32::from_bits(j.y_bits), 0.5);
    assert_eq!(f32::from_bits(j.dir_bits), 0.0);
    assert_eq!(f32::from_bits(j.impulso_bits), 0.0);
    assert_eq!(j.pontos, 0);
    assert!(j.vivo() && j.alvejavel() && j.visivel());
    assert_eq!(j.timer_tiro.restante, ms(INTERVALO_TIROS));
    assert!(!j.timer_tiro.pronto);
    let t = j.timeout.unwrap();
    assert_eq!(t.duracao, ms(TIMEOUT_JOGADOR));
    assert!(!t.pronto);
}

#[test]
fn jogador_sem_timeout() {
    let j = DadosJogador::new("admin".to_string(), addr(), false);
    assert!(j.timeout.is_none());
}

#[test]
fn matar_divide_pontos_e_reinicia() {
    let mut j = DadosJogador::new("ana".to_string(), addr(), true);
    j.pontos = 7;
    j.x_bits = 0.9f32.to_bits();
    j.dir_bits = 1.5f32.to_bits();
    j.impulso_bits = 0.2f32.to_bits();
    j.matar();
    assert_eq!(j.pontos, 3);
    assert!(!j.vivo());
    assert!(!j.alvejavel());
    assert_eq!(f32::from_bits(j.x_bits), 0.5);
    assert_eq!(f32::from_bits(j.y_bits), 0.5);
    assert_eq!(f32::from_bits(j.dir_bits), 0.0);
    assert_eq!(f32::from_bits(j.impulso_bits), 0.0);
}

#[test]
fn morto_nao_se_move_nem_atira_e_revive() {
    let mut j = DadosJogador::new("ana".to_string(), addr(), true);
    j.input.bool_input(false, false, false, false, true);
    j.matar();
    let p = j.update(ms(TEMPO_MORTE));
    assert!(!p.movimenta && !p.atira);
    assert!(!j.vivo());
    let p = j.update(1);
    assert!(!p.movimenta && !p.atira);
    assert!(j.vivo());
    let p = j.update(0);
    assert!(p.movimenta);
}

#[test]
fn tiro_respeita_intervalo() {
    let mut j = DadosJogador::new("ana".to_string(), addr(), true);
    j.input.bool_input(false, false, false, false, true);
    let p = j.update(ms(100));
    assert!(p.movimenta && !p.atira);
    let p = j.update(ms(INTERVALO_TIROS));
    assert!(p.atira);
    assert!(!j.timer_tiro.pronto);
    assert_eq!(j.timer_tiro.restante, ms(INTERVALO_TIROS));
    let p = j.update(0);
    assert!(!p.atira);
}

#[test]
fn sem_acao_nao_atira() {
    let mut j = DadosJogador::new("ana".to_string(), addr(), true);
    j.input.bool_input(true, true, false, false, false);
    let p = j.update(ms(INTERVALO_TIROS + 1));
    assert!(p.movimenta && !p.atira);
    assert!(j.timer_tiro.pronto);
}

#[test]
fn pisca_enquanto_invulneravel() {
    let mut j = DadosJogador::new("ana".to_string(), addr(), true);
    j.matar();
    j.update(ms(TEMPO_MORTE) + 1);
    assert!(j.vivo());
    assert!(!j.alvejavel());
    let antes = j.visivel();
    j.update(ms(INTERVALO_PISCADA) + 1);
    assert_eq!(j.visivel(), !antes);
    j.update(ms(TEMPO_INVULNERAVEL));
    assert!(j.alvejavel());
    assert!(j.visivel());
}

#[test]
fn timeout_corre_sempre() {
    let mut j = DadosJogador::new("ana".to_string(), addr(), true);
    j.matar();
    j.update(ms(TIMEOUT_JOGADOR) + 1);
    assert!(j.timeout.unwrap().pronto);
}

#[test]
fn renasce_depois_do_tempo_de_morte_em_varios_passos() {
    let mut j = DadosJogador::new("ana".to_string(), addr(), true);
    j.matar();
    let passo = ms(TEMPO_MORTE) / 10;
    for _ in 0..10 {
        j.update(passo);
        assert!(!j.vivo());
        assert!(!j.alvejavel());
        assert_eq!(f32::from_bits(j.x_bits), 0.5);
    }
    j.update(1);
    assert!(j.vivo());
    assert!(!j.alvejavel());
}

#[test]
fn invulneravel_por_tempo_invulneravel() {
    let mut j = DadosJogador::new("ana".to_string(), addr(), true);
    j.matar();
    j.update(ms(TEMPO_MORTE) + 1);
    j.update(ms(TEMPO_INVULNERAVEL));
    assert!(!j.alvejavel());
    j.update(1);
    assert!(j.alvejavel());
    assert!(j.visivel());
}

#[test]
fn vivo_e_alvejavel_sempre_visivel() {
    let mut j = DadosJogador::new("ana".to_string(), addr(), true);
    for k in 0..200u64 {
        if k % 37 == 0 {
            j.matar();
        }
        j.update(ms(INTERVALO_PISCADA) / 3 + k * 1000);
        if j.vivo() && j.alvejavel() {
            assert!(j.visivel());
        }
        if !j.vivo() {
            assert!(!j.alvejavel());
        }
    }
}
