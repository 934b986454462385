use net_tank::temporizador::{Temporizador, NANOS_POR_MILLI};

#[test]
fn timer_conta_e_fica_pronto() {
    let mut t = Temporizador::from_millis(500);
    assert_eq!(t.duracao, 500 * NANOS_POR_MILLI);
    assert_eq!(t.restante, 500 * NANOS_POR_MILLI);
    assert!(!t.pronto);
    t.update(300 * NANOS_POR_MILLI);
    assert!(!t.pronto);
    assert_eq!(t.restante, 200 * NANOS_POR_MILLI);
    t.update(300 * NANOS_POR_MILLI);
    assert!(t.pronto);
    assert_eq!(t.restante, 0);
    t.reset();
    assert!(!t.pronto);
    assert_eq!(t.restante, 500 * NANOS_POR_MILLI);
}

#[test]
fn timer_exato_nao_fica_pronto() {
    let mut t = Temporizador::from_millis(10);
    t.update(10 * NANOS_POR_MILLI);
    assert_eq!(t.restante, 0);
    assert!(!t.pronto);
    t.update(1);
    assert!(t.pronto);
}

#[test]
fn timer_pronto_nao_muda() {
    let mut t = Temporizador { duracao: 7, restante: 3, pronto: true };
    t.update(100);
    assert_eq!(t.restante, 3);
    assert!(t.pronto);
}

#[test]
fn timer_de_zero_millis() {
    let mut t = Temporizador::from_millis(0);
    assert_eq!(t.duracao, 0);
    t.update(0);
    assert!(!t.pronto);
    t.update(1);
    assert!(t.pronto);
}
