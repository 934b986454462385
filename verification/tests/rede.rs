use net_tank::rede::{proxima_porta, PRIMEIRA_PORTA};

#[test]
fn portas_de_1025_a_65534() {
    assert_eq!(PRIMEIRA_PORTA, 1025);
    assert_eq!(proxima_porta(1025), Some(1026));
    assert_eq!(proxima_porta(65533), Some(65534));
    assert_eq!(proxima_porta(65534), None);
    let mut n = 1u32;
    let mut p = PRIMEIRA_PORTA;
    while let Some(q) = proxima_porta(p) {
        p = q;
        n += 1;
    }
    assert_eq!(n, 65534 - 1025 + 1);
}
