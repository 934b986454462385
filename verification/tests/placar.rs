use net_tank::placar::ordenar_placar;

#[test]
fn placar_do_maior_para_o_menor() {
    let mut p = vec![
        ("a".to_string(), 3u32),
        ("b".to_string(), 10),
        ("c".to_string(), 0),
        ("d".to_string(), 7),
    ];
    ordenar_placar(&mut p);
    let pontos: Vec<u32> = p.iter().map(|l| l.1).collect();
    assert_eq!(pontos, vec![10, 7, 3, 0]);
    let nomes: Vec<&str> = p.iter().map(|l| l.0.as_str()).collect();
    assert_eq!(nomes, vec!["b", "d", "a", "c"]);
}

#[test]
fn placar_vazio_e_empates() {
    let mut v: Vec<(String, u32)> = Vec::new();
    ordenar_placar(&mut v);
    assert!(v.is_empty());
    let mut p = vec![("x".to_string(), 2u32), ("y".to_string(), 2), ("z".to_string(), 5)];
    ordenar_placar(&mut p);
    assert_eq!(p[0], ("z".to_string(), 5));
    let mut resto: Vec<String> = p[1..].iter().map(|l| l.0.clone()).collect();
    resto.sort();
    assert_eq!(resto, vec!["x".to_string(), "y".to_string()]);
}
