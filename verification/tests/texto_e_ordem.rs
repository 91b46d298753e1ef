use coordenadas::ordem::{compara, Ordem};
use coordenadas::texto::remove_pontos;

#[test]
fn remove_pontos_tira_todos_os_pontos() {
    assert_eq!(remove_pontos("7.456.789,123"), "7456789,123");
    assert_eq!(remove_pontos("...a.b.."), "ab");
    assert_eq!(remove_pontos("."), "");
}

#[test]
fn remove_pontos_sem_ponto_devolve_o_mesmo() {
    assert_eq!(remove_pontos(""), "");
    assert_eq!(remove_pontos("23°32'10,123\""), "23°32'10,123\"");
}

#[test]
fn remove_pontos_e_idempotente() {
    let uma = remove_pontos("1.2.3.4°5.6");
    let duas = remove_pontos(&uma);
    assert_eq!(uma, "1234°56");
    assert_eq!(uma, duas);
}

#[test]
fn remove_pontos_como_replace() {
    for s in ["", "abc", "a.b", "..", "°.é.ç", " 123.456,7"] {
        assert_eq!(remove_pontos(s), s.replace(".", ""));
    }
}

#[test]
fn compara_ordena_como_string() {
    assert_eq!(compara("Decimal", "UTM"), Ordem::Menor);
    assert_eq!(compara("UTM", "Decimal"), Ordem::Maior);
    assert_eq!(compara("GMS Completo", "Graus, minutos e segundos"), Ordem::Menor);
    assert_eq!(compara("a", "ab"), Ordem::Menor);
    assert_eq!(compara("ab", "a"), Ordem::Maior);
    assert_eq!(compara("", ""), Ordem::Igual);
    assert_eq!(compara("", "a"), Ordem::Menor);
    assert_eq!(compara("é", "z"), Ordem::Maior);
    assert_eq!(compara("perfil", "perfil"), Ordem::Igual);
    for (a, b) in [("Zeta", "alfa"), ("ç", "c"), ("a b", "ab"), ("x", "x")] {
        let esperado = match a.cmp(b) {
            std::cmp::Ordering::Less => Ordem::Menor,
            std::cmp::Ordering::Equal => Ordem::Igual,
            std::cmp::Ordering::Greater => Ordem::Maior,
        };
        assert_eq!(compara(a, b), esperado);
    }
}
