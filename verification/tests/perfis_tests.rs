use coordenadas::perfis::{
    adiciona_perfil, cadastra_perfil, popula_perfis, remove_perfil, Expressoes, Perfis,
};

fn chaves(p: &Perfis) -> Vec<String> {
    p.chaves()
}

#[test]
fn popula_perfis_tem_os_quatro_perfis_em_ordem() {
    let p = popula_perfis();
    assert_eq!(p.len(), 4);
    assert_eq!(
        chaves(&p),
        vec!["Decimal", "GMS Completo", "Graus, minutos e segundos", "UTM"]
    );
    let utm = p.busca("UTM").unwrap();
    assert_eq!(utm.latitude, r"\d.\d{3}.\d{3},\d{1,3}");
    assert_eq!(utm.longitude, r" \d{3}.\d{3},\d{1,3}");
    let decimal = p.busca("Decimal").unwrap();
    assert_eq!(decimal.latitude, r"[+-]?[3-4]\d\.\d{6}");
    assert_eq!(decimal.longitude, r"[+-]?[0-2]\d\.\d{6}");
    let gms = p.busca("Graus, minutos e segundos").unwrap();
    assert_eq!(gms.latitude, r"[0-2]\dS\s[0-5]\d'\s[0-5]\d");
    assert_eq!(gms.longitude, r"[3-7]\dW\s[0-5]\d'\s[0-5]\d");
    let completo = p.busca("GMS Completo").unwrap();
    assert_eq!(completo.latitude, r#"[+-]?[0-2]\d°[0-9]\d'[0-9]\d,\d{3}""#);
    assert_eq!(completo.longitude, r#"[+-]?[3-4]\d°[0-9]\d'[0-9]\d[,.]?\d{3}""#);
    assert!(p.busca("utm").is_none());
}

#[test]
fn busca_depois_de_adiciona_devolve_o_que_foi_guardado() {
    let mut p = popula_perfis();
    adiciona_perfil("Meu".to_string(), &"a+".to_string(), &"b+".to_string(), &mut p);
    let e = p.busca("Meu").unwrap();
    assert_eq!(e.latitude, "a+");
    assert_eq!(e.longitude, "b+");
    assert_eq!(p.len(), 5);
    assert_eq!(
        chaves(&p),
        vec!["Decimal", "GMS Completo", "Graus, minutos e segundos", "Meu", "UTM"]
    );
}

#[test]
fn adiciona_com_nome_existente_substitui() {
    let mut p = popula_perfis();
    adiciona_perfil("UTM".to_string(), &"x".to_string(), &"y".to_string(), &mut p);
    assert_eq!(p.len(), 4);
    let e = p.busca("UTM").unwrap();
    assert_eq!((e.latitude.as_str(), e.longitude.as_str()), ("x", "y"));
    let d = p.busca("Decimal").unwrap();
    assert_eq!(d.latitude, r"[+-]?[3-4]\d\.\d{6}");
}

#[test]
fn remove_perfil_tira_so_aquele_nome() {
    let mut p = popula_perfis();
    remove_perfil("Decimal".to_string(), &mut p);
    assert!(p.busca("Decimal").is_none());
    assert_eq!(chaves(&p), vec!["GMS Completo", "Graus, minutos e segundos", "UTM"]);
    remove_perfil("Inexistente".to_string(), &mut p);
    assert_eq!(p.len(), 3);
}

#[test]
fn remove_desfaz_adiciona_de_nome_novo() {
    let mut p = popula_perfis();
    let antes: Vec<(String, String, String)> = p
        .pares()
        .into_iter()
        .map(|(n, e)| (n, e.latitude, e.longitude))
        .collect();
    adiciona_perfil("Novo".to_string(), &"1".to_string(), &"2".to_string(), &mut p);
    remove_perfil("Novo".to_string(), &mut p);
    let depois: Vec<(String, String, String)> = p
        .pares()
        .into_iter()
        .map(|(n, e)| (n, e.latitude, e.longitude))
        .collect();
    assert_eq!(antes, depois);
}

#[test]
fn tabela_vazia() {
    let p = Perfis::new();
    assert_eq!(p.len(), 0);
    assert!(p.chaves().is_empty());
    assert!(p.campos_iniciais().is_none());
    assert!(p.busca("").is_none());
}

#[test]
fn campos_iniciais_sao_os_do_primeiro_nome() {
    let p = popula_perfis();
    let e = p.campos_iniciais().unwrap();
    assert_eq!(e.latitude, r"[+-]?[3-4]\d\.\d{6}");
    let mut q = popula_perfis();
    adiciona_perfil(String::new(), &"a".to_string(), &"b".to_string(), &mut q);
    assert_eq!(q.chaves()[0], "");
    assert!(q.campos_iniciais().is_none());
}

#[test]
fn cadastra_perfil_exige_os_tres_campos() {
    let mut p = Perfis::new();
    assert!(!cadastra_perfil(&mut p, "", "a", "b"));
    assert!(!cadastra_perfil(&mut p, "n", "", "b"));
    assert!(!cadastra_perfil(&mut p, "n", "a", ""));
    assert_eq!(p.len(), 0);
    assert!(cadastra_perfil(&mut p, "n", "a", "b"));
    let e = p.busca("n").unwrap();
    assert_eq!((e.latitude.as_str(), e.longitude.as_str()), ("a", "b"));
}

#[test]
fn pares_seguem_a_ordem_dos_nomes() {
    let mut p = Perfis::new();
    p.adiciona("b".to_string(), Expressoes::new("1", "2"));
    p.adiciona("a".to_string(), Expressoes::new("3", "4"));
    p.adiciona("ç".to_string(), Expressoes::new("5", "6"));
    let pares = p.pares();
    let nomes: Vec<&str> = pares.iter().map(|(n, _)| n.as_str()).collect();
    assert_eq!(nomes, vec!["a", "b", "ç"]);
    assert_eq!(pares[0].1.latitude, "3");
    assert_eq!(pares[2].1.longitude, "6");
}

#[test]
fn copia_de_expressoes() {
    let e = Expressoes::new("x", "y");
    let c = e.copia();
    assert_eq!(c.latitude, "x");
    assert_eq!(c.longitude, "y");
}
