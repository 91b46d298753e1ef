use coordenadas::analise::{analisa_texto, extrai_coordenadas, ErroAnalise};
use coordenadas::planilha::gera_csv;
use coordenadas::verificacao::{check, AvisoDados};

const UTM_LAT: &str = r"\d.\d{3}.\d{3},\d{1,3}";
const UTM_LON: &str = r" \d{3}.\d{3},\d{1,3}";

fn s(v: &[&str]) -> Vec<String> {
    v.iter().map(|x| x.to_string()).collect()
}

#[test]
fn gera_csv_cabecalho_e_linhas() {
    let b = gera_csv(&s(&["1", "2"]), &s(&["3", "4"]));
    assert_eq!(String::from_utf8(b).unwrap(), "Latitude,Longitude\n1,3\n2,4\n");
}

#[test]
fn gera_csv_sem_coordenadas_so_cabecalho() {
    let b = gera_csv(&Vec::new(), &Vec::new());
    assert_eq!(String::from_utf8(b).unwrap(), "Latitude,Longitude\n");
}

#[test]
fn gera_csv_poe_aspas_quando_precisa() {
    let b = gera_csv(&s(&["7456789,123", "a\"b"]), &s(&[" 654321,987", ""]));
    assert_eq!(
        String::from_utf8(b).unwrap(),
        "Latitude,Longitude\n\"7456789,123\",\" 654321,987\"\n\"a\"\"b\",\n"
    );
}

#[test]
fn gera_csv_ignora_longitudes_a_mais() {
    let b = gera_csv(&s(&["1"]), &s(&["3", "4"]));
    assert_eq!(String::from_utf8(b).unwrap(), "Latitude,Longitude\n1,3\n");
}

#[test]
fn gera_csv_igual_a_um_unico_escritor() {
    let lat = s(&["1,2", "°é", "x\ny", "\r", "\"", "", "plain"]);
    let lon = s(&["a", "", "q\"q", "z", ",", "", "t"]);
    let mut w = csv::Writer::from_writer(Vec::new());
    w.write_record(["Latitude", "Longitude"]).unwrap();
    for i in 0..lat.len() {
        w.write_record([lat[i].as_str(), lon[i].as_str()]).unwrap();
    }
    let esperado = w.into_inner().unwrap();
    assert_eq!(gera_csv(&lat, &lon), esperado);
}

#[test]
fn extrai_coordenadas_tira_os_pontos_dos_trechos() {
    let texto = "Ponto 1: 7.456.789,123 e 654.321,987; Ponto 2: 7.456.790,5 e 654.322,1.";
    let v = extrai_coordenadas(texto, UTM_LAT).unwrap();
    assert_eq!(v, vec!["7456789,123", "7456790,5"]);
    let w = extrai_coordenadas(texto, UTM_LON).unwrap();
    assert_eq!(w, vec![" 654321,987", " 654322,1"]);
    assert!(extrai_coordenadas(texto, "(").is_none());
    assert!(extrai_coordenadas("", UTM_LAT).unwrap().is_empty());
}

#[test]
fn analisa_texto_gera_a_planilha() {
    let texto = "Ponto 1: 7.456.789,123 e 654.321,987; Ponto 2: 7.456.790,5 e 654.322,1.";
    let b = analisa_texto(texto, UTM_LAT, UTM_LON).unwrap();
    assert_eq!(
        String::from_utf8(b).unwrap(),
        "Latitude,Longitude\n\"7456789,123\",\" 654321,987\"\n\"7456790,5\",\" 654322,1\"\n"
    );
}

#[test]
fn analisa_texto_decimal() {
    let texto = "Vertice A -23.550520 -46.633308 vertice B -22.906847 -43.172897";
    let b = analisa_texto(texto, r"[+-]?[0-2]\d\.\d{6}", r"[+-]?[3-4]\d\.\d{6}").unwrap();
    assert_eq!(
        String::from_utf8(b).unwrap(),
        "Latitude,Longitude\n-23550520,-46633308\n-22906847,-43172897\n"
    );
}

#[test]
fn analisa_texto_quantidades_diferentes() {
    let texto = "7.456.789,123 e 654.321,987; 7.456.790,5";
    assert_eq!(
        analisa_texto(texto, UTM_LAT, UTM_LON),
        Err(ErroAnalise::QuantidadesDiferentes)
    );
    assert_eq!(
        ErroAnalise::QuantidadesDiferentes.mensagem(),
        "Números direfentes de longitudes e latitudes."
    );
}

#[test]
fn analisa_texto_expressoes_invalidas() {
    assert_eq!(
        analisa_texto("abc", "(", ")"),
        Err(ErroAnalise::ExpressaoLatitudeInvalida)
    );
    assert_eq!(
        analisa_texto("abc", "a", "[b"),
        Err(ErroAnalise::ExpressaoLongitudeInvalida)
    );
}

#[test]
fn analisa_texto_sem_coordenadas() {
    let b = analisa_texto("nada aqui", UTM_LAT, UTM_LON).unwrap();
    assert_eq!(String::from_utf8(b).unwrap(), "Latitude,Longitude\n");
}

#[test]
fn check_exige_as_duas_expressoes() {
    assert_eq!(check("", ""), Err(AvisoDados::PrimeiraExpressaoVazia));
    assert_eq!(check("", "b"), Err(AvisoDados::PrimeiraExpressaoVazia));
    assert_eq!(check("a", ""), Err(AvisoDados::SegundaExpressaoVazia));
    assert_eq!(check("a", "b"), Ok(()));
    assert_eq!(
        AvisoDados::PrimeiraExpressaoVazia.mensagem(),
        "Informe a primeira expressão regular!"
    );
    assert_eq!(
        AvisoDados::SegundaExpressaoVazia.mensagem(),
        "Informe a segunda expressão regular!"
    );
}
