//! Finding the coordinates in a text: each of a profile's two regular
//! expressions is searched in the text, the dots are taken out of every piece
//! found, and the latitudes and longitudes so obtained are paired line by line
//! in the spreadsheet.

use vstd::prelude::*;

use crate::planilha::{gera_csv, planilha_csv};
use crate::texto::{lei_sem_pontos_filtra, lemma_sem_pontos_sem_ponto, remove_pontos, sem_ponto_algum, sem_pontos};

verus! {

#[verifier::external_type_specification]
#[verifier::external_body]
pub struct ExRegexError(regex::Error);

/// Whether `regex::Regex::new` accepts `padrao` (it refuses invalid patterns
/// and patterns whose compiled form exceeds the default size limit).
pub uninterp spec fn padrao_aceito(padrao: Seq<char>) -> bool;

/// The pieces of `texto` that `find_iter` yields, in order, for the regular
/// expression compiled from `padrao`.
pub uninterp spec fn trechos_encontrados(padrao: Seq<char>, texto: Seq<char>) -> Seq<Seq<char>>;

/// `trecho` occurs in `texto` as a run of consecutive characters.
pub open spec fn trecho_de(trecho: Seq<char>, texto: Seq<char>) -> bool {
    exists|i: int| 0 <= i <= texto.len() && trecho.is_prefix_of(#[trigger] texto.skip(i))
}

/// `coordenada` is some piece of `texto` with its dots taken out.
pub open spec fn vem_do_texto(coordenada: Seq<char>, texto: Seq<char>) -> bool {
    exists|trecho: Seq<char>| #[trigger] trecho_de(trecho, texto) && coordenada == sem_pontos(trecho)
}

/// Compiles `padrao` with `regex::Regex::new` and collects, with `find_iter`
/// and `Match::as_str`, the successive non-overlapping matches in `texto`.
///
/// The contract claims that the call fails exactly when `Regex::new` refuses
/// the pattern, that the matches are those of `find_iter` (named, not
/// described), and that each match is a substring of `texto`, as the `regex`
/// documentation states. It says nothing of which matches are found.
#[verifier::external_body]
fn busca_regex(padrao: &str, texto: &str) -> (r: Result<Vec<String>, regex::Error>)
    ensures
        r is Ok <==> padrao_aceito(padrao@),
        r matches Ok(v) ==> v@.map_values(|s: String| s@) == trechos_encontrados(padrao@, texto@),
        r matches Ok(v) ==> forall|k: int| 0 <= k < v@.len() ==> trecho_de(#[trigger] v@[k]@, texto@),
{
    let re = regex::Regex::new(padrao)?;
    Ok(re.find_iter(texto).map(|m| m.as_str().to_string()).collect())
}

/// The coordinates that `padrao` finds in `texto`: its matches without dots.
pub open spec fn coordenadas(padrao: Seq<char>, texto: Seq<char>) -> Seq<Seq<char>> {
    trechos_encontrados(padrao, texto).map_values(|t: Seq<char>| sem_pontos(t))
}

/// No coordinate found in a text holds a dot: the dots of every match are
/// taken out.
pub proof fn lei_coordenadas_sem_ponto(padrao: Seq<char>, texto: Seq<char>)
    ensures
        forall|k: int|
            0 <= k < coordenadas(padrao, texto).len() ==> sem_ponto_algum(
                #[trigger] coordenadas(padrao, texto)[k],
            ),
{
    assert forall|k: int| 0 <= k < coordenadas(padrao, texto).len() implies sem_ponto_algum(
        #[trigger] coordenadas(padrao, texto)[k],
    ) by {
        lemma_sem_pontos_sem_ponto(trechos_encontrados(padrao, texto)[k]);
    }
}

/// The coordinates of a text are one per match of the expression, in the
/// order of the matches: as many as there are matches, the `k`-th being the
/// `k`-th match with its dots filtered out.
pub proof fn lei_uma_coordenada_por_trecho(padrao: Seq<char>, texto: Seq<char>)
    ensures
        coordenadas(padrao, texto).len() == trechos_encontrados(padrao, texto).len(),
        forall|k: int|
            0 <= k < trechos_encontrados(padrao, texto).len() ==> #[trigger] coordenadas(padrao, texto)[k]
                == trechos_encontrados(padrao, texto)[k].filter(|c: char| c != '.'),
{
    assert forall|k: int| 0 <= k < trechos_encontrados(padrao, texto).len() implies #[trigger] coordenadas(
        padrao,
        texto,
    )[k] == trechos_encontrados(padrao, texto)[k].filter(|c: char| c != '.') by {
        lei_sem_pontos_filtra(trechos_encontrados(padrao, texto)[k]);
    }
}

/// Why the analysis of a text produced no spreadsheet.
#[derive(Clone, Copy, Debug, PartialEq, Eq, Structural)]
pub enum ErroAnalise {
    /// The latitude expression is not a valid regular expression.
    ExpressaoLatitudeInvalida,
    /// The longitude expression is not a valid regular expression.
    ExpressaoLongitudeInvalida,
    /// The two expressions found different numbers of coordinates.
    QuantidadesDiferentes,
}

impl ErroAnalise {
    /// The message shown to the user for this error.
    pub fn mensagem(&self) -> (r: String)
        ensures
            *self == ErroAnalise::QuantidadesDiferentes ==> r@ == "Números direfentes de longitudes e latitudes."@,
            *self == ErroAnalise::ExpressaoLatitudeInvalida ==> r@ == "Expressão regular da latitude inválida."@,
            *self == ErroAnalise::ExpressaoLongitudeInvalida ==> r@ == "Expressão regular da longitude inválida."@,
    {
        match self {
            ErroAnalise::ExpressaoLatitudeInvalida => String::from_str("Expressão regular da latitude inválida."),
            ErroAnalise::ExpressaoLongitudeInvalida => String::from_str("Expressão regular da longitude inválida."),
            ErroAnalise::QuantidadesDiferentes => String::from_str("Números direfentes de longitudes e latitudes."),
        }
    }
}

/// The coordinates that `padrao` finds in `texto`, each with its dots taken
/// out; `None` when `padrao` is not a valid regular expression.
pub fn extrai_coordenadas(texto: &str, padrao: &str) -> (r: Option<Vec<String>>)
    ensures
        r is Some <==> padrao_aceito(padrao@),
        r matches Some(v) ==> v@.map_values(|s: String| s@) == coordenadas(padrao@, texto@),
        r matches Some(v) ==> v@.len() == trechos_encontrados(padrao@, texto@).len(),
        r matches Some(v) ==> forall|k: int|
            0 <= k < v@.len() ==> #[trigger] v@[k]@ == trechos_encontrados(padrao@, texto@)[k].filter(
                |c: char| c != '.',
            ),
        r matches Some(v) ==> forall|k: int| 0 <= k < v@.len() ==> vem_do_texto(#[trigger] v@[k]@, texto@),
{
    let trechos = match busca_regex(padrao, texto) {
        Ok(v) => v,
        Err(_) => {
            return None;
        },
    };
    let ghost t = trechos@.map_values(|s: String| s@);
    assert forall|j: int| 0 <= j < trechos@.len() implies trecho_de(#[trigger] t[j], texto@) by {
        assert(t[j] == trechos@[j]@);
    }
    let n = trechos.len();
    let mut r: Vec<String> = Vec::new();
    let mut i: usize = 0;
    while i < n
        invariant
            n == trechos@.len(),
            t == trechos@.map_values(|s: String| s@),
            t == trechos_encontrados(padrao@, texto@),
            i <= n,
            r@.len() == i,
            forall|j: int| 0 <= j < n ==> trecho_de(#[trigger] t[j], texto@),
            forall|j: int| 0 <= j < i ==> #[trigger] r@[j]@ == sem_pontos(t[j]),
        decreases n - i,
    {
        assert(t[i as int] == trechos@[i as int]@);
        r.push(remove_pontos(trechos[i].as_str()));
        i = i + 1;
    }
    assert(r@.map_values(|s: String| s@) =~= coordenadas(padrao@, texto@));
    assert forall|k: int| 0 <= k < r@.len() implies #[trigger] r@[k]@ == trechos_encontrados(
        padrao@,
        texto@,
    )[k].filter(|c: char| c != '.') by {
        lei_sem_pontos_filtra(t[k]);
    }
    assert forall|k: int| 0 <= k < r@.len() implies vem_do_texto(#[trigger] r@[k]@, texto@) by {
        assert(trecho_de(t[k], texto@));
    }
    Some(r)
}

/// Analyses a text with a latitude and a longitude expression: when both are
/// valid and find as many coordinates, returns the spreadsheet that pairs
/// them line by line; otherwise says what went wrong, the latitude
/// expression checked first.
pub fn analisa_texto(texto: &str, expressao_n: &str, expressao_e: &str) -> (r: Result<Vec<u8>, ErroAnalise>)
    ensures
        !padrao_aceito(expressao_n@) <==> r == Err::<Vec<u8>, ErroAnalise>(ErroAnalise::ExpressaoLatitudeInvalida),
        padrao_aceito(expressao_n@) && !padrao_aceito(expressao_e@) <==> r == Err::<Vec<u8>, ErroAnalise>(
            ErroAnalise::ExpressaoLongitudeInvalida,
        ),
        padrao_aceito(expressao_n@) && padrao_aceito(expressao_e@) ==> {
            let latitudes = coordenadas(expressao_n@, texto@);
            let longitudes = coordenadas(expressao_e@, texto@);
            &&& (r == Err::<Vec<u8>, ErroAnalise>(ErroAnalise::QuantidadesDiferentes) <==> latitudes.len() != longitudes.len())
            &&& (latitudes.len() == longitudes.len() ==> (r matches Ok(b) && b@ == planilha_csv(latitudes, longitudes)))
        },
{
    let latitudes = match extrai_coordenadas(texto, expressao_n) {
        Some(v) => v,
        None => {
            return Err(ErroAnalise::ExpressaoLatitudeInvalida);
        },
    };
    let longitudes = match extrai_coordenadas(texto, expressao_e) {
        Some(v) => v,
        None => {
            return Err(ErroAnalise::ExpressaoLongitudeInvalida);
        },
    };
    if latitudes.len() == longitudes.len() {
        Ok(gera_csv(&latitudes, &longitudes))
    } else {
        Err(ErroAnalise::QuantidadesDiferentes)
    }
}

} // verus!
