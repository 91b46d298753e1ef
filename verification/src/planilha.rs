//! The spreadsheet the coordinates are exported to: a CSV text with a
//! `Latitude,Longitude` header and one line per pair of coordinates.

use vstd::prelude::*;
use vstd::utf8::encode_utf8;

verus! {

#[verifier::external_type_specification]
#[verifier::external_body]
pub struct ExCsvError(csv::Error);

/// A field must be quoted when it holds a comma, a double quote, a line feed
/// or a carriage return.
pub open spec fn precisa_aspas(campo: Seq<char>) -> bool {
    exists|i: int|
        0 <= i < campo.len() && (#[trigger] campo[i] == ',' || campo[i] == '"' || campo[i] == '\n'
            || campo[i] == '\r')
}

/// The field with every double quote doubled.
pub open spec fn dobra_aspas(campo: Seq<char>) -> Seq<char>
    decreases campo.len(),
{
    if campo.len() == 0 {
        Seq::empty()
    } else {
        let resto = dobra_aspas(campo.drop_last());
        if campo.last() == '"' {
            resto + seq!['"', '"']
        } else {
            resto.push(campo.last())
        }
    }
}

/// A field as it is written in a line of the spreadsheet.
pub open spec fn campo_csv(campo: Seq<char>) -> Seq<char> {
    if precisa_aspas(campo) {
        seq!['"'] + dobra_aspas(campo) + seq!['"']
    } else {
        campo
    }
}

/// A line of the spreadsheet with two fields, ended by a line feed.
pub open spec fn linha_csv(primeiro: Seq<char>, segundo: Seq<char>) -> Seq<char> {
    campo_csv(primeiro) + seq![','] + campo_csv(segundo) + seq!['\n']
}

/// The bytes of the first `n` coordinate lines.
pub open spec fn linhas_csv(latitudes: Seq<Seq<char>>, longitudes: Seq<Seq<char>>, n: nat) -> Seq<u8>
    decreases n,
{
    if n == 0 {
        Seq::empty()
    } else {
        linhas_csv(latitudes, longitudes, (n - 1) as nat) + encode_utf8(
            linha_csv(latitudes[n - 1], longitudes[n - 1]),
        )
    }
}

/// The whole spreadsheet: the header line, then one line per latitude, paired
/// with the longitude of the same index.
pub open spec fn planilha_csv(latitudes: Seq<Seq<char>>, longitudes: Seq<Seq<char>>) -> Seq<u8> {
    encode_utf8(linha_csv("Latitude"@, "Longitude"@)) + linhas_csv(
        latitudes,
        longitudes,
        latitudes.len(),
    )
}

/// The coordinate lines are one per index below `n`, in index order: line
/// `i` is the record of `latitudes[i]` and `longitudes[i]`, whatever the values.
pub proof fn lei_linhas_uma_por_par(latitudes: Seq<Seq<char>>, longitudes: Seq<Seq<char>>, n: nat)
    ensures
        linhas_csv(latitudes, longitudes, n) == Seq::new(
            n,
            |i: int| encode_utf8(linha_csv(latitudes[i], longitudes[i])),
        ).flatten(),
    decreases n,
{
    let linhas = Seq::new(n, |i: int| encode_utf8(linha_csv(latitudes[i], longitudes[i])));
    if n == 0 {
        assert(linhas =~= Seq::<Seq<u8>>::empty());
    } else {
        lei_linhas_uma_por_par(latitudes, longitudes, (n - 1) as nat);
        let anteriores = Seq::new(
            (n - 1) as nat,
            |i: int| encode_utf8(linha_csv(latitudes[i], longitudes[i])),
        );
        assert(linhas =~= anteriores.push(encode_utf8(linha_csv(latitudes[n - 1], longitudes[n - 1]))));
        anteriores.lemma_flatten_push(encode_utf8(linha_csv(latitudes[n - 1], longitudes[n - 1])));
    }
}

/// The spreadsheet is the header line followed by exactly one line per
/// latitude, line `i` pairing `latitudes[i]` with `longitudes[i]`.
pub proof fn lei_planilha_uma_linha_por_par(latitudes: Seq<Seq<char>>, longitudes: Seq<Seq<char>>)
    ensures
        planilha_csv(latitudes, longitudes) == encode_utf8(linha_csv("Latitude"@, "Longitude"@))
            + Seq::new(
            latitudes.len(),
            |i: int| encode_utf8(linha_csv(latitudes[i], longitudes[i])),
        ).flatten(),
{
    lei_linhas_uma_por_par(latitudes, longitudes, latitudes.len());
}

/// Writes one record of two fields with `csv::Writer` (default
/// configuration) into memory and returns the bytes written.
///
/// The contract claims what the `csv` source shows for that configuration:
/// a field is quoted when it holds `,`, `"`, `\n` or `\r`, a quote inside a
/// quoted field is doubled, fields are separated by `,` and the record ends
/// with `\n`. It also claims that the call succeeds: a fresh writer accepts
/// its first record whatever its length, and writing to and flushing a
/// `Vec<u8>` never fails.
#[verifier::external_body]
fn registro_csv(primeiro: &str, segundo: &str) -> (r: Result<Vec<u8>, csv::Error>)
    ensures
        r is Ok,
        r matches Ok(b) ==> b@ == encode_utf8(linha_csv(primeiro@, segundo@)),
{
    let mut escritor = csv::Writer::from_writer(Vec::new());
    escritor.write_record([primeiro, segundo])?;
    escritor.into_inner().map_err(|e| csv::Error::from(e.into_error()))
}

/// Builds the spreadsheet of the coordinates: a `Latitude,Longitude` header,
/// then line `i` with `vec[i]` and `vec1[i]`, for every index of `vec`.
pub fn gera_csv(vec: &Vec<String>, vec1: &Vec<String>) -> (r: Vec<u8>)
    requires
        vec.len() <= vec1.len(),
    ensures
        r@ == planilha_csv(vec@.map_values(|s: String| s@), vec1@.map_values(|s: String| s@)),
        r@ == encode_utf8(linha_csv("Latitude"@, "Longitude"@)) + Seq::new(
            vec@.len(),
            |i: int| encode_utf8(linha_csv(vec@[i]@, vec1@[i]@)),
        ).flatten(),
{
    let ghost lat = vec@.map_values(|s: String| s@);
    let ghost lon = vec1@.map_values(|s: String| s@);
    let mut r = registro_csv("Latitude", "Longitude").unwrap();
    let n = vec.len();
    let mut i: usize = 0;
    while i < n
        invariant
            n == vec.len(),
            n <= vec1.len(),
            i <= n,
            lat == vec@.map_values(|s: String| s@),
            lon == vec1@.map_values(|s: String| s@),
            r@ == encode_utf8(linha_csv("Latitude"@, "Longitude"@)) + linhas_csv(lat, lon, i as nat),
        decreases n - i,
    {
        let mut linha = registro_csv(vec[i].as_str(), vec1[i].as_str()).unwrap();
        assert(lat[i as int] == vec@[i as int]@);
        assert(lon[i as int] == vec1@[i as int]@);
        r.append(&mut linha);
        assert(linhas_csv(lat, lon, (i + 1) as nat) == linhas_csv(lat, lon, i as nat) + encode_utf8(
            linha_csv(lat[i as int], lon[i as int]),
        ));
        assert(r@ =~= encode_utf8(linha_csv("Latitude"@, "Longitude"@)) + linhas_csv(lat, lon, (i + 1) as nat));
        i = i + 1;
    }
    proof {
        lei_planilha_uma_linha_por_par(lat, lon);
        assert(Seq::new(vec@.len(), |i: int| encode_utf8(linha_csv(lat[i], lon[i]))) =~= Seq::new(
            vec@.len(),
            |i: int| encode_utf8(linha_csv(vec@[i]@, vec1@[i]@)),
        ));
    }
    r
}

} // verus!
