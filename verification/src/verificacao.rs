//! The check made before a search is run: both regular expressions must be
//! filled in.

use vstd::prelude::*;

verus! {

/// What is missing for a search to run.
#[derive(Clone, Copy, Debug, PartialEq, Eq, Structural)]
pub enum AvisoDados {
    /// The first (latitude) expression is empty.
    PrimeiraExpressaoVazia,
    /// The second (longitude) expression is empty.
    SegundaExpressaoVazia,
}

impl AvisoDados {
    /// The notice shown to the user.
    pub fn mensagem(&self) -> (r: String)
        ensures
            *self == AvisoDados::PrimeiraExpressaoVazia ==> r@ == "Informe a primeira expressão regular!"@,
            *self == AvisoDados::SegundaExpressaoVazia ==> r@ == "Informe a segunda expressão regular!"@,
    {
        match self {
            AvisoDados::PrimeiraExpressaoVazia => String::from_str("Informe a primeira expressão regular!"),
            AvisoDados::SegundaExpressaoVazia => String::from_str("Informe a segunda expressão regular!"),
        }
    }
}

/// Checks the two expressions typed in before a search: the first one is
/// checked first.
pub fn check(ent_exp1: &str, ent_exp2: &str) -> (r: Result<(), AvisoDados>)
    ensures
        ent_exp1@.len() == 0 <==> r == Err::<(), AvisoDados>(AvisoDados::PrimeiraExpressaoVazia),
        ent_exp1@.len() != 0 && ent_exp2@.len() == 0 <==> r == Err::<(), AvisoDados>(
            AvisoDados::SegundaExpressaoVazia,
        ),
        r is Ok <==> ent_exp1@.len() != 0 && ent_exp2@.len() != 0,
{
    if ent_exp1.is_empty() {
        Err(AvisoDados::PrimeiraExpressaoVazia)
    } else if ent_exp2.is_empty() {
        Err(AvisoDados::SegundaExpressaoVazia)
    } else {
        Ok(())
    }
}

} // verus!
