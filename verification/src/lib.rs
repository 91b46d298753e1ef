//! Extraction of geographic coordinates from plain text by pairs of regular
//! expressions ("perfis"), and the spreadsheet (CSV) those coordinates are
//! exported to.

pub mod analise;
pub mod modelo;
pub mod ordem;
pub mod perfis;
pub mod planilha;
pub mod texto;
pub mod verificacao;
