//! # ErrorMapa
//!
//! `error_mapa` representa los errores que pueden ocurrir al reconocer y
//! resolver el tablero del buscaminas.
use vstd::prelude::*;

verus! {

/// Posibles errores a la hora de reconocer el tablero del buscaminas.
#[derive(Debug, PartialEq, Eq)]
pub enum ErrorMapa {
    /// El tablero contiene un caracter que el juego no reconoce.
    CaracterDesconocido(char),
    /// El tablero se encuentra malformado en sus dimensiones.
    MapaMalformado,
    /// El tablero es vacío: no existe el problema a resolver.
    MapaVacio,
    /// Se intentó acceder a una celda del tablero que no existe.
    CeldaInexistente,
}

} // verus!
