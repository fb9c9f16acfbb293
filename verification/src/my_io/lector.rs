//! # Lector
//!
//! `lector` guarda la ruta del archivo de texto del que se leerá el problema.
//! La lectura misma queda a cargo del programa que usa la biblioteca.
use vstd::prelude::*;

verus! {

/// Ruta del archivo del que se lee el problema.
#[derive(Debug, PartialEq, Eq)]
pub struct Lector<'a> {
    /// Ruta al archivo de texto de lectura.
    pub path: &'a str,
}

impl<'a> Lector<'a> {
    /// Construye un [`Lector`] con el campo `path` igual al que se le pasa
    /// por parámetro.
    pub fn new(path: &str) -> (r: Lector)
        ensures
            r.path@ == path@,
    {
        Lector { path }
    }
}

} // verus!
