//! # Escritor
//!
//! `escritor` guarda la ruta del archivo de texto en el que se escribirá la
//! solución. La escritura misma queda a cargo del programa que usa la
//! biblioteca.
use vstd::prelude::*;

verus! {

/// Ruta del archivo en el que se escribe la solución.
#[derive(Debug, PartialEq, Eq)]
pub struct Escritor<'a> {
    /// Ruta del archivo a escribir.
    pub path: &'a str,
}

impl<'a> Escritor<'a> {
    /// Construye un nuevo [`Escritor`] con el `path` que se pase por
    /// parámetro.
    pub fn new(path: &str) -> (r: Escritor)
        ensures
            r.path@ == path@,
    {
        Escritor { path }
    }
}

} // verus!
