//! # Error
//!
//! `error` reúne los `enum` que representan las distintas categorías de
//! errores que pueden ocurrir en el programa, y permite un manejo unificado
//! del error en el nivel más alto de la aplicación.
use vstd::prelude::*;

pub mod error_io;
pub mod error_mapa;

use crate::error::error_io::ErrorIO;
use crate::error::error_mapa::ErrorMapa;

verus! {

/// Categorías de errores del programa completo.
#[derive(Debug)]
pub enum Error {
    /// Variante que encapsula los errores provocados por el mapa.
    Emapa(ErrorMapa),
    /// Variante que encapsula los errores de entrada/salida.
    Eio(ErrorIO),
}

impl core::convert::From<ErrorIO> for Error {
    fn from(error: ErrorIO) -> (r: Self)
        ensures
            r == Error::Eio(error),
    {
        Error::Eio(error)
    }
}

impl vstd::std_specs::convert::FromSpecImpl<ErrorIO> for Error {
    open spec fn obeys_from_spec() -> bool {
        true
    }

    open spec fn from_spec(error: ErrorIO) -> Self {
        Error::Eio(error)
    }
}

impl core::convert::From<ErrorMapa> for Error {
    fn from(error: ErrorMapa) -> (r: Self)
        ensures
            r == Error::Emapa(error),
    {
        Error::Emapa(error)
    }
}

impl vstd::std_specs::convert::FromSpecImpl<ErrorMapa> for Error {
    open spec fn obeys_from_spec() -> bool {
        true
    }

    open spec fn from_spec(error: ErrorMapa) -> Self {
        Error::Emapa(error)
    }
}

} // verus!
