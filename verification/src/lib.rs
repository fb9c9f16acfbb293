//! # Buscaminas
//!
//! Resolución de un tablero de buscaminas: a partir de un texto que describe
//! un mapa rectangular de minas y espacios, se construye el tablero, se cuenta
//! para cada espacio la cantidad de minas adyacentes y se produce el texto con
//! la solución.
//!
//! Contenido:
//!  - [Manejo de errores][error]: las categorías de errores del programa.
//!  - [Entrada y salida][my_io]: los ítems que describen de dónde se lee el
//!    problema y a dónde se escribe la solución.
//!  - [Tablero][tablero]: la construcción del tablero y la resolución del
//!    problema.
use vstd::prelude::*;

pub mod error;
pub mod my_io;
pub mod tablero;

verus! {

/// Nombre del archivo donde se publica la solución.
pub const ARCHIVO_SOLUCION: &'static str = "solucion.txt";

} // verus!
