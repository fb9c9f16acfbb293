//! # ErrorIO
//!
//! `error_io` representa los errores que pueden presentarse a la hora de la
//! lectura o escritura de los archivos, y en el uso de la línea de comandos.
use vstd::prelude::*;

verus! {

/// Declaración del tipo `std::io::Error` de la biblioteca estándar, para que
/// los errores de entrada/salida puedan transportarse dentro de [`ErrorIO`].
/// No se afirma nada sobre sus valores: el tipo es opaco.
#[verifier::external_type_specification]
#[verifier::external_body]
pub struct ExIoError(std::io::Error);

/// Posibles errores a la hora de la escritura y lectura de archivos.
#[derive(Debug)]
pub enum ErrorIO {
    /// El error fue lanzado al leer líneas del archivo de entrada.
    ErrorBufReader(std::io::Error),
    /// El error fue lanzado al escribir en el archivo de salida.
    ErrorWrite(std::io::Error),
    /// El error fue lanzado al abrir o crear un archivo.
    ErrorFile(std::io::Error),
    /// No se cumplió con los parámetros necesarios de la línea de comandos.
    ErrorCLI,
}

} // verus!
