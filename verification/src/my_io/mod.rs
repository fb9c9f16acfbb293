//! # Entrada y salida
//!
//! `my_io` contiene los ítems que describen la lectura del archivo con el
//! problema y la escritura de la solución. La lectura y la escritura mismas
//! son tareas del programa que usa la biblioteca; aquí viven los tipos que
//! guardan la ruta de cada archivo.
pub mod escritor;
pub mod lector;
