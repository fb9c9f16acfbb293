//! # Casillero
//!
//! `casillero` es el submódulo que contiene los posibles tipos de celdas en
//! un [`Tablero`](super::Tablero), y el texto con el que se muestra cada una.
use vstd::prelude::*;

use crate::error::error_mapa::ErrorMapa;
use crate::tablero::builder::identificar_espec;

verus! {

/// Tipos de celdas presentes en el tablero del buscaminas.
#[derive(Debug, PartialEq, Eq, Clone, Copy)]
pub enum Casillero {
    /// Variante que representa a las minas.
    Mina,
    /// Variante que representa a los espacios vacíos, con la cantidad de
    /// minas adyacentes: cero antes de resolver, de cero a ocho después.
    Espacio(u8),
    /// Variante que indica el final de una de las filas. Es un artefacto de
    /// la construcción del tablero y nunca queda entre las celdas de un
    /// tablero ya construido.
    NuevaLinea,
}

/// Dígito decimal con el que se muestra la cantidad `n` de minas adyacentes;
/// el cero se muestra con el ícono del espacio vacío. Una celda tiene a lo
/// sumo ocho vecinas, así que las cantidades mayores no tienen dígito.
pub open spec fn digito(n: u8) -> char {
    if n == 0 {
        '.'
    } else if n == 1 {
        '1'
    } else if n == 2 {
        '2'
    } else if n == 3 {
        '3'
    } else if n == 4 {
        '4'
    } else if n == 5 {
        '5'
    } else if n == 6 {
        '6'
    } else if n == 7 {
        '7'
    } else if n == 8 {
        '8'
    } else {
        '?'
    }
}

/// Texto con el que se muestra un casillero: el ícono de la mina, el dígito
/// de un espacio según sus minas adyacentes, o el salto de línea del final
/// de una fila.
pub open spec fn texto_casillero(c: Casillero) -> Seq<char> {
    match c {
        Casillero::Mina => seq!['*'],
        Casillero::Espacio(n) => seq![digito(n)],
        Casillero::NuevaLinea => seq!['\n'],
    }
}

/// Un espacio vacío lleva una cantidad de minas adyacentes entre cero y ocho;
/// las demás celdas no llevan cantidad.
pub open spec fn contador_valido(c: Casillero) -> bool {
    match c {
        Casillero::Espacio(n) => n <= 8,
        _ => true,
    }
}

/// Ida y vuelta de los símbolos: el texto de una mina o de un espacio sin
/// minas adyacentes ocupa un caracter, y ese caracter vuelve a identificarse
/// como la misma celda. La vuelta no vale para los espacios con minas
/// adyacentes, cuyo dígito no es un ícono de entrada (ver
/// [`lemma_digito_no_es_icono`]), ni para la marca de fin de fila, que se
/// muestra como salto de línea y no como el separador de entrada.
pub proof fn lemma_ida_y_vuelta_simbolo(c: Casillero)
    requires
        c is Mina || c == Casillero::Espacio(0),
    ensures
        texto_casillero(c).len() == 1,
        identificar_espec(texto_casillero(c)[0] as u8) == Ok::<Casillero, ErrorMapa>(c),
{
}

/// El dígito de un espacio con minas adyacentes no es un ícono de entrada:
/// el texto de un tablero resuelto no vuelve a identificarse celda a celda.
pub proof fn lemma_digito_no_es_icono(n: u8)
    requires
        1 <= n <= 8,
    ensures
        identificar_espec(digito(n) as u8) is Err,
{
}

impl Casillero {
    /// Retorna el texto con el que se muestra el casillero.
    pub fn simbolo(&self) -> (r: &'static str)
        requires
            contador_valido(*self),
        ensures
            r@ == texto_casillero(*self),
    {
        match self {
            Casillero::Mina => {
                let r = "*";
                proof {
                    reveal_strlit("*");
                    assert(r@ =~= texto_casillero(Casillero::Mina));
                }
                r
            },
            Casillero::Espacio(n) => {
                let r = if *n == 0 {
                    "."
                } else if *n == 1 {
                    "1"
                } else if *n == 2 {
                    "2"
                } else if *n == 3 {
                    "3"
                } else if *n == 4 {
                    "4"
                } else if *n == 5 {
                    "5"
                } else if *n == 6 {
                    "6"
                } else if *n == 7 {
                    "7"
                } else {
                    "8"
                };
                proof {
                    reveal_strlit(".");
                    reveal_strlit("1");
                    reveal_strlit("2");
                    reveal_strlit("3");
                    reveal_strlit("4");
                    reveal_strlit("5");
                    reveal_strlit("6");
                    reveal_strlit("7");
                    reveal_strlit("8");
                    assert(r@ =~= texto_casillero(*self));
                }
                r
            },
            Casillero::NuevaLinea => {
                let r = "\n";
                proof {
                    reveal_strlit("\n");
                    assert(r@ =~= texto_casillero(Casillero::NuevaLinea));
                }
                r
            },
        }
    }
}

} // verus!
