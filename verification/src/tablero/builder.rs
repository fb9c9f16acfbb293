//! # Builder
//!
//! `builder` es el submódulo que contiene a [`TableroBuilder`], encargado de
//! construir un [`Tablero`](super::Tablero) a partir del texto que describe
//! el problema.
use vstd::prelude::*;
use vstd::string::StrSliceExecFns;
use vstd::string::StringSliceAdditionalSpecFns;

use crate::error::error_mapa::ErrorMapa;
use crate::tablero::casillero::Casillero;
use crate::tablero::Tablero;

verus! {

/// Ícono que separa las filas del tablero dentro del texto: el byte `-`.
pub const NUEVA_LINEA_ICONO: u8 = 45;

/// Ícono que representa a la mina: el byte `*`.
pub const MINA_ICONO: u8 = 42;

/// Ícono que representa a un casillero vacío: el byte `.`.
pub const ESPACIO_ICONO: u8 = 46;

/// Casillero que corresponde a cada ícono: la mina, el espacio vacío y el
/// separador de filas; cualquier otro byte no pertenece al juego.
pub open spec fn identificar_espec(caracter: u8) -> Result<Casillero, ErrorMapa> {
    if caracter == MINA_ICONO {
        Ok(Casillero::Mina)
    } else if caracter == ESPACIO_ICONO {
        Ok(Casillero::Espacio(0))
    } else if caracter == NUEVA_LINEA_ICONO {
        Ok(Casillero::NuevaLinea)
    } else {
        Err(ErrorMapa::CaracterDesconocido(caracter as char))
    }
}

/// Resultado de recorrer los bytes del texto del tablero de izquierda a
/// derecha, partiendo del estado dado: el ancho que la primera fila dejó
/// establecido (si ya terminó), la cantidad de celdas de la fila en curso,
/// la cantidad de filas completas, y las celdas acumuladas.
///
/// El recorrido devuelve el primer error que encuentra: el ícono desconocido
/// en cuanto aparece, o el mapa malformado en el separador que cierra una
/// fila de ancho distinto al establecido. Al agotarse los bytes, el tablero
/// queda malformado si la última fila no terminó con el separador, si no hubo
/// ninguna fila completa, o si las filas no tienen celdas.
pub open spec fn escanear(
    simbolos: Seq<u8>,
    ancho: Option<nat>,
    aux_ancho: nat,
    largo: nat,
    mapa: Seq<Casillero>,
) -> Result<(nat, nat, Seq<Casillero>), ErrorMapa>
    decreases simbolos.len(),
{
    if simbolos.len() == 0 {
        if aux_ancho != 0 {
            Err(ErrorMapa::MapaMalformado)
        } else {
            match ancho {
                Option::None => Err(ErrorMapa::MapaMalformado),
                Option::Some(w) => if w == 0 {
                    Err(ErrorMapa::MapaMalformado)
                } else {
                    Ok((w, largo, mapa))
                },
            }
        }
    } else {
        match identificar_espec(simbolos[0]) {
            Result::Err(e) => Err(e),
            Result::Ok(c) => if c is NuevaLinea {
                match ancho {
                    Option::None => escanear(
                        simbolos.drop_first(),
                        Some(aux_ancho),
                        0,
                        largo + 1,
                        mapa,
                    ),
                    Option::Some(w) => if aux_ancho == w {
                        escanear(simbolos.drop_first(), Some(w), 0, largo + 1, mapa)
                    } else {
                        Err(ErrorMapa::MapaMalformado)
                    },
                }
            } else {
                escanear(simbolos.drop_first(), ancho, aux_ancho + 1, largo, mapa.push(c))
            },
        }
    }
}

/// Resultado de analizar el texto completo de un tablero: el ancho, el largo
/// y las celdas si el texto describe un tablero rectangular con al menos una
/// fila y una columna, cada fila terminada con el separador; si no, el primer
/// error del recorrido.
pub open spec fn analizar(simbolos: Seq<u8>) -> Result<(nat, nat, Seq<Casillero>), ErrorMapa> {
    escanear(simbolos, None, 0, 0, Seq::empty())
}

/// Representación del tablero en su formato inicial: el texto que describe
/// al mapa con los íconos de la mina, del espacio vacío y del separador de
/// filas.
#[derive(Debug, PartialEq, Eq)]
pub struct TableroBuilder<'a> {
    /// Texto que representa al tablero del juego: la base para construir el
    /// [`Tablero`].
    pub casilleros: &'a str,
}

impl<'a> TableroBuilder<'a> {
    /// Construye un nuevo [`TableroBuilder`] con el texto que se pase por
    /// parámetro.
    ///
    /// # Errores
    ///
    /// No tiene sentido resolver un juego cuyo mapa no existe: con un texto
    /// vacío retorna [`ErrorMapa::MapaVacio`], y con cualquier otro texto
    /// retorna el builder.
    pub fn new(casilleros: &str) -> (r: Result<TableroBuilder, ErrorMapa>)
        ensures
            casilleros@.len() == 0 <==> r is Err,
            r is Err ==> r == Err::<TableroBuilder, ErrorMapa>(ErrorMapa::MapaVacio),
            r is Ok ==> r->Ok_0.casilleros@ == casilleros@,
    {
        if casilleros.is_empty() {
            return Err(ErrorMapa::MapaVacio);
        }
        Ok(TableroBuilder { casilleros })
    }

    /// Identifica el tipo de casillero que corresponde al byte `caracter`.
    ///
    /// # Errores
    ///
    /// Retorna [`ErrorMapa::CaracterDesconocido`] cuando el byte no es
    /// ninguno de los íconos aceptados.
    pub fn identificar(caracter: u8) -> (r: Result<Casillero, ErrorMapa>)
        ensures
            r == identificar_espec(caracter),
    {
        if caracter == MINA_ICONO {
            Ok(Casillero::Mina)
        } else if caracter == ESPACIO_ICONO {
            Ok(Casillero::Espacio(0))
        } else if caracter == NUEVA_LINEA_ICONO {
            Ok(Casillero::NuevaLinea)
        } else {
            Err(ErrorMapa::CaracterDesconocido(caracter as char))
        }
    }

    /// Construye el [`Tablero`] **resuelto** según el texto con el que el
    /// builder fue construido: el tablero que describe el texto, con cada
    /// espacio vacío anotado con la cantidad de minas adyacentes.
    ///
    /// # Errores
    ///
    /// Retorna los mismos errores que [`TableroBuilder::cargar_tablero`].
    pub fn crear_tablero(&self) -> (r: Result<Tablero, ErrorMapa>)
        ensures
            match analizar(self.casilleros.spec_bytes()) {
                Result::Ok(dims) => {
                    &&& r is Ok
                    &&& r->Ok_0.ancho == dims.0
                    &&& r->Ok_0.largo == dims.1
                    &&& r->Ok_0.mapa@ == crate::tablero::resolver_espec(
                        dims.2,
                        r->Ok_0.ancho,
                        r->Ok_0.largo,
                    )
                    &&& r->Ok_0.bien_formado()
                    &&& r->Ok_0.contadores_validos()
                },
                Result::Err(e) => r == Err::<Tablero, ErrorMapa>(e),
            },
    {
        let t = match self.cargar_tablero() {
            Result::Ok(t) => t,
            Result::Err(e) => {
                return Err(e);
            },
        };
        let resultado = match t.resolver() {
            Result::Ok(resultado) => resultado,
            Result::Err(e) => {
                return Err(e);
            },
        };
        Ok(resultado)
    }

    /// Construye un [`Tablero`] sin resolver, según el texto del builder:
    /// cada fila del texto debe terminar con el separador, todas las filas
    /// deben tener el mismo ancho, y cada celda debe ser uno de los íconos
    /// del juego.
    ///
    /// # Errores
    ///
    /// Retorna el primer error del recorrido del texto, como lo describe
    /// [`analizar`]: [`ErrorMapa::CaracterDesconocido`] ante un ícono ajeno
    /// al juego, y [`ErrorMapa::MapaMalformado`] ante filas de anchos
    /// distintos, una última fila sin terminar, o un tablero sin filas o sin
    /// columnas.
    pub fn cargar_tablero(&self) -> (r: Result<Tablero, ErrorMapa>)
        ensures
            match analizar(self.casilleros.spec_bytes()) {
                Result::Ok(dims) => {
                    &&& r is Ok
                    &&& r->Ok_0.ancho == dims.0
                    &&& r->Ok_0.largo == dims.1
                    &&& r->Ok_0.mapa@ == dims.2
                    &&& r->Ok_0.bien_formado()
                },
                Result::Err(e) => r == Err::<Tablero, ErrorMapa>(e),
            },
    {
        let bytes = self.casilleros.as_bytes_vec();
        let ghost simbolos = self.casilleros.spec_bytes();
        let mut mapa: Vec<Casillero> = Vec::new();
        let mut ancho: usize = 0;
        let mut tiene_ancho: bool = false;
        let mut aux_ancho: usize = 0;
        let mut largo: usize = 0;
        proof {
            assert(simbolos.skip(0) =~= simbolos);
        }
        let mut i: usize = 0;
        while i < bytes.len()
            invariant
                i <= bytes@.len(),
                bytes@ == simbolos,
                simbolos == self.casilleros.spec_bytes(),
                aux_ancho <= i,
                largo <= i,
                ancho <= i,
                !tiene_ancho ==> ancho == 0 && largo == 0 && mapa@.len() == aux_ancho,
                tiene_ancho ==> largo >= 1 && mapa@.len() == largo * ancho + aux_ancho,
                forall|k: int| 0 <= k < mapa@.len() ==> !(#[trigger] mapa@[k] is NuevaLinea),
                escanear(
                    simbolos.skip(i as int),
                    if tiene_ancho {
                        Some(ancho as nat)
                    } else {
                        None
                    },
                    aux_ancho as nat,
                    largo as nat,
                    mapa@,
                ) == analizar(simbolos),
            decreases bytes@.len() - i,
        {
            let c = bytes[i];
            proof {
                assert(simbolos.skip(i as int)[0] == c);
                assert(simbolos.skip(i as int).drop_first() =~= simbolos.skip(i as int + 1));
            }
            match Self::identificar(c) {
                Result::Err(e) => {
                    return Err(e);
                },
                Result::Ok(Casillero::NuevaLinea) => {
                    if !tiene_ancho {
                        proof {
                            assert((largo + 1) * aux_ancho == aux_ancho) by (nonlinear_arith)
                                requires
                                    largo == 0,
                            ;
                        }
                        tiene_ancho = true;
                        ancho = aux_ancho;
                        aux_ancho = 0;
                        largo = largo + 1;
                    } else if aux_ancho == ancho {
                        proof {
                            assert((largo + 1) * ancho == largo * ancho + ancho)
                                by (nonlinear_arith);
                        }
                        aux_ancho = 0;
                        largo = largo + 1;
                    } else {
                        return Err(ErrorMapa::MapaMalformado);
                    }
                },
                Result::Ok(otro) => {
                    mapa.push(otro);
                    aux_ancho = aux_ancho + 1;
                },
            }
            i += 1;
        }
        proof {
            assert(simbolos.skip(simbolos.len() as int) =~= Seq::<u8>::empty());
        }
        if aux_ancho != 0 || !tiene_ancho || ancho == 0 {
            return Err(ErrorMapa::MapaMalformado);
        }
        proof {
            assert(analizar(simbolos) == Ok::<(nat, nat, Seq<Casillero>), ErrorMapa>(
                (ancho as nat, largo as nat, mapa@),
            ));
        }
        Ok(Tablero { largo, ancho, mapa })
    }
}

} // verus!
