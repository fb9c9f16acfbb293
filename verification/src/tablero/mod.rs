//! # Tablero
//!
//! `tablero` es el módulo que contiene todo lo relacionado al mapa del
//! problema a resolver: la construcción del tablero y su resolución.
use vstd::prelude::*;
use vstd::arithmetic::div_mod::lemma_fundamental_div_mod;
use vstd::arithmetic::div_mod::lemma_fundamental_div_mod_converse;

pub mod builder;
pub mod casillero;
pub mod coordenada;

use crate::error::error_mapa::ErrorMapa;
use crate::tablero::casillero::contador_valido;
use crate::tablero::casillero::texto_casillero;
use crate::tablero::casillero::Casillero;
use crate::tablero::coordenada::adyacentes_espec;
use crate::tablero::coordenada::es_adyacente;
use crate::tablero::coordenada::lemma_adyacentes_espec;
use crate::tablero::coordenada::Coordenadas2D;

verus! {

/// Tablero rectangular del buscaminas: sus dimensiones y sus celdas, en orden
/// de filas (la celda de la columna `x` y la fila `y` ocupa el índice
/// `y * ancho + x`).
#[derive(Debug, PartialEq, Eq)]
pub struct Tablero {
    /// Cantidad de filas del tablero.
    pub largo: usize,
    /// Cantidad de columnas del tablero.
    pub ancho: usize,
    /// Celdas del tablero, en orden de filas. Guarda tanto el problema
    /// inicial como la solución.
    pub mapa: Vec<Casillero>,
}

impl Tablero {
    /// Un tablero bien formado tiene al menos una fila y una columna, una
    /// celda por cada posición del rectángulo, y ninguna marca de fin de
    /// fila entre sus celdas: esas marcas se consumen durante la construcción.
    pub open spec fn bien_formado(self) -> bool {
        &&& self.ancho >= 1
        &&& self.largo >= 1
        &&& self.mapa@.len() == self.ancho * self.largo
        &&& forall|i: int|
            0 <= i < self.mapa@.len() ==> !(#[trigger] self.mapa@[i] is NuevaLinea)
    }

    /// Cada espacio vacío del tablero lleva una cantidad de minas adyacentes
    /// entre cero y ocho.
    pub open spec fn contadores_validos(self) -> bool {
        forall|i: int| 0 <= i < self.mapa@.len() ==> contador_valido(#[trigger] self.mapa@[i])
    }

    /// Retorna un nuevo [`Tablero`] con la solución del problema almacenado
    /// en el invocador: las minas quedan donde estaban y cada espacio pasa a
    /// llevar la cantidad de minas adyacentes a su posición. El tablero
    /// original no se modifica.
    pub fn resolver(&self) -> (r: Result<Tablero, ErrorMapa>)
        requires
            self.bien_formado(),
        ensures
            r is Ok,
            r->Ok_0.ancho == self.ancho,
            r->Ok_0.largo == self.largo,
            r->Ok_0.mapa@ == resolver_espec(self.mapa@, self.ancho, self.largo),
            r->Ok_0.bien_formado(),
            r->Ok_0.contadores_validos(),
    {
        let ghost objetivo = resolver_espec(self.mapa@, self.ancho, self.largo);
        let mut solucion: Vec<Casillero> = Vec::new();
        let mut index: usize = 0;
        while index < self.mapa.len()
            invariant
                self.bien_formado(),
                index <= self.mapa@.len(),
                objetivo == resolver_espec(self.mapa@, self.ancho, self.largo),
                solucion@.len() == index,
                forall|k: int| 0 <= k < index ==> #[trigger] solucion@[k] == objetivo[k],
                forall|k: int| 0 <= k < index ==> contador_valido(#[trigger] solucion@[k]),
            decreases self.mapa@.len() - index,
        {
            match self.mapa[index] {
                Casillero::Espacio(_) => {
                    let cuenta = match self.calcular_minas_adyacentes(index) {
                        Result::Ok(cuenta) => cuenta,
                        Result::Err(e) => {
                            return Err(e);
                        },
                    };
                    solucion.push(Casillero::Espacio(cuenta));
                },
                Casillero::Mina => solucion.push(Casillero::Mina),
                Casillero::NuevaLinea => {},
            }
            index += 1;
        }
        proof {
            assert(solucion@ =~= objetivo);
        }
        Ok(Tablero { ancho: self.ancho, largo: self.largo, mapa: solucion })
    }

    /// Retorna la cantidad de minas adyacentes a la celda del índice
    /// `num_casillero`, contando por filas. Si esa celda es una mina,
    /// retorna cero.
    ///
    /// # Errores
    ///
    /// Retorna [`ErrorMapa::CeldaInexistente`] cuando el índice queda fuera
    /// del mapa.
    #[verifier::loop_isolation(false)]
    pub fn calcular_minas_adyacentes(&self, num_casillero: usize) -> (r: Result<u8, ErrorMapa>)
        requires
            self.bien_formado(),
        ensures
            num_casillero < self.mapa@.len() ==> r == Ok::<u8, ErrorMapa>(
                if self.mapa@[num_casillero as int] is Mina {
                    0u8
                } else {
                    minas_vecinas(
                        self.mapa@,
                        self.ancho,
                        self.largo,
                        coordenada_de(num_casillero as int, self.ancho),
                    ) as u8
                },
            ),
            num_casillero >= self.mapa@.len() ==> r == Err::<u8, ErrorMapa>(
                ErrorMapa::CeldaInexistente,
            ),
            r is Ok ==> r->Ok_0 <= 8,
    {
        let fila = num_casillero / self.ancho;
        let columna = num_casillero % self.ancho;
        proof {
            lemma_fundamental_div_mod(num_casillero as int, self.ancho as int);
            if num_casillero < self.mapa@.len() {
                assert((num_casillero as int) / (self.ancho as int) < self.largo) by (nonlinear_arith)
                    requires
                        self.ancho >= 1,
                        self.largo >= 1,
                        num_casillero < self.ancho * self.largo,
                ;
            } else {
                assert((num_casillero as int) / (self.ancho as int) >= self.largo) by (nonlinear_arith)
                    requires
                        self.ancho >= 1,
                        self.largo >= 1,
                        num_casillero >= self.ancho * self.largo,
                ;
            }
        }
        let coordenada = Coordenadas2D::new(columna, fila);
        let adyacentes = match self.obtener_adyacentes(coordenada) {
            Result::Ok(adyacentes) => adyacentes,
            Result::Err(e) => {
                return Err(e);
            },
        };
        proof {
            if columna < self.ancho && fila < self.largo {
                lemma_adyacentes_espec(Coordenadas2D { x: columna, y: fila }, self.ancho, self.largo);
            }
        }
        let mut cuenta: u8 = 0;
        let mut k: usize = 0;
        while k < adyacentes.len()
            invariant
                k <= adyacentes@.len(),
                adyacentes@.len() <= 8,
                cuenta <= k,
                cuenta as nat == cuenta_minas(adyacentes@.take(k as int)),
            decreases adyacentes@.len() - k,
        {
            proof {
                assert(adyacentes@.take(k as int + 1).drop_last() =~= adyacentes@.take(k as int));
                assert(adyacentes@.take(k as int + 1).last() == adyacentes@[k as int]);
            }
            if let Casillero::Mina = adyacentes[k] {
                cuenta += 1;
            }
            k += 1;
        }
        proof {
            assert(adyacentes@.take(adyacentes@.len() as int) =~= adyacentes@);
            assert(cuenta as nat == cuenta_minas(adyacentes@));
            if num_casillero < self.mapa@.len() {
                let c = Coordenadas2D { x: columna, y: fila };
                lemma_fundamental_div_mod(num_casillero as int, self.ancho as int);
                assert(fila * self.ancho == self.ancho * fila) by (nonlinear_arith);
                assert(coordenada_de(num_casillero as int, self.ancho) == c);
                assert(num_casillero as int == c.y * self.ancho + c.x);
                if self.mapa@[num_casillero as int] is Mina {
                    assert(adyacentes@ =~= Seq::<Casillero>::empty());
                    assert(cuenta == 0);
                } else {
                    assert(adyacentes@ == celdas_adyacentes(
                        self.mapa@,
                        self.ancho,
                        self.largo,
                        c,
                    ));
                    assert(cuenta as nat == minas_vecinas(self.mapa@, self.ancho, self.largo, c));
                }
            }
        }
        Ok(cuenta)
    }

    /// Retorna las celdas adyacentes a la coordenada dada; cuando la propia
    /// coordenada guarda una mina, retorna un vector vacío.
    ///
    /// # Errores
    ///
    /// Retorna [`ErrorMapa::CeldaInexistente`] cuando la coordenada queda
    /// fuera del tablero.
    pub fn obtener_adyacentes(&self, coordenada: Coordenadas2D) -> (r: Result<
        Vec<Casillero>,
        ErrorMapa,
    >)
        requires
            self.bien_formado(),
        ensures
            (coordenada.x < self.ancho && coordenada.y < self.largo) ==> {
                &&& r is Ok
                &&& (self.mapa@[coordenada.y * self.ancho + coordenada.x] is Mina ==> r->Ok_0@
                    == Seq::<Casillero>::empty())
                &&& (!(self.mapa@[coordenada.y * self.ancho + coordenada.x] is Mina) ==> r->Ok_0@
                    == celdas_adyacentes(self.mapa@, self.ancho, self.largo, coordenada))
            },
            !(coordenada.x < self.ancho && coordenada.y < self.largo) ==> r == Err::<
                Vec<Casillero>,
                ErrorMapa,
            >(ErrorMapa::CeldaInexistente),
    {
        proof {
            assert(self.mapa.len() == self.mapa@.len());
            if coordenada.x < self.ancho && coordenada.y < self.largo {
                assert(coordenada.y * self.ancho + coordenada.x < self.ancho * self.largo)
                    by (nonlinear_arith)
                    requires
                        coordenada.x < self.ancho,
                        coordenada.y < self.largo,
                ;
            }
        }
        let propio = match self.obtener_casillero(&coordenada) {
            Result::Ok(propio) => propio,
            Result::Err(e) => {
                return Err(e);
            },
        };
        if let Casillero::Mina = propio {
            return Ok(Vec::new());
        }
        let vecinas = coordenada.coordenadas_adyacentes(self.ancho, self.largo);
        let ghost objetivo = celdas_adyacentes(self.mapa@, self.ancho, self.largo, coordenada);
        let mut celdas: Vec<Casillero> = Vec::new();
        let mut k: usize = 0;
        while k < vecinas.len()
            invariant
                self.bien_formado(),
                k <= vecinas@.len(),
                vecinas@ == adyacentes_espec(coordenada, self.ancho, self.largo),
                forall|v: Coordenadas2D| #[trigger]
                    vecinas@.contains(v) <==> es_adyacente(coordenada, v, self.ancho, self.largo),
                objetivo == celdas_adyacentes(self.mapa@, self.ancho, self.largo, coordenada),
                celdas@.len() == k,
                forall|j: int| 0 <= j < k ==> #[trigger] celdas@[j] == objetivo[j],
            decreases vecinas@.len() - k,
        {
            let vecina = vecinas[k];
            proof {
                assert(self.mapa.len() == self.mapa@.len());
                assert(vecinas@.contains(vecina));
                assert(vecina.y * self.ancho + vecina.x < self.ancho * self.largo)
                    by (nonlinear_arith)
                    requires
                        vecina.x < self.ancho,
                        vecina.y < self.largo,
                ;
            }
            let celda = match self.obtener_casillero(&vecina) {
                Result::Ok(celda) => celda,
                Result::Err(e) => {
                    return Err(e);
                },
            };
            celdas.push(celda);
            k += 1;
        }
        proof {
            assert(celdas@ =~= objetivo);
        }
        Ok(celdas)
    }

    /// Retorna el casillero correspondiente a la coordenada que se pase por
    /// parámetro.
    ///
    /// # Errores
    ///
    /// Retorna [`ErrorMapa::CeldaInexistente`] cuando la coordenada o el
    /// índice que le corresponde quedan fuera del mapa.
    pub fn obtener_casillero(&self, coordenada: &Coordenadas2D) -> (r: Result<
        Casillero,
        ErrorMapa,
    >)
        requires
            self.ancho * self.largo <= usize::MAX,
        ensures
            (coordenada.x < self.ancho && coordenada.y < self.largo && coordenada.y * self.ancho
                + coordenada.x < self.mapa@.len()) ==> r == Ok::<Casillero, ErrorMapa>(
                self.mapa@[coordenada.y * self.ancho + coordenada.x],
            ),
            !(coordenada.x < self.ancho && coordenada.y < self.largo && coordenada.y * self.ancho
                + coordenada.x < self.mapa@.len()) ==> r == Err::<Casillero, ErrorMapa>(
                ErrorMapa::CeldaInexistente,
            ),
    {
        let indice = match self.obtener_indice(coordenada) {
            Result::Ok(indice) => indice,
            Result::Err(e) => {
                return Err(e);
            },
        };
        proof {
            assert(coordenada.y * self.ancho + coordenada.x < self.ancho * self.largo)
                by (nonlinear_arith)
                requires
                    coordenada.x < self.ancho,
                    coordenada.y < self.largo,
            ;
        }
        if indice < self.mapa.len() {
            Ok(self.mapa[indice])
        } else {
            Err(ErrorMapa::CeldaInexistente)
        }
    }

    /// Retorna el índice que corresponde a una coordenada dentro del campo
    /// `mapa`: la numeración recorre el tablero por filas, de izquierda a
    /// derecha y de arriba hacia abajo.
    ///
    /// # Errores
    ///
    /// Retorna [`ErrorMapa::CeldaInexistente`] cuando la coordenada queda
    /// fuera de las dimensiones del tablero.
    pub fn obtener_indice(&self, coordenada: &Coordenadas2D) -> (r: Result<usize, ErrorMapa>)
        requires
            self.ancho * self.largo <= usize::MAX,
        ensures
            (coordenada.x < self.ancho && coordenada.y < self.largo) ==> r == Ok::<
                usize,
                ErrorMapa,
            >((coordenada.y * self.ancho + coordenada.x) as usize),
            !(coordenada.x < self.ancho && coordenada.y < self.largo) ==> r == Err::<
                usize,
                ErrorMapa,
            >(ErrorMapa::CeldaInexistente),
    {
        let x = coordenada.x();
        let y = coordenada.y();
        if x < self.ancho && y < self.largo {
            proof {
                assert(y * self.ancho + x < self.ancho * self.largo) by (nonlinear_arith)
                    requires
                        x < self.ancho,
                        y < self.largo,
                ;
            }
            Ok(y * self.ancho + x)
        } else {
            Err(ErrorMapa::CeldaInexistente)
        }
    }

    /// Retorna el texto con el que se muestra el tablero: una línea por cada
    /// fila, con el ícono de cada celda y un salto de línea al final de cada
    /// fila.
    #[verifier::loop_isolation(false)]
    pub fn renderizar(&self) -> (r: String)
        requires
            self.bien_formado(),
            self.contadores_validos(),
        ensures
            r@ == texto_celdas(self.mapa@, self.ancho),
    {
        let mut texto = String::new();
        proof {
            assert(self.mapa@.take(0) =~= Seq::<Casillero>::empty());
        }
        let mut i: usize = 0;
        while i < self.mapa.len()
            invariant
                i <= self.mapa@.len(),
                texto@ == texto_celdas(self.mapa@.take(i as int), self.ancho),
            decreases self.mapa@.len() - i,
        {
            proof {
                assert(self.mapa@.take(i as int + 1).drop_last() =~= self.mapa@.take(i as int));
                assert(self.mapa@.take(i as int + 1).last() == self.mapa@[i as int]);
            }
            let pieza = self.mapa[i].simbolo();
            texto.append(pieza);
            if i % self.ancho == self.ancho - 1 {
                let ghost antes = texto@;
                texto.append("\n");
                proof {
                    reveal_strlit("\n");
                    assert(texto@ =~= antes + seq!['\n']);
                }
            }
            i += 1;
        }
        proof {
            assert(self.mapa@.take(self.mapa@.len() as int) =~= self.mapa@);
        }
        texto
    }

    /// Dice si el tablero está bien formado y cada espacio lleva una
    /// cantidad de minas adyacentes entre cero y ocho: lo que un tablero
    /// construido por el builder y resuelto siempre cumple, y lo que pide
    /// [`Tablero::renderizar`].
    #[verifier::loop_isolation(false)]
    pub fn valido(&self) -> (r: bool)
        ensures
            r == (self.bien_formado() && self.contadores_validos()),
    {
        if self.ancho < 1 || self.largo < 1 {
            return false;
        }
        if self.mapa.len() / self.ancho != self.largo || self.mapa.len() % self.ancho != 0 {
            proof {
                assert(self.mapa@.len() != self.ancho * self.largo) by {
                    if self.mapa@.len() == self.ancho * self.largo {
                        lemma_fundamental_div_mod_converse(
                            self.mapa@.len() as int,
                            self.ancho as int,
                            self.largo as int,
                            0,
                        );
                    }
                }
            }
            return false;
        }
        proof {
            lemma_fundamental_div_mod(self.mapa@.len() as int, self.ancho as int);
            assert(self.mapa@.len() == self.ancho * self.largo);
        }
        let mut i: usize = 0;
        while i < self.mapa.len()
            invariant
                i <= self.mapa@.len(),
                forall|k: int|
                    0 <= k < i ==> !(#[trigger] self.mapa@[k] is NuevaLinea) && contador_valido(
                        self.mapa@[k],
                    ),
            decreases self.mapa@.len() - i,
        {
            match self.mapa[i] {
                Casillero::NuevaLinea => {
                    return false;
                },
                Casillero::Espacio(n) => {
                    if n > 8 {
                        return false;
                    }
                },
                Casillero::Mina => {},
            }
            i += 1;
        }
        true
    }
}

/// Coordenada que corresponde al índice `i` de un mapa de `ancho` columnas:
/// la fila es el cociente y la columna el resto.
pub open spec fn coordenada_de(i: int, ancho: usize) -> Coordenadas2D {
    Coordenadas2D { x: (i % (ancho as int)) as usize, y: (i / (ancho as int)) as usize }
}

/// Cantidad de minas entre las celdas de `celdas`.
pub open spec fn cuenta_minas(celdas: Seq<Casillero>) -> nat
    decreases celdas.len(),
{
    if celdas.len() == 0 {
        0
    } else {
        cuenta_minas(celdas.drop_last()) + (if celdas.last() is Mina {
            1nat
        } else {
            0nat
        })
    }
}

/// Celdas del mapa en las coordenadas adyacentes a `c`, en el orden en que
/// se enumeran las coordenadas.
pub open spec fn celdas_adyacentes(
    mapa: Seq<Casillero>,
    ancho: usize,
    largo: usize,
    c: Coordenadas2D,
) -> Seq<Casillero> {
    adyacentes_espec(c, ancho, largo).map_values(|v: Coordenadas2D| mapa[v.y * ancho + v.x])
}

/// Cantidad de minas en las celdas adyacentes a `c` dentro del mapa.
pub open spec fn minas_vecinas(
    mapa: Seq<Casillero>,
    ancho: usize,
    largo: usize,
    c: Coordenadas2D,
) -> nat {
    cuenta_minas(celdas_adyacentes(mapa, ancho, largo, c))
}

/// Mapa resuelto: cada mina queda donde estaba, y cada espacio pasa a llevar
/// la cantidad de minas adyacentes a su posición.
pub open spec fn resolver_espec(mapa: Seq<Casillero>, ancho: usize, largo: usize) -> Seq<
    Casillero,
> {
    Seq::new(
        mapa.len(),
        |i: int|
            if mapa[i] is Mina {
                Casillero::Mina
            } else {
                Casillero::Espacio(minas_vecinas(mapa, ancho, largo, coordenada_de(i, ancho)) as u8)
            },
    )
}

/// Texto con el que se muestran las celdas de un mapa de `ancho` columnas:
/// el texto de cada celda en orden de filas, con un salto de línea tras la
/// última celda de cada fila.
pub open spec fn texto_celdas(mapa: Seq<Casillero>, ancho: usize) -> Seq<char>
    decreases mapa.len(),
{
    if mapa.len() == 0 {
        Seq::empty()
    } else {
        texto_celdas(mapa.drop_last(), ancho) + texto_casillero(mapa.last()) + (if (mapa.len()
            - 1) % (ancho as int) == ancho - 1 {
            seq!['\n']
        } else {
            Seq::<char>::empty()
        })
    }
}

/// La cantidad de minas de una secuencia de celdas no supera su longitud.
pub proof fn lemma_cuenta_minas_cota(celdas: Seq<Casillero>)
    ensures
        cuenta_minas(celdas) <= celdas.len(),
    decreases celdas.len(),
{
    if celdas.len() > 0 {
        lemma_cuenta_minas_cota(celdas.drop_last());
    }
}

/// Una celda tiene a lo sumo ocho vecinas, así que sus minas vecinas son a
/// lo sumo ocho.
pub proof fn lemma_minas_vecinas_cota(
    mapa: Seq<Casillero>,
    ancho: usize,
    largo: usize,
    c: Coordenadas2D,
)
    requires
        c.x < ancho,
        c.y < largo,
    ensures
        minas_vecinas(mapa, ancho, largo, c) <= 8,
{
    lemma_adyacentes_espec(c, ancho, largo);
    lemma_cuenta_minas_cota(celdas_adyacentes(mapa, ancho, largo, c));
}

/// El texto de una celda ocupa exactamente un caracter; también la marca
/// de fin de fila, que se muestra como salto de línea.
proof fn lemma_texto_casillero_largo(c: Casillero)
    ensures
        texto_casillero(c).len() == 1,
{
}

/// Estructura del texto de un mapa sin marcas de fin de fila: la celda del
/// índice `q` ocupa la posición `q + q / ancho` del texto, cada fila
/// completa termina con un salto de línea, y el largo total suma un caracter
/// por celda y uno por cada fila completa.
proof fn lemma_texto_celdas_estructura(mapa: Seq<Casillero>, ancho: usize)
    requires
        ancho >= 1,
        forall|i: int| 0 <= i < mapa.len() ==> !(#[trigger] mapa[i] is NuevaLinea),
    ensures
        texto_celdas(mapa, ancho).len() == mapa.len() + (mapa.len() as int) / (ancho as int),
        forall|q: int|
            0 <= q < mapa.len() ==> #[trigger] texto_celdas(mapa, ancho)[q + q / (ancho as int)]
                == texto_casillero(mapa[q])[0],
        forall|q: int|
            0 <= q < mapa.len() && q % (ancho as int) == ancho - 1 ==> #[trigger] texto_celdas(
                mapa,
                ancho,
            )[q + q / (ancho as int) + 1] == '\n',
    decreases mapa.len(),
{
    let w = ancho as int;
    let txt = texto_celdas(mapa, ancho);
    if mapa.len() > 0 {
        let n = mapa.len() as int;
        let q0 = n - 1;
        let resto = mapa.drop_last();
        let sub = texto_celdas(resto, ancho);
        let tc = texto_casillero(mapa.last());
        lemma_texto_celdas_estructura(resto, ancho);
        lemma_texto_casillero_largo(mapa.last());
        lemma_fundamental_div_mod(q0, w);
        if q0 % w == w - 1 {
            assert((q0 / w + 1) * w == w * (q0 / w) + w) by (nonlinear_arith);
            lemma_fundamental_div_mod_converse(n, w, q0 / w + 1, 0);
            assert(n / w == q0 / w + 1);
        } else {
            assert((q0 / w) * w == w * (q0 / w)) by (nonlinear_arith);
            lemma_fundamental_div_mod_converse(n, w, q0 / w, q0 % w + 1);
            assert(n / w == q0 / w);
        }
        assert(sub.len() == q0 + q0 / w);
        assert(txt.len() == n + n / w);
        assert forall|q: int| 0 <= q < n implies #[trigger] txt[q + q / w] == texto_casillero(
            mapa[q],
        )[0] by {
            if q < q0 {
                vstd::arithmetic::div_mod::lemma_div_is_ordered(q, q0, w);
                assert(q + q / w < sub.len());
                assert(txt[q + q / w] == sub[q + q / w]);
                assert(resto[q] == mapa[q]);
            } else {
                assert(q + q / w == sub.len());
                assert(txt[q + q / w] == tc[0]);
            }
        }
        assert forall|q: int| 0 <= q < n && q % w == w - 1 implies #[trigger] txt[q + q / w
            + 1] == '\n' by {
            if q < q0 {
                lemma_fundamental_div_mod(q, w);
                assert((q / w + 1) * w == w * (q / w) + w) by (nonlinear_arith);
                lemma_fundamental_div_mod_converse(q + 1, w, q / w + 1, 0);
                assert((q + 1) / w == q / w + 1);
                vstd::arithmetic::div_mod::lemma_div_is_ordered(q + 1, q0, w);
                assert(q + q / w + 1 < sub.len());
                assert(txt[q + q / w + 1] == sub[q + q / w + 1]);
            } else {
                assert(q + q / w + 1 == sub.len() + 1);
                assert(txt[q + q / w + 1] == '\n');
            }
        }
    }
}

/// Ley de la cadena completa sobre un tablero construido: la resolución
/// conserva las dimensiones y cada posición de mina, y el texto final
/// muestra `largo` líneas de `ancho` íconos cada una, con el ícono de la
/// mina exactamente en las posiciones donde el tablero original tenía una
/// mina.
pub proof fn lemma_resolucion_preserva(t: Tablero)
    requires
        t.bien_formado(),
    ensures
        resolver_espec(t.mapa@, t.ancho, t.largo).len() == t.mapa@.len(),
        forall|i: int|
            0 <= i < t.mapa@.len() ==> (#[trigger] resolver_espec(t.mapa@, t.ancho, t.largo)[i]
                is Mina <==> t.mapa@[i] is Mina),
        texto_celdas(resolver_espec(t.mapa@, t.ancho, t.largo), t.ancho).len() == t.largo * (
        t.ancho + 1),
        forall|f: int, c: int|
            0 <= f < t.largo && 0 <= c < t.ancho ==> (#[trigger] texto_celdas(
                resolver_espec(t.mapa@, t.ancho, t.largo),
                t.ancho,
            )[f * (t.ancho + 1) + c] == '*' <==> t.mapa@[f * t.ancho + c] is Mina),
        forall|f: int|
            0 <= f < t.largo ==> #[trigger] texto_celdas(
                resolver_espec(t.mapa@, t.ancho, t.largo),
                t.ancho,
            )[f * (t.ancho + 1) + t.ancho] == '\n',
{
    let w = t.ancho as int;
    let l = t.largo as int;
    let sol = resolver_espec(t.mapa@, t.ancho, t.largo);
    lemma_texto_celdas_estructura(sol, t.ancho);
    let txt = texto_celdas(sol, t.ancho);
    assert(w * l == l * w) by (nonlinear_arith);
    lemma_fundamental_div_mod_converse(w * l, w, l, 0);
    assert((sol.len() as int) / w == l);
    assert(txt.len() == w * l + l);
    assert(l * (w + 1) == w * l + l) by (nonlinear_arith);
    assert forall|f: int, c: int| 0 <= f < l && 0 <= c < w implies (#[trigger] txt[f * (w + 1)
        + c] == '*' <==> t.mapa@[f * w + c] is Mina) by {
        let q = f * w + c;
        assert(0 <= q < w * l) by (nonlinear_arith)
            requires
                0 <= f < l && 0 <= c < w && q == f * w + c,
        ;
        assert(q == f * w + c);
        lemma_fundamental_div_mod_converse(q, w, f, c);
        assert(q / w == f && q % w == c);
        assert(f * (w + 1) == f * w + f) by (nonlinear_arith);
        assert(f * (w + 1) + c == q + q / w);
        assert(txt[q + q / w] == texto_casillero(sol[q])[0]);
        if sol[q] is Mina {
            assert(texto_casillero(sol[q])[0] == '*');
        } else {
            assert(texto_casillero(sol[q])[0] != '*');
        }
    }
    assert forall|f: int| 0 <= f < l implies #[trigger] txt[f * (w + 1) + t.ancho] == '\n' by {
        let q = f * w + (w - 1);
        assert(0 <= q < w * l) by (nonlinear_arith)
            requires
                0 <= f < l && w >= 1 && q == f * w + (w - 1),
        ;
        lemma_fundamental_div_mod_converse(q, w, f, w - 1);
        assert(q / w == f && q % w == w - 1);
        assert(f * (w + 1) == f * w + f) by (nonlinear_arith);
        assert(f * (w + 1) + w == q + q / w + 1);
        assert(txt[q + q / w + 1] == '\n');
    }
}

/// Resolver un tablero que solo contiene minas lo deja idéntico: los
/// tableros llenos de minas son puntos fijos de la resolución.
pub proof fn lemma_resolver_solo_minas(mapa: Seq<Casillero>, ancho: usize, largo: usize)
    requires
        forall|i: int| 0 <= i < mapa.len() ==> #[trigger] mapa[i] is Mina,
    ensures
        resolver_espec(mapa, ancho, largo) == mapa,
{
    assert(resolver_espec(mapa, ancho, largo) =~= mapa);
}

} // verus!
