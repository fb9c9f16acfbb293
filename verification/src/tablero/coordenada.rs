//! # Coordenada
//!
//! `coordenada` es el submódulo dedicado al `struct` que da noción de
//! posición dentro del tablero. El origen de coordenadas es la esquina
//! superior izquierda: `x` crece hacia la derecha y `y` hacia abajo.
use vstd::prelude::*;

verus! {

/// Posición dentro del tablero de dos dimensiones, con origen en la esquina
/// superior izquierda.
#[derive(Debug, PartialEq, Eq, Clone, Copy)]
pub struct Coordenadas2D {
    /// Posición en las columnas del mapa.
    pub x: usize,
    /// Posición en las filas del mapa.
    pub y: usize,
}

/// Valores adyacentes a `v` en una dimensión de tamaño `dim`, en orden
/// creciente: `v - 1`, `v` y `v + 1`, recortados al rango `[0, dim)`.
pub open spec fn candidatos(v: usize, dim: usize) -> Seq<usize> {
    (if v != 0 {
        seq![(v - 1) as usize]
    } else {
        Seq::<usize>::empty()
    }) + seq![v] + (if v + 1 < dim {
        seq![(v + 1) as usize]
    } else {
        Seq::<usize>::empty()
    })
}

/// `vecina` es una coordenada adyacente a `c` dentro de un tablero de
/// `ancho` columnas y `largo` filas: cae dentro del tablero, está a lo sumo
/// a un paso de distancia en cada eje, y no es la propia `c`.
pub open spec fn es_adyacente(
    c: Coordenadas2D,
    vecina: Coordenadas2D,
    ancho: usize,
    largo: usize,
) -> bool {
    &&& vecina.x < ancho
    &&& vecina.y < largo
    &&& vecina != c
    &&& -1 <= vecina.x - c.x <= 1
    &&& -1 <= vecina.y - c.y <= 1
}

/// Coordenadas con columna `cx` y con fila cada valor de `ys` en orden,
/// salteando la coordenada `(sx, sy)`.
pub open spec fn fila_adyacente(cx: usize, ys: Seq<usize>, sx: usize, sy: usize) -> Seq<
    Coordenadas2D,
>
    decreases ys.len(),
{
    if ys.len() == 0 {
        Seq::empty()
    } else {
        let resto = fila_adyacente(cx, ys.drop_first(), sx, sy);
        if cx == sx && ys[0] == sy {
            resto
        } else {
            seq![Coordenadas2D { x: cx, y: ys[0] }] + resto
        }
    }
}

/// Coordenadas con columna cada valor de `xs` y fila cada valor de `ys`, en
/// el orden de ambos, salteando la coordenada `(sx, sy)`.
pub open spec fn producto_adyacente(
    xs: Seq<usize>,
    ys: Seq<usize>,
    sx: usize,
    sy: usize,
) -> Seq<Coordenadas2D>
    decreases xs.len(),
{
    if xs.len() == 0 {
        Seq::empty()
    } else {
        fila_adyacente(xs[0], ys, sx, sy) + producto_adyacente(xs.drop_first(), ys, sx, sy)
    }
}

/// Coordenadas adyacentes a `c` dentro de un tablero de `ancho` por `largo`,
/// en el orden en que las enumera [`Coordenadas2D::coordenadas_adyacentes`]:
/// columna por columna, y dentro de cada columna fila por fila.
pub open spec fn adyacentes_espec(c: Coordenadas2D, ancho: usize, largo: usize) -> Seq<
    Coordenadas2D,
> {
    producto_adyacente(candidatos(c.x, ancho), candidatos(c.y, largo), c.x, c.y)
}

/// Los valores adyacentes en una dimensión son exactamente los del rango
/// recortado, sin repetidos: entre uno y tres, y al menos dos cuando la
/// dimensión tiene más de un valor.
proof fn lemma_candidatos(v: usize, dim: usize)
    requires
        v < dim,
    ensures
        candidatos(v, dim).no_duplicates(),
        forall|u: usize| #[trigger]
            candidatos(v, dim).contains(u) <==> (u < dim && -1 <= u - v <= 1),
        candidatos(v, dim).len() == 1 + (if v != 0 {
            1int
        } else {
            0int
        }) + (if v + 1 < dim {
            1int
        } else {
            0int
        }),
        candidatos(v, dim).contains(v),
{
    let c = candidatos(v, dim);
    assert forall|u: usize| #[trigger] c.contains(u) implies (u < dim && -1 <= u - v <= 1) by {
        let i = choose|i: int| 0 <= i < c.len() && c[i] == u;
        assert(c[i] == u);
    }
    assert forall|u: usize| (u < dim && -1 <= u - v <= 1) implies #[trigger] c.contains(u) by {
        if u == v {
            assert(c[(if v != 0 { 1int } else { 0int })] == u);
        } else if u < v {
            assert(c[0] == u);
        } else {
            assert(c[c.len() - 1] == u);
        }
    }
    assert(c[(if v != 0 { 1int } else { 0int })] == v);
}

/// Caracterización de una fila del producto: sus elementos, que no se
/// repiten cuando `ys` no se repite, y su cantidad.
proof fn lemma_fila_adyacente(cx: usize, ys: Seq<usize>, sx: usize, sy: usize)
    ensures
        forall|v: Coordenadas2D| #[trigger]
            fila_adyacente(cx, ys, sx, sy).contains(v) <==> (v.x == cx && ys.contains(v.y) && !(
            v.x == sx && v.y == sy)),
        ys.no_duplicates() ==> fila_adyacente(cx, ys, sx, sy).no_duplicates(),
        ys.no_duplicates() ==> fila_adyacente(cx, ys, sx, sy).len() == ys.len() - (if cx == sx
            && ys.contains(sy) {
            1int
        } else {
            0int
        }),
    decreases ys.len(),
{
    let f = fila_adyacente(cx, ys, sx, sy);
    if ys.len() == 0 {
        assert(forall|v: Coordenadas2D| !f.contains(v));
        assert(!ys.contains(sy));
    } else {
        lemma_fila_adyacente(cx, ys.drop_first(), sx, sy);
        let resto = fila_adyacente(cx, ys.drop_first(), sx, sy);
        assert forall|v: Coordenadas2D| #[trigger]
            f.contains(v) implies (v.x == cx && ys.contains(v.y) && !(v.x == sx && v.y == sy)) by {
            if !(cx == sx && ys[0] == sy) && v == (Coordenadas2D { x: cx, y: ys[0] }) {
                assert(ys[0] == v.y && ys.contains(ys[0]));
            } else {
                let i = choose|i: int| 0 <= i < f.len() && f[i] == v;
                if cx == sx && ys[0] == sy {
                    assert(resto.contains(v));
                } else {
                    if i == 0 {
                        assert(ys.contains(ys[0]));
                    } else {
                        assert(resto[i - 1] == v);
                        assert(resto.contains(v));
                    }
                }
                if resto.contains(v) {
                    assert(ys.drop_first().contains(v.y));
                    let j = choose|j: int|
                        0 <= j < ys.drop_first().len() && ys.drop_first()[j] == v.y;
                    assert(ys[j + 1] == v.y);
                }
            }
        }
        assert forall|v: Coordenadas2D|
            (v.x == cx && ys.contains(v.y) && !(v.x == sx && v.y == sy)) implies #[trigger]
            f.contains(v) by {
            let j = choose|j: int| 0 <= j < ys.len() && ys[j] == v.y;
            if j == 0 {
                assert(f[0] == v);
            } else {
                assert(ys.drop_first()[j - 1] == v.y);
                assert(ys.drop_first().contains(v.y));
                assert(resto.contains(v));
                let k = choose|k: int| 0 <= k < resto.len() && resto[k] == v;
                if cx == sx && ys[0] == sy {
                    assert(f[k] == v);
                } else {
                    assert(f[k + 1] == v);
                }
            }
        }
        if ys.no_duplicates() {
            assert(ys.drop_first().no_duplicates());
            if !(cx == sx && ys[0] == sy) {
                assert(!ys.drop_first().contains(ys[0]));
                assert(!resto.contains(Coordenadas2D { x: cx, y: ys[0] }));
                assert forall|i: int, j: int|
                    0 <= i < f.len() && 0 <= j < f.len() && i != j implies f[i] != f[j] by {
                    if i > 0 && j > 0 {
                        assert(f[i] == resto[i - 1] && f[j] == resto[j - 1]);
                    } else if i == 0 {
                        assert(f[j] == resto[j - 1] && resto.contains(resto[j - 1]));
                    } else {
                        assert(f[i] == resto[i - 1] && resto.contains(resto[i - 1]));
                    }
                }
            }
            if cx == sx && ys.contains(sy) {
                let j = choose|j: int| 0 <= j < ys.len() && ys[j] == sy;
                if j == 0 {
                } else {
                    assert(ys.drop_first()[j - 1] == sy);
                    assert(ys.drop_first().contains(sy));
                    assert(ys[0] != sy);
                }
            } else {
                if ys.drop_first().contains(sy) {
                    let j = choose|j: int|
                        0 <= j < ys.drop_first().len() && ys.drop_first()[j] == sy;
                    assert(ys[j + 1] == sy);
                }
            }
        }
    }
}

/// Caracterización del producto completo: sus elementos, que no se repiten,
/// y su cantidad.
proof fn lemma_producto_adyacente(xs: Seq<usize>, ys: Seq<usize>, sx: usize, sy: usize)
    requires
        xs.no_duplicates(),
        ys.no_duplicates(),
    ensures
        forall|v: Coordenadas2D| #[trigger]
            producto_adyacente(xs, ys, sx, sy).contains(v) <==> (xs.contains(v.x) && ys.contains(
                v.y,
            ) && !(v.x == sx && v.y == sy)),
        producto_adyacente(xs, ys, sx, sy).no_duplicates(),
        producto_adyacente(xs, ys, sx, sy).len() == xs.len() * ys.len() - (if xs.contains(sx)
            && ys.contains(sy) {
            1int
        } else {
            0int
        }),
    decreases xs.len(),
{
    let p = producto_adyacente(xs, ys, sx, sy);
    if xs.len() == 0 {
        assert(!xs.contains(sx));
    } else {
        let f = fila_adyacente(xs[0], ys, sx, sy);
        let resto = producto_adyacente(xs.drop_first(), ys, sx, sy);
        assert(xs.drop_first().no_duplicates());
        lemma_fila_adyacente(xs[0], ys, sx, sy);
        lemma_producto_adyacente(xs.drop_first(), ys, sx, sy);
        assert forall|v: Coordenadas2D| #[trigger]
            p.contains(v) implies (xs.contains(v.x) && ys.contains(v.y) && !(v.x == sx && v.y
            == sy)) by {
            let i = choose|i: int| 0 <= i < p.len() && p[i] == v;
            if i < f.len() {
                assert(f.contains(v));
                assert(xs.contains(xs[0]));
            } else {
                assert(resto[i - f.len()] == v);
                assert(resto.contains(v));
                let j = choose|j: int|
                    0 <= j < xs.drop_first().len() && xs.drop_first()[j] == v.x;
                assert(xs[j + 1] == v.x);
            }
        }
        assert forall|v: Coordenadas2D|
            (xs.contains(v.x) && ys.contains(v.y) && !(v.x == sx && v.y == sy)) implies #[trigger]
            p.contains(v) by {
            let j = choose|j: int| 0 <= j < xs.len() && xs[j] == v.x;
            if j == 0 {
                assert(f.contains(v));
                let k = choose|k: int| 0 <= k < f.len() && f[k] == v;
                assert(p[k] == v);
            } else {
                assert(xs.drop_first()[j - 1] == v.x);
                assert(xs.drop_first().contains(v.x));
                assert(resto.contains(v));
                let k = choose|k: int| 0 <= k < resto.len() && resto[k] == v;
                assert(p[f.len() + k] == v);
            }
        }
        // Sin repetidos: una fila no repite, el resto no repite, y la columna
        // `xs[0]` no vuelve a aparecer en el resto.
        assert forall|i: int, j: int|
            0 <= i < p.len() && 0 <= j < p.len() && i != j implies p[i] != p[j] by {
            if i < f.len() && j < f.len() {
                assert(p[i] == f[i] && p[j] == f[j]);
            } else if i >= f.len() && j >= f.len() {
                assert(p[i] == resto[i - f.len()] && p[j] == resto[j - f.len()]);
            } else {
                let a = if i < f.len() { i } else { j };
                let b = if i < f.len() { j } else { i };
                assert(p[a] == f[a] && f.contains(f[a]));
                assert(p[b] == resto[b - f.len()] && resto.contains(resto[b - f.len()]));
                assert(f[a].x == xs[0]);
                if xs.drop_first().contains(resto[b - f.len()].x) {
                    let k = choose|k: int|
                        0 <= k < xs.drop_first().len() && xs.drop_first()[k] == resto[b
                            - f.len()].x;
                    assert(xs[k + 1] == resto[b - f.len()].x);
                    assert(xs[k + 1] != xs[0]);
                }
            }
        }
        // La cantidad: la fila aporta `ys.len()` menos el salteo cuando la
        // columna es `sx`, y ese salteo ocurre en a lo sumo una columna.
        if xs.drop_first().contains(sx) {
            let k = choose|k: int| 0 <= k < xs.drop_first().len() && xs.drop_first()[k] == sx;
            assert(xs[k + 1] == sx);
            assert(xs.contains(sx));
            assert(xs[0] != sx);
        }
        if xs.contains(sx) && xs[0] != sx {
            let k = choose|k: int| 0 <= k < xs.len() && xs[k] == sx;
            assert(xs.drop_first()[k - 1] == sx);
            assert(xs.drop_first().contains(sx));
        }
        assert(p.len() == f.len() + resto.len());
        assert((xs.len() - 1) * ys.len() == xs.len() * ys.len() - ys.len()) by (nonlinear_arith);
    }
}

/// Propiedades de la enumeración de coordenadas adyacentes: no repite, sus
/// elementos son exactamente las coordenadas adyacentes dentro del tablero,
/// y hay a lo sumo ocho; cuando el tablero tiene al menos dos filas y dos
/// columnas hay al menos tres (tres en una esquina, cinco en un borde, ocho
/// en el interior).
pub proof fn lemma_adyacentes_espec(c: Coordenadas2D, ancho: usize, largo: usize)
    requires
        c.x < ancho,
        c.y < largo,
    ensures
        adyacentes_espec(c, ancho, largo).no_duplicates(),
        forall|v: Coordenadas2D| #[trigger]
            adyacentes_espec(c, ancho, largo).contains(v) <==> es_adyacente(c, v, ancho, largo),
        adyacentes_espec(c, ancho, largo).len() <= 8,
        ancho >= 2 && largo >= 2 ==> adyacentes_espec(c, ancho, largo).len() >= 3,
{
    lemma_candidatos(c.x, ancho);
    lemma_candidatos(c.y, largo);
    lemma_producto_adyacente(candidatos(c.x, ancho), candidatos(c.y, largo), c.x, c.y);
    assert forall|v: Coordenadas2D| #[trigger]
        adyacentes_espec(c, ancho, largo).contains(v) <==> es_adyacente(c, v, ancho, largo) by {
        assert(producto_adyacente(
            candidatos(c.x, ancho),
            candidatos(c.y, largo),
            c.x,
            c.y,
        ).contains(v) <==> (candidatos(c.x, ancho).contains(v.x) && candidatos(
            c.y,
            largo,
        ).contains(v.y) && !(v.x == c.x && v.y == c.y)));
    }
    let nx = candidatos(c.x, ancho).len();
    let ny = candidatos(c.y, largo).len();
    assert(nx * ny <= 9 && (nx >= 2 && ny >= 2 ==> nx * ny >= 4)) by (nonlinear_arith)
        requires
            1 <= nx <= 3,
            1 <= ny <= 3,
    ;
}

impl Coordenadas2D {
    /// Construye un par de coordenadas con las posiciones `(x, y)`.
    pub fn new(x: usize, y: usize) -> (r: Coordenadas2D)
        ensures
            r == (Coordenadas2D { x, y }),
    {
        Coordenadas2D { x, y }
    }

    /// Retorna un vector con las coordenadas adyacentes a la propia: las que
    /// están a un movimiento de distancia, en dirección recta o diagonal,
    /// dentro de un tablero de `ancho` columnas y `largo` filas.
    ///
    /// El vector enumera, sin repetir y sin incluir a la propia coordenada,
    /// exactamente las coordenadas adyacentes dentro del tablero: entre tres
    /// (en una esquina) y ocho (en el interior) cuando el tablero tiene al
    /// menos dos filas y dos columnas.
    pub fn coordenadas_adyacentes(&self, ancho: usize, largo: usize) -> (r: Vec<Coordenadas2D>)
        requires
            self.x < ancho,
            self.y < largo,
        ensures
            r@ == adyacentes_espec(*self, ancho, largo),
            r@.no_duplicates(),
            forall|v: Coordenadas2D| #[trigger]
                r@.contains(v) <==> es_adyacente(*self, v, ancho, largo),
            r@.len() <= 8,
            ancho >= 2 && largo >= 2 ==> r@.len() >= 3,
    {
        let coordenadas_x = Self::obtener_coordenada_adyacente(self.x, ancho);
        let coordenadas_y = Self::obtener_coordenada_adyacente(self.y, largo);
        let ghost objetivo = adyacentes_espec(*self, ancho, largo);
        let mut coordenadas: Vec<Coordenadas2D> = Vec::new();
        proof {
            assert(coordenadas_x@.skip(0) =~= coordenadas_x@);
            assert(coordenadas@ + producto_adyacente(
                coordenadas_x@,
                coordenadas_y@,
                self.x,
                self.y,
            ) =~= objetivo);
        }
        let mut i: usize = 0;
        while i < coordenadas_x.len()
            invariant
                i <= coordenadas_x@.len(),
                coordenadas_x@ == candidatos(self.x, ancho),
                coordenadas_y@ == candidatos(self.y, largo),
                coordenadas@ + producto_adyacente(
                    coordenadas_x@.skip(i as int),
                    coordenadas_y@,
                    self.x,
                    self.y,
                ) == objetivo,
            decreases coordenadas_x@.len() - i,
        {
            let cx = coordenadas_x[i];
            proof {
                assert(coordenadas_x@.skip(i as int)[0] == cx);
                assert(coordenadas_x@.skip(i as int).drop_first() =~= coordenadas_x@.skip(
                    i as int + 1,
                ));
                assert(coordenadas_y@.skip(0) =~= coordenadas_y@);
                assert(coordenadas@ + (fila_adyacente(cx, coordenadas_y@, self.x, self.y)
                    + producto_adyacente(
                    coordenadas_x@.skip(i as int + 1),
                    coordenadas_y@,
                    self.x,
                    self.y,
                )) =~= (coordenadas@ + fila_adyacente(cx, coordenadas_y@, self.x, self.y))
                    + producto_adyacente(
                    coordenadas_x@.skip(i as int + 1),
                    coordenadas_y@,
                    self.x,
                    self.y,
                ));
            }
            let mut j: usize = 0;
            while j < coordenadas_y.len()
                invariant
                    j <= coordenadas_y@.len(),
                    coordenadas_y@ == candidatos(self.y, largo),
                    (coordenadas@ + fila_adyacente(
                        cx,
                        coordenadas_y@.skip(j as int),
                        self.x,
                        self.y,
                    )) + producto_adyacente(
                        coordenadas_x@.skip(i as int + 1),
                        coordenadas_y@,
                        self.x,
                        self.y,
                    ) == objetivo,
                decreases coordenadas_y@.len() - j,
            {
                let cy = coordenadas_y[j];
                proof {
                    assert(coordenadas_y@.skip(j as int).drop_first() =~= coordenadas_y@.skip(
                        j as int + 1,
                    ));
                }
                if !(cx == self.x && cy == self.y) {
                    let ghost previas = coordenadas@;
                    coordenadas.push(Coordenadas2D::new(cx, cy));
                    proof {
                        assert(coordenadas@ + fila_adyacente(
                            cx,
                            coordenadas_y@.skip(j as int + 1),
                            self.x,
                            self.y,
                        ) =~= previas + fila_adyacente(
                            cx,
                            coordenadas_y@.skip(j as int),
                            self.x,
                            self.y,
                        ));
                    }
                }
                j += 1;
            }
            proof {
                assert(coordenadas_y@.skip(coordenadas_y@.len() as int) =~= Seq::<usize>::empty());
                assert(coordenadas@ + fila_adyacente(
                    cx,
                    coordenadas_y@.skip(coordenadas_y@.len() as int),
                    self.x,
                    self.y,
                ) =~= coordenadas@);
            }
            i += 1;
        }
        proof {
            assert(coordenadas_x@.skip(coordenadas_x@.len() as int) =~= Seq::<usize>::empty());
            assert(coordenadas@ + producto_adyacente(
                Seq::<usize>::empty(),
                coordenadas_y@,
                self.x,
                self.y,
            ) =~= coordenadas@);
            lemma_adyacentes_espec(*self, ancho, largo);
            assert forall|v: Coordenadas2D| #[trigger]
                coordenadas@.contains(v) <==> es_adyacente(*self, v, ancho, largo) by {
                assert(adyacentes_espec(*self, ancho, largo).contains(v) <==> es_adyacente(
                    *self,
                    v,
                    ancho,
                    largo,
                ));
            }
        }
        coordenadas
    }

    /// Retorna los valores adyacentes a `coordenada` en una dimensión de
    /// tamaño `dimension`, el propio valor incluido.
    pub fn obtener_coordenada_adyacente(coordenada: usize, dimension: usize) -> (r: Vec<usize>)
        requires
            coordenada < dimension,
        ensures
            r@ == candidatos(coordenada, dimension),
    {
        let mut coordenadas: Vec<usize> = Vec::new();
        if coordenada != 0 {
            coordenadas.push(coordenada - 1);
        }
        coordenadas.push(coordenada);
        if coordenada != dimension - 1 {
            coordenadas.push(coordenada + 1);
        }
        proof {
            assert(coordenadas@ =~= candidatos(coordenada, dimension));
        }
        coordenadas
    }

    /// Retorna la coordenada X, equivalente a la posición en las columnas
    /// del mapa.
    pub fn x(&self) -> (r: usize)
        ensures
            r == self.x,
    {
        self.x
    }

    /// Retorna la coordenada Y, equivalente a la posición en las filas del
    /// mapa.
    pub fn y(&self) -> (r: usize)
        ensures
            r == self.y,
    {
        self.y
    }
}

} // verus!
