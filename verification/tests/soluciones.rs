use buscaminas::error::error_mapa::ErrorMapa;
use buscaminas::tablero::builder::TableroBuilder;
use buscaminas::tablero::casillero::Casillero;
use buscaminas::tablero::coordenada::Coordenadas2D;
use buscaminas::tablero::Tablero;

#[test]
fn escenario_dos_por_dos() {
    let builder = TableroBuilder::new("*.-.*-").unwrap();
    let cargado = builder.cargar_tablero().unwrap();
    let esperado = Tablero {
        ancho: 2,
        largo: 2,
        mapa: vec![
            Casillero::Mina,
            Casillero::Espacio(0),
            Casillero::Espacio(0),
            Casillero::Mina,
        ],
    };
    assert_eq!(cargado, esperado);

    // En un tablero de dos por dos cada espacio toca a las dos minas, la
    // diagonal incluida.
    let resuelto = cargado.resolver().unwrap();
    let esperado = Tablero {
        ancho: 2,
        largo: 2,
        mapa: vec![
            Casillero::Mina,
            Casillero::Espacio(2),
            Casillero::Espacio(2),
            Casillero::Mina,
        ],
    };
    assert_eq!(resuelto, esperado);

    assert_eq!(resuelto.renderizar(), "*2\n2*\n");
}

#[test]
fn escenario_damero_tres_por_tres() {
    // Mina en las esquinas y el centro: cada espacio del borde toca tres.
    let builder = TableroBuilder::new("*.*-.*.-*.*-").unwrap();
    let resuelto = builder.crear_tablero().unwrap();
    let esperado = Tablero {
        ancho: 3,
        largo: 3,
        mapa: vec![
            Casillero::Mina,
            Casillero::Espacio(3),
            Casillero::Mina,
            Casillero::Espacio(3),
            Casillero::Mina,
            Casillero::Espacio(3),
            Casillero::Mina,
            Casillero::Espacio(3),
            Casillero::Mina,
        ],
    };
    assert_eq!(resuelto, esperado);
    assert_eq!(resuelto.renderizar(), "*3*\n3*3\n*3*\n");
}

#[test]
fn escenario_texto_vacio() {
    let resultado = TableroBuilder::new("");
    assert_eq!(resultado, Err(ErrorMapa::MapaVacio));
}

#[test]
fn escenario_filas_desparejas() {
    let builder = TableroBuilder::new("*.*-.*.-*.-").unwrap();
    let resultado = builder.crear_tablero();
    assert_eq!(resultado, Err(ErrorMapa::MapaMalformado));
}

#[test]
fn escenario_icono_desconocido() {
    let builder = TableroBuilder::new("*.*-.*.-*.a-").unwrap();
    let resultado = builder.crear_tablero();
    assert_eq!(resultado, Err(ErrorMapa::CaracterDesconocido('a')));
}

#[test]
fn ultima_fila_sin_separador() {
    // La politica del builder: cada fila, la ultima incluida, termina con
    // el separador; si no, el mapa queda malformado.
    let builder = TableroBuilder::new("*.-.*").unwrap();
    let resultado = builder.cargar_tablero();
    assert_eq!(resultado, Err(ErrorMapa::MapaMalformado));
}

#[test]
fn filas_sin_celdas() {
    let builder = TableroBuilder::new("-").unwrap();
    assert_eq!(builder.cargar_tablero(), Err(ErrorMapa::MapaMalformado));

    let builder = TableroBuilder::new("--").unwrap();
    assert_eq!(builder.cargar_tablero(), Err(ErrorMapa::MapaMalformado));
}

#[test]
fn primer_error_del_recorrido() {
    // El icono desconocido aparece antes del separador que cerraria la fila
    // despareja: gana el icono.
    let builder = TableroBuilder::new(".-..a-").unwrap();
    assert_eq!(
        builder.cargar_tablero(),
        Err(ErrorMapa::CaracterDesconocido('a'))
    );

    // La fila despareja se cierra antes de llegar al icono desconocido:
    // gana el mapa malformado.
    let builder = TableroBuilder::new(".-..-a").unwrap();
    assert_eq!(builder.cargar_tablero(), Err(ErrorMapa::MapaMalformado));
}

#[test]
fn tablero_de_una_celda() {
    let builder = TableroBuilder::new(".-").unwrap();
    let resuelto = builder.crear_tablero().unwrap();
    let esperado = Tablero {
        ancho: 1,
        largo: 1,
        mapa: vec![Casillero::Espacio(0)],
    };
    assert_eq!(resuelto, esperado);
    assert_eq!(resuelto.renderizar(), ".\n");

    // En un tablero de una sola celda no hay coordenadas adyacentes.
    let coordenada = Coordenadas2D::new(0, 0);
    let adyacentes = coordenada.coordenadas_adyacentes(1, 1);
    assert_eq!(adyacentes.len(), 0);
}

#[test]
fn simbolos_de_los_casilleros() {
    assert_eq!(Casillero::Mina.simbolo(), "*");
    assert_eq!(Casillero::Espacio(0).simbolo(), ".");
    assert_eq!(Casillero::Espacio(5).simbolo(), "5");
    assert_eq!(Casillero::NuevaLinea.simbolo(), "\n");
}

#[test]
fn ida_y_vuelta_de_simbolos() {
    // El simbolo de una mina o de un espacio sin minas adyacentes vuelve a
    // identificarse como la misma celda.
    let simbolo = Casillero::Mina.simbolo().as_bytes()[0];
    assert_eq!(TableroBuilder::identificar(simbolo), Ok(Casillero::Mina));

    let simbolo = Casillero::Espacio(0).simbolo().as_bytes()[0];
    assert_eq!(
        TableroBuilder::identificar(simbolo),
        Ok(Casillero::Espacio(0))
    );

    // La vuelta no vale para un espacio con minas adyacentes: su digito no
    // es un icono de entrada.
    let simbolo = Casillero::Espacio(3).simbolo().as_bytes()[0];
    assert_eq!(simbolo, b'3');
    assert!(TableroBuilder::identificar(simbolo).is_err());

    // Tampoco vale para la marca de fin de fila, que se muestra como salto
    // de linea y no como el separador de entrada.
    let simbolo = Casillero::NuevaLinea.simbolo().as_bytes()[0];
    assert!(TableroBuilder::identificar(simbolo).is_err());
}

#[test]
fn celda_inexistente() {
    let tablero = Tablero {
        ancho: 2,
        largo: 2,
        mapa: vec![
            Casillero::Mina,
            Casillero::Espacio(0),
            Casillero::Espacio(0),
            Casillero::Mina,
        ],
    };
    let fuera = Coordenadas2D::new(2, 0);
    assert_eq!(
        tablero.obtener_indice(&fuera),
        Err(ErrorMapa::CeldaInexistente)
    );
    assert_eq!(
        tablero.obtener_casillero(&fuera),
        Err(ErrorMapa::CeldaInexistente)
    );
    assert_eq!(
        tablero.calcular_minas_adyacentes(4),
        Err(ErrorMapa::CeldaInexistente)
    );

    let dentro = Coordenadas2D::new(1, 1);
    assert_eq!(tablero.obtener_indice(&dentro), Ok(3));
    assert_eq!(tablero.obtener_casillero(&dentro), Ok(Casillero::Mina));
}

#[test]
fn tablero_valido() {
    let builder = TableroBuilder::new("*.-.*-").unwrap();
    let resuelto = builder.crear_tablero().unwrap();
    assert!(resuelto.valido());

    let incompleto = Tablero {
        ancho: 2,
        largo: 2,
        mapa: vec![Casillero::Mina],
    };
    assert!(!incompleto.valido());

    let con_marca = Tablero {
        ancho: 1,
        largo: 1,
        mapa: vec![Casillero::NuevaLinea],
    };
    assert!(!con_marca.valido());

    let contador_excedido = Tablero {
        ancho: 1,
        largo: 1,
        mapa: vec![Casillero::Espacio(9)],
    };
    assert!(!contador_excedido.valido());
}
