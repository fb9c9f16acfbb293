use buscaminas::tablero::casillero::Casillero;
use buscaminas::tablero::coordenada::Coordenadas2D;
use buscaminas::tablero::Tablero;

#[test]
fn calcular_minas_adyacentes_tablero_vacio() {
    let tablero = Tablero {
        ancho: 2,
        largo: 2,
        mapa: vec![
            Casillero::Espacio(0),
            Casillero::Espacio(0),
            Casillero::Espacio(0),
            Casillero::Espacio(0),
        ],
    };
    let esperado = 0;
    for _i in 0..4 {
        let resultado = tablero.calcular_minas_adyacentes(_i).unwrap();
        assert_eq!(resultado, esperado)
    }
}

#[test]
fn calcular_minas_adyacentes_tablero_lleno() {
    let tablero = Tablero {
        ancho: 2,
        largo: 2,
        mapa: vec![
            Casillero::Mina,
            Casillero::Mina,
            Casillero::Mina,
            Casillero::Mina,
        ],
    };
    let esperado = 0;
    for _i in 0..4 {
        let resultado = tablero.calcular_minas_adyacentes(_i).unwrap();
        assert_eq!(resultado, esperado)
    }
}

#[test]
fn calcular_minas_adyacentes_tablero_mixto() {
    let tablero = Tablero {
        ancho: 3,
        largo: 2,
        mapa: vec![
            Casillero::Mina,
            Casillero::Espacio(0),
            Casillero::Mina,
            Casillero::Espacio(0),
            Casillero::Mina,
            Casillero::Mina,
        ],
    };
    // *.* > *4*
    // .** > 2**

    let esperado = 4;
    let resultado = tablero.calcular_minas_adyacentes(1).unwrap();
    assert_eq!(resultado, esperado);

    let esperado = 2;
    let resultado = tablero.calcular_minas_adyacentes(3).unwrap();
    assert_eq!(resultado, esperado);
}

#[test]
fn resolver_tablero_vacio() {
    let tablero = Tablero {
        ancho: 2,
        largo: 2,
        mapa: vec![
            Casillero::Espacio(0),
            Casillero::Espacio(0),
            Casillero::Espacio(0),
            Casillero::Espacio(0),
        ],
    };
    let resultado = tablero.resolver().unwrap();
    assert_eq!(resultado, tablero);
}

#[test]
fn resolver_tablero_lleno() {
    let tablero = Tablero {
        ancho: 2,
        largo: 2,
        mapa: vec![
            Casillero::Mina,
            Casillero::Mina,
            Casillero::Mina,
            Casillero::Mina,
        ],
    };
    let resultado = tablero.resolver().unwrap();
    assert_eq!(resultado, tablero);
}

#[test]
fn resolver_tablero_mixto() {
    let tablero = Tablero {
        ancho: 3,
        largo: 2,
        mapa: vec![
            Casillero::Mina,
            Casillero::Espacio(0),
            Casillero::Mina,
            Casillero::Espacio(0),
            Casillero::Mina,
            Casillero::Mina,
        ],
    };
    let resultado = tablero.resolver().unwrap();
    let esperado = Tablero {
        ancho: 3,
        largo: 2,
        mapa: vec![
            Casillero::Mina,
            Casillero::Espacio(4),
            Casillero::Mina,
            Casillero::Espacio(2),
            Casillero::Mina,
            Casillero::Mina,
        ],
    };
    assert_eq!(resultado, esperado);
}

#[test]
fn transformar_coordenada_a_indice() {
    let tablero = Tablero {
        ancho: 5,
        largo: 5,
        mapa: vec![],
    };
    let coordenada = Coordenadas2D::new(4, 3);
    //  0, 1, 2, 3, 4
    //  5, 6, 7, 8, 9
    // 10,11,12,13,14
    // 15,16,17,18,[19]
    // 20,21,22,23,24
    let esperado = 19;
    let resultado = tablero.obtener_indice(&coordenada).unwrap();
    assert_eq!(resultado, esperado);
}
