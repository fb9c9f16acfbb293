use buscaminas::tablero::coordenada::Coordenadas2D;

#[test]
fn crear_nueva_coordenada() {
    let coordenada = Coordenadas2D::new(2, 3);
    let esperado = Coordenadas2D { x: 2, y: 3 };

    assert_eq!(coordenada, esperado);
}

#[test]
fn obtener_indices_adayecentes() {
    // Asumo mapa 3x3
    let ancho = 3;
    let largo = 3;
    // 0,1,2
    // 3,4,5
    // 6,7,8

    //Borde oeste -> x = 0
    let resultado = Coordenadas2D::obtener_coordenada_adyacente(0, ancho);
    let esperado = vec![0, 1];
    for (r, e) in resultado.iter().zip(esperado.iter()) {
        assert_eq!(r, e);
    }

    //Borde este -> x = ancho - 1
    let resultado = Coordenadas2D::obtener_coordenada_adyacente(ancho - 1, ancho);
    let esperado = vec![ancho - 2, ancho - 1];
    for (r, e) in resultado.iter().zip(esperado.iter()) {
        assert_eq!(r, e);
    }
    //Borde norte -> y = 0 // Analogo a borde oeste
    let resultado = Coordenadas2D::obtener_coordenada_adyacente(0, largo);
    let esperado = vec![0, 1];
    for (r, e) in resultado.iter().zip(esperado.iter()) {
        assert_eq!(r, e);
    }
    //Borde sur -> y = largo - 1 // Analogo a borde este
    let resultado = Coordenadas2D::obtener_coordenada_adyacente(largo - 1, largo);
    let esperado = vec![largo - 2, largo - 1];
    for (r, e) in resultado.iter().zip(esperado.iter()) {
        assert_eq!(r, e);
    }

    //Coordenada interna -> x o y, distinto a los casos anteriores
    let resultado = Coordenadas2D::obtener_coordenada_adyacente(ancho - 2, ancho);
    let esperado = vec![ancho - 3, ancho - 2, ancho - 1];
    for (r, e) in resultado.iter().zip(esperado.iter()) {
        assert_eq!(r, e);
    }

    //Coordenada interna -> x o y, distinto a los casos anteriores
    let resultado = Coordenadas2D::obtener_coordenada_adyacente(largo - 2, largo);
    let esperado = vec![largo - 3, largo - 2, largo - 1];
    for (r, e) in resultado.iter().zip(esperado.iter()) {
        assert_eq!(r, e);
    }
}

#[test]
fn obtener_coordenadas_adyacentes() {
    //Asumo un mapa 3x3
    let ancho = 3;
    let largo = 3;
    // (0,0) , (1,0) , (2,0)
    // (0,1) , (1,1) , (2,1)
    // (0,2) , (1,2) , (2,2)
    let coordenada = Coordenadas2D::new(0, 0);
    let resultado = coordenada.coordenadas_adyacentes(ancho, largo);
    let esperado = vec![
        Coordenadas2D::new(0, 1),
        Coordenadas2D::new(1, 0),
        Coordenadas2D::new(1, 1),
    ];
    for (r, e) in resultado.iter().zip(esperado.iter()) {
        assert_eq!(r, e);
    }

    let coordenada = Coordenadas2D::new(1, 0);
    let resultado = coordenada.coordenadas_adyacentes(ancho, largo);
    let esperado = vec![
        Coordenadas2D::new(0, 0),
        Coordenadas2D::new(0, 1),
        Coordenadas2D::new(1, 1),
        Coordenadas2D::new(2, 0),
        Coordenadas2D::new(2, 1),
    ];
    for (r, e) in resultado.iter().zip(esperado.iter()) {
        assert_eq!(r, e);
    }

    let coordenada = Coordenadas2D::new(2, 0);
    let resultado = coordenada.coordenadas_adyacentes(ancho, largo);
    let esperado = vec![
        Coordenadas2D::new(1, 0),
        Coordenadas2D::new(1, 1),
        Coordenadas2D::new(2, 1),
        Coordenadas2D::new(1, 1),
        Coordenadas2D::new(1, 2),
    ];
    for (r, e) in resultado.iter().zip(esperado.iter()) {
        assert_eq!(r, e);
    }

    let coordenada = Coordenadas2D::new(0, 1);
    let resultado = coordenada.coordenadas_adyacentes(ancho, largo);
    let esperado = vec![
        Coordenadas2D::new(0, 0),
        Coordenadas2D::new(0, 2),
        Coordenadas2D::new(1, 0),
        Coordenadas2D::new(1, 1),
        Coordenadas2D::new(1, 2),
    ];
    for (r, e) in resultado.iter().zip(esperado.iter()) {
        assert_eq!(r, e);
    }

    let coordenada = Coordenadas2D::new(1, 1);
    let resultado = coordenada.coordenadas_adyacentes(ancho, largo);
    let esperado = vec![
        Coordenadas2D::new(0, 0),
        Coordenadas2D::new(0, 1),
        Coordenadas2D::new(0, 2),
        Coordenadas2D::new(1, 0),
        Coordenadas2D::new(1, 2),
        Coordenadas2D::new(2, 0),
        Coordenadas2D::new(2, 1),
        Coordenadas2D::new(2, 2),
    ];
    for (r, e) in resultado.iter().zip(esperado.iter()) {
        assert_eq!(r, e);
    }

    let coordenada = Coordenadas2D::new(2, 1);
    let resultado = coordenada.coordenadas_adyacentes(ancho, largo);
    let esperado = vec![
        Coordenadas2D::new(1, 0),
        Coordenadas2D::new(1, 1),
        Coordenadas2D::new(1, 2),
        Coordenadas2D::new(2, 0),
        Coordenadas2D::new(2, 2),
    ];
    for (r, e) in resultado.iter().zip(esperado.iter()) {
        assert_eq!(r, e);
    }

    let coordenada = Coordenadas2D::new(0, 2);
    let resultado = coordenada.coordenadas_adyacentes(ancho, largo);
    let esperado = vec![
        Coordenadas2D::new(0, 1),
        Coordenadas2D::new(1, 1),
        Coordenadas2D::new(1, 2),
    ];
    for (r, e) in resultado.iter().zip(esperado.iter()) {
        assert_eq!(r, e);
    }

    let coordenada = Coordenadas2D::new(1, 2);
    let resultado = coordenada.coordenadas_adyacentes(ancho, largo);
    let esperado = vec![
        Coordenadas2D::new(0, 1),
        Coordenadas2D::new(0, 2),
        Coordenadas2D::new(1, 1),
        Coordenadas2D::new(2, 1),
        Coordenadas2D::new(2, 2),
    ];
    for (r, e) in resultado.iter().zip(esperado.iter()) {
        assert_eq!(r, e);
    }

    let coordenada = Coordenadas2D::new(2, 2);
    let resultado = coordenada.coordenadas_adyacentes(ancho, largo);
    let esperado = vec![
        Coordenadas2D::new(1, 1),
        Coordenadas2D::new(1, 2),
        Coordenadas2D::new(2, 1),
    ];
    for (r, e) in resultado.iter().zip(esperado.iter()) {
        assert_eq!(r, e);
    }
}
