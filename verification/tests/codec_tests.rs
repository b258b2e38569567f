use place_rs::codec::{grid_rgba, gunzip_bytes, gzip_bytes};
use place_rs::{Color, Error, MaybePixel, Pixel, PixelWithLocation, Place, XY};

#[test]
fn gzip_round_trip() {
    let data = b"{\"data\":[[1,2,3]],\"users\":{}}".to_vec();
    let z = gzip_bytes(&data).unwrap();
    assert_ne!(z, data);
    assert_eq!(&z[0..3], &[0x1f, 0x8b, 0x08]);
    assert_eq!(gunzip_bytes(&z).unwrap(), data);
    let empty = gzip_bytes(&[]).unwrap();
    assert_eq!(gunzip_bytes(&empty).unwrap(), Vec::<u8>::new());
}

#[test]
fn gunzip_of_garbage_fails() {
    let r = gunzip_bytes(b"not gzip at all");
    assert!(matches!(r, Err(Error::Codec(_))));
}

#[test]
fn rgba_of_grid() {
    let mut place = Place::new(XY { x: 2, y: 1 });
    place
        .set_pixel(PixelWithLocation::new(
            MaybePixel::Pixel(Pixel { color: Color { r: 9, g: 8, b: 7 }, artist_id: "a".to_string() }),
            XY { x: 1, y: 0 },
        ))
        .unwrap();
    let (rows, cols, bytes) = grid_rgba(&place.data).unwrap();
    assert_eq!((rows, cols), (1, 2));
    assert_eq!(bytes, vec![0, 0, 0, 255, 9, 8, 7, 255]);
    let empty: Vec<Vec<PixelWithLocation>> = vec![];
    assert_eq!(grid_rgba(&empty), Err(Error::EmptyImage));
}

#[test]
fn png_of_canvas() {
    let mut place = Place::new(XY { x: 3, y: 2 });
    place.data[1].truncate(1);
    let png = place.png_image().unwrap();
    assert_eq!(&png[0..8], &[0x89, b'P', b'N', b'G', 0x0d, 0x0a, 0x1a, 0x0a]);
    // IHDR: width 3, height 2
    assert_eq!(&png[16..24], &[0, 0, 0, 3, 0, 0, 0, 2]);
}

#[test]
fn png_of_zero_width_canvas_fails() {
    let place = Place { data: vec![vec![], vec![]], users: vec![] };
    assert!(matches!(place.png_image(), Err(Error::Codec(_))));
}
