use barcode_bot::bitmap::{Bitmap, Rgba};
use barcode_bot::code::{compose, encode, CANVAS_HEIGHT, GAP, LEFT, SIDES, TOP};
use barcode_bot::error::CompositionError;
use image::GenericImage;

type Buffer = image::ImageBuffer<image::Rgba<u8>, Vec<u8>>;

const RED: Rgba = Rgba { r: 200, g: 10, b: 20, a: 255 };
const GLASS: Rgba = Rgba { r: 1, g: 2, b: 3, a: 0 };

fn buffer(bitmap: &Bitmap) -> Buffer {
    Buffer::from_raw(bitmap.width(), bitmap.height(), bitmap.to_bytes().unwrap()).unwrap()
}

#[test]
fn layout_constants() {
    assert_eq!((LEFT, TOP, GAP, SIDES, CANVAS_HEIGHT), (20, 10, 20, 40, 100));
}

#[test]
fn from_pixel_fills_every_pixel() {
    let bitmap = Bitmap::from_pixel(3, 2, RED).unwrap();
    assert_eq!((bitmap.width(), bitmap.height()), (3, 2));
    for y in 0..2 {
        for x in 0..3 {
            assert_eq!(bitmap.get(x, y), Some(RED));
        }
    }
    assert_eq!(bitmap.get(3, 0), None);
    assert_eq!(bitmap.get(0, 2), None);
    assert_eq!(
        bitmap.to_bytes().unwrap(),
        vec![
            200, 10, 20, 255, 200, 10, 20, 255, 200, 10, 20, 255, 200, 10, 20, 255, 200, 10, 20,
            255, 200, 10, 20, 255
        ]
    );
    assert_eq!(bitmap.to_bytes().unwrap(), Buffer::from_pixel(3, 2, image::Rgba([200, 10, 20, 255])).into_raw());
}

#[test]
fn copy_from_overwrites_colour_and_alpha() {
    let mut base = Bitmap::from_pixel(5, 4, Rgba::white()).unwrap();
    let top = Bitmap::from_pixel(2, 2, GLASS).unwrap();
    assert!(base.copy_from(&top, 3, 1));
    for y in 0..4 {
        for x in 0..5 {
            let inside = (3..5).contains(&x) && (1..3).contains(&y);
            assert_eq!(base.get(x, y), Some(if inside { GLASS } else { Rgba::white() }));
        }
    }
}

#[test]
fn copy_from_refuses_what_does_not_fit() {
    let mut base = Bitmap::from_pixel(5, 4, Rgba::white()).unwrap();
    let before = base.to_bytes();
    let top = Bitmap::from_pixel(2, 2, RED).unwrap();
    assert!(!base.copy_from(&top, 4, 0));
    assert!(!base.copy_from(&top, 0, 3));
    assert!(!base.copy_from(&top, u32::MAX, 0));
    assert_eq!(base.to_bytes(), before);
    assert!(base.copy_from(&top, 3, 2));
}

#[test]
fn copy_from_agrees_with_the_image_crate() {
    let mut base = Bitmap::from_pixel(7, 5, Rgba::white()).unwrap();
    let top = encode("\u{00C0}", 2).unwrap();
    let mut wide = Bitmap::from_pixel(40, 5, RED).unwrap();
    let mut theirs = buffer(&wide);
    theirs.copy_from(&buffer(&top), 3, 1).unwrap();
    assert!(wide.copy_from(&top, 3, 1));
    assert_eq!(wide.to_bytes().unwrap(), theirs.into_raw());
    let mut theirs = buffer(&base);
    assert!(theirs.copy_from(&buffer(&top), 0, 0).is_err());
    assert!(!base.copy_from(&top, 0, 0));
}

#[test]
fn rotate270_moves_the_right_column_to_the_top() {
    // 3 wide, 2 tall: a b c / d e f
    let mut bitmap = Bitmap::from_pixel(3, 2, Rgba::white()).unwrap();
    let shade = |n: u8| Rgba { r: n, g: n, b: n, a: 255 };
    for (n, (x, y)) in [(0, 0), (1, 0), (2, 0), (0, 1), (1, 1), (2, 1)].into_iter().enumerate() {
        let dot = Bitmap::from_pixel(1, 1, shade(n as u8)).unwrap();
        assert!(bitmap.copy_from(&dot, x, y));
    }
    let turned = bitmap.rotate270();
    assert_eq!((turned.width(), turned.height()), (2, 3));
    // c f / b e / a d
    let rows: Vec<u8> = (0..3)
        .flat_map(|y| (0..2).map(move |x| (x, y)))
        .map(|(x, y)| turned.get(x, y).unwrap().r)
        .collect();
    assert_eq!(rows, vec![2, 5, 1, 4, 0, 3]);
    assert_eq!(
        turned.to_bytes().unwrap(),
        image::imageops::rotate270(&buffer(&bitmap)).into_raw()
    );
}

#[test]
fn compose_sizes_the_canvas_by_the_wider_symbol() {
    let id = encode("\u{00C0}ABC", 30).unwrap();
    let payload = encode("\u{00C0}HELLO12345", 30).unwrap();
    assert_eq!((id.width(), payload.width()), (68, 145));
    let turned = compose(&id, &payload).unwrap();
    assert_eq!((turned.width(), turned.height()), (100, 185));
    let turned = compose(&payload, &id).unwrap();
    assert_eq!((turned.width(), turned.height()), (100, 185));
    let turned = compose(&id, &id).unwrap();
    assert_eq!((turned.width(), turned.height()), (100, 108));
}

#[test]
fn compose_places_the_symbols_and_turns_the_canvas() {
    let id = Bitmap::from_pixel(3, 30, RED).unwrap();
    let payload = Bitmap::from_pixel(5, 30, GLASS).unwrap();
    let turned = compose(&id, &payload).unwrap();
    assert_eq!((turned.width(), turned.height()), (100, 45));
    for ty in 0..45 {
        for tx in 0..100 {
            // the pixel at (tx, ty) was at column 44 - ty of row tx
            let (x, y) = (44 - ty, tx);
            let expected = if (20..23).contains(&x) && (10..40).contains(&y) {
                RED
            } else if (20..25).contains(&x) && (60..90).contains(&y) {
                GLASS
            } else {
                Rgba::white()
            };
            assert_eq!(turned.get(tx, ty), Some(expected), "({tx}, {ty})");
        }
    }
}

#[test]
fn compose_agrees_with_the_image_crate() {
    let id = encode("\u{00C0}ABC", 30).unwrap();
    let payload = encode("\u{00C0}HELLO12345", 30).unwrap();
    let mut base = Buffer::from_pixel(145 + 40, 30 * 2 + 40, image::Rgba([255, 255, 255, 255]));
    base.copy_from(&buffer(&id), 20, 10).unwrap();
    base.copy_from(&buffer(&payload), 20, 30 + 30).unwrap();
    let theirs = image::imageops::rotate270(&base);
    let ours = compose(&id, &payload).unwrap();
    assert_eq!((ours.width(), ours.height()), (theirs.width(), theirs.height()));
    assert_eq!(ours.to_bytes().unwrap(), theirs.into_raw());
}

#[test]
fn compose_takes_symbols_of_other_heights_that_fit() {
    let id = Bitmap::from_pixel(4, 1, RED).unwrap();
    let payload = Bitmap::from_pixel(2, 69, GLASS).unwrap();
    let turned = compose(&id, &payload).unwrap();
    assert_eq!((turned.width(), turned.height()), (100, 44));
    // payload starts in row 10 + 1 + 20 and ends with the canvas
    assert_eq!(turned.get(30, 43 - 20), Some(Rgba::white()));
    assert_eq!(turned.get(31, 43 - 20), Some(GLASS));
    assert_eq!(turned.get(99, 43 - 21), Some(GLASS));
    assert_eq!(turned.get(99, 43 - 22), Some(Rgba::white()));
}

#[test]
fn compose_refuses_an_empty_symbol() {
    let good = Bitmap::from_pixel(4, 30, RED).unwrap();
    for (w, h) in [(0, 30), (4, 0), (0, 0)] {
        let empty = Bitmap::from_pixel(w, h, RED).unwrap();
        assert_eq!(compose(&empty, &good).unwrap_err(), CompositionError::EmptySymbol);
        assert_eq!(compose(&good, &empty).unwrap_err(), CompositionError::EmptySymbol);
    }
    let flat = encode("\u{00C0}ABC", 0).unwrap();
    assert_eq!(compose(&flat, &good).unwrap_err(), CompositionError::EmptySymbol);
}

#[test]
fn compose_refuses_symbols_too_tall_for_the_canvas() {
    let good = Bitmap::from_pixel(4, 30, RED).unwrap();
    let tall = Bitmap::from_pixel(4, 41, RED).unwrap();
    assert_eq!(compose(&good, &tall).unwrap_err(), CompositionError::OutOfCanvas);
    assert_eq!(compose(&tall, &good).unwrap_err(), CompositionError::OutOfCanvas);
    let fits = Bitmap::from_pixel(4, 40, RED).unwrap();
    assert!(compose(&good, &fits).is_ok());
    let huge = Bitmap::from_pixel(1, 200, RED).unwrap();
    assert_eq!(compose(&huge, &good).unwrap_err(), CompositionError::OutOfCanvas);
}
