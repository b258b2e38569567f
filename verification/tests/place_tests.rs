use place_rs::place::{Place};
use place_rs::{Color, Error, MaybePixel, Pixel, PixelWithLocation, User, XY};

fn painted(x: u64, y: u64, r: u8, artist: &str) -> PixelWithLocation {
    PixelWithLocation::new(
        MaybePixel::Pixel(Pixel { color: Color { r, g: 2, b: 3 }, artist_id: artist.to_string() }),
        XY { x, y },
    )
}

#[test]
fn new_place_has_requested_size_and_blank_cells() {
    let p = Place::new(XY { x: 3, y: 2 });
    assert_eq!(p.data.len(), 2);
    assert!(p.data.iter().all(|row| row.len() == 3));
    assert!(p.users.is_empty());
    let blank = PixelWithLocation { pixel: MaybePixel::Empty, location: XY { x: 0, y: 0 } };
    assert_eq!(p.data[1][2], blank);
    assert_eq!(XY::from_nested_vec(&p.data), Ok(XY { x: 3, y: 2 }));
}

#[test]
fn set_then_get_pixel_reads_back() {
    let mut p = Place::new(XY { x: 4, y: 3 });
    let px = painted(2, 1, 9, "ann");
    assert_eq!(p.set_pixel(px.clone()), Ok(()));
    assert_eq!(p.get_pixel(XY { x: 2, y: 1 }), Ok(px));
    let other = p.get_pixel(XY { x: 1, y: 2 }).unwrap();
    assert_eq!(other.pixel, MaybePixel::Empty);
}

#[test]
fn pixel_out_of_bounds_is_refused() {
    let mut p = Place::new(XY { x: 2, y: 2 });
    let before = p.clone_for_test();
    assert_eq!(p.set_pixel(painted(2, 0, 1, "a")), Err(Error::PixelOutOfBounds));
    assert_eq!(p.set_pixel(painted(0, 2, 1, "a")), Err(Error::PixelOutOfBounds));
    assert_eq!(p, before);
    assert_eq!(p.get_pixel(XY { x: 5, y: 0 }), Err(Error::PixelOutOfBounds));
    assert_eq!(Error::PixelOutOfBounds.message(), "Pixel out of bounds");
}

trait CloneForTest {
    fn clone_for_test(&self) -> Self;
}

impl CloneForTest for Place {
    fn clone_for_test(&self) -> Place {
        Place { data: self.data.clone(), users: self.users.clone() }
    }
}

#[test]
fn can_address_matches_panic_free_access() {
    let empty = Place { data: vec![], users: vec![] };
    assert!(!empty.can_address(XY { x: 0, y: 0 }));
    let ragged = Place {
        data: vec![vec![PixelWithLocation::default(); 3], vec![PixelWithLocation::default(); 1]],
        users: vec![],
    };
    assert!(ragged.can_address(XY { x: 0, y: 1 }));
    assert!(!ragged.can_address(XY { x: 2, y: 1 }));
    assert!(ragged.can_address(XY { x: 7, y: 1 }));
}

#[test]
fn set_user_then_get_user() {
    let mut p = Place::new(XY { x: 1, y: 1 });
    assert_eq!(p.set_user(User { name: "Ann".to_string(), id: "1".to_string() }), Ok(()));
    assert_eq!(p.set_user(User { name: "Bob".to_string(), id: "2".to_string() }), Ok(()));
    assert_eq!(p.set_user(User { name: "Anna".to_string(), id: "1".to_string() }), Ok(()));
    assert_eq!(p.users.len(), 2);
    assert_eq!(p.get_user("1".to_string()), Some(User { name: "Anna".to_string(), id: "1".to_string() }));
    assert_eq!(p.get_user("2".to_string()), Some(User { name: "Bob".to_string(), id: "2".to_string() }));
    assert_eq!(p.get_user("3".to_string()), None);
}

#[test]
fn from_nested_vec_errors() {
    let empty: Vec<Vec<PixelWithLocation>> = vec![];
    assert_eq!(XY::from_nested_vec(&empty), Err(Error::EmptyVec));
    assert_eq!(Error::EmptyVec.message(), "Empty vec");
    let uneven = vec![vec![PixelWithLocation::default(); 2], vec![PixelWithLocation::default(); 3]];
    assert_eq!(XY::from_nested_vec(&uneven), Err(Error::UnevenVec));
    assert_eq!(Error::UnevenVec.message(), "Uneven vec");
}

#[test]
fn size_differs_compares_with_configured_size() {
    let p = Place::new(XY { x: 5, y: 4 });
    assert!(!p.size_differs(XY { x: 5, y: 4 }));
    assert!(p.size_differs(XY { x: 4, y: 5 }));
}

#[test]
fn into_full_signs_the_pixel() {
    let g = place_rs::GenericPixelWithLocation { color: Color { r: 1, g: 2, b: 3 }, location: XY { x: 4, y: 5 } };
    let full = g.into_full("me".to_string());
    assert_eq!(full, painted(4, 5, 1, "me"));
}

#[test]
fn shared_hash_is_identity() {
    assert_eq!(place_rs::hash("abc".to_string()), "abc");
}

#[test]
fn error_messages() {
    assert_eq!(Error::NoUser("42".to_string()).message(), "No user with id 42 found");
    assert_eq!(Error::YOutOfBounds(17).message(), "Index 17 on y out of bounds");
    assert_eq!(Error::XOutOfBounds(0).message(), "Index 0 on x out of bounds");
    assert_eq!(Error::AlreadyHasColor.message(), "Pixel already has color");
    assert_eq!(Error::NotAPixel.message(), "Pixel is not a pixel");
    assert_eq!(Error::EmptyImage.message(), "Empty image");
    assert_eq!(Error::Codec("bad".to_string()).message(), "bad");
}
