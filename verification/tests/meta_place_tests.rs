use place_rs::meta_place::addressed_message;
use place_rs::{ChatMsg, Color, Error, MaybePixel, MetaPlace, Pixel, PixelWithLocation, Place, ToClientMsg, Update, User, XY};
use tokio::sync::mpsc::{unbounded_channel, UnboundedReceiver};

fn meta(w: u64, h: u64) -> MetaPlace {
    MetaPlace { place: Place::new(XY { x: w, y: h }), websockets: vec![] }
}

fn connect(m: &mut MetaPlace, id: &str) -> (Option<User>, UnboundedReceiver<ToClientMsg>) {
    let (tx, rx) = unbounded_channel();
    (m.add_websocket(id.to_string(), tx), rx)
}

fn pixel(x: u64, y: u64, r: u8, artist: &str) -> PixelWithLocation {
    PixelWithLocation::new(
        MaybePixel::Pixel(Pixel { color: Color { r, g: 0, b: 0 }, artist_id: artist.to_string() }),
        XY { x, y },
    )
}

#[test]
fn add_websocket_returns_known_user() {
    let mut m = meta(2, 2);
    m.place.set_user(User { name: "Ann".to_string(), id: "a".to_string() }).unwrap();
    let (u, _rx) = connect(&mut m, "a");
    assert_eq!(u, Some(User { name: "Ann".to_string(), id: "a".to_string() }));
    let (v, _ry) = connect(&mut m, "b");
    assert_eq!(v, None);
    assert_eq!(m.websockets.len(), 2);
    assert!(!m.websockets[0].closed);
}

#[test]
fn remove_websocket_drops_all_of_one_client() {
    let mut m = meta(1, 1);
    let (_, _r1) = connect(&mut m, "a");
    let (_, _r2) = connect(&mut m, "b");
    let (_, _r3) = connect(&mut m, "a");
    m.remove_websocket("a");
    let ids: Vec<&str> = m.websockets.iter().map(|w| w.id.as_str()).collect();
    assert_eq!(ids, vec!["b"]);
    m.remove_websocket("zzz");
    assert_eq!(m.websockets.len(), 1);
}

#[test]
fn update_pixel_broadcasts_with_nonce_to_painter_only() {
    let mut m = meta(3, 3);
    let (_, mut ra) = connect(&mut m, "a");
    let (_, mut rb) = connect(&mut m, "b");
    let p = pixel(1, 2, 200, "a");
    assert_eq!(m.update_pixel(&p, Some("n7".to_string())), Ok(()));
    assert_eq!(m.place.data[2][1], p);
    assert_eq!(ra.try_recv().unwrap(), ToClientMsg::PixelUpdate(Some("n7".to_string()), p.clone()));
    assert_eq!(rb.try_recv().unwrap(), ToClientMsg::PixelUpdate(None, p.clone()));
    assert_eq!(m.websockets.len(), 2);
}

#[test]
fn update_pixel_refusals() {
    let mut m = meta(3, 2);
    let blank = PixelWithLocation { pixel: MaybePixel::Empty, location: XY { x: 0, y: 0 } };
    assert_eq!(m.update_pixel(&blank, None), Err(Error::NotAPixel));
    assert_eq!(m.update_pixel(&pixel(0, 2, 1, "a"), None), Err(Error::YOutOfBounds(2)));
    assert_eq!(m.update_pixel(&pixel(3, 1, 1, "a"), None), Err(Error::XOutOfBounds(3)));
    assert_eq!(m.update_pixel(&pixel(1, 1, 5, "a"), None), Ok(()));
    assert_eq!(m.update_pixel(&pixel(1, 1, 5, "b"), None), Err(Error::AlreadyHasColor));
    assert_eq!(m.update_pixel(&pixel(1, 1, 6, "b"), None), Ok(()));
    assert_eq!(m.place.data[1][1], pixel(1, 1, 6, "b"));
}

#[test]
fn closed_client_is_dropped_on_broadcast() {
    let mut m = meta(2, 2);
    let (_, rx_a) = connect(&mut m, "a");
    let (_, mut rx_b) = connect(&mut m, "b");
    drop(rx_a);
    m.send_chat_msg(ChatMsg { user_id: "b".to_string(), msg: "hi".to_string() }, Some("n".to_string())).unwrap();
    let ids: Vec<&str> = m.websockets.iter().map(|w| w.id.as_str()).collect();
    assert_eq!(ids, vec!["b"]);
    assert_eq!(
        rx_b.try_recv().unwrap(),
        ToClientMsg::ChatMsg(Some("n".to_string()), ChatMsg { user_id: "b".to_string(), msg: "hi".to_string() })
    );
}

#[test]
fn add_user_and_update_username() {
    let mut m = meta(1, 1);
    let (_, mut ra) = connect(&mut m, "a");
    let ann = User { name: "Ann".to_string(), id: "a".to_string() };
    m.add_user(ann.clone(), Some("n1".to_string())).unwrap();
    assert_eq!(ra.try_recv().unwrap(), ToClientMsg::UserUpdate(Some("n1".to_string()), ann.clone()));
    assert_eq!(m.update_username("a", "Anne", Some("n2".to_string())), Ok(()));
    let anne = User { name: "Anne".to_string(), id: "a".to_string() };
    assert_eq!(m.place.get_user("a".to_string()), Some(anne.clone()));
    assert_eq!(ra.try_recv().unwrap(), ToClientMsg::UserUpdate(Some("n2".to_string()), anne));
    assert_eq!(m.update_username("zz", "X", None), Err(Error::NoUser("zz".to_string())));
}

#[test]
fn store_pixel_writes_cell() {
    let mut m = meta(2, 2);
    let p = pixel(0, 1, 3, "a");
    m.store_pixel(&p);
    assert_eq!(m.place.data[1][0], p);
}

#[test]
fn addressed_message_gives_nonce_to_origin() {
    let u = Update::Chat(ChatMsg { user_id: "a".to_string(), msg: "m".to_string() });
    let nonce = Some("n".to_string());
    let to_a = addressed_message(&"a".to_string(), &"a".to_string(), &nonce, &u);
    let to_b = addressed_message(&"b".to_string(), &"a".to_string(), &nonce, &u);
    assert!(matches!(to_a, ToClientMsg::ChatMsg(Some(ref n), _) if n == "n"));
    assert!(matches!(to_b, ToClientMsg::ChatMsg(None, _)));
}

#[test]
fn remove_undoes_add_for_new_client() {
    let mut m = meta(1, 1);
    let (_, _r1) = connect(&mut m, "a");
    let (_, _r2) = connect(&mut m, "b");
    let before: Vec<String> = m.websockets.iter().map(|w| w.id.clone()).collect();
    let (_, _r3) = connect(&mut m, "c");
    m.remove_websocket("c");
    let after: Vec<String> = m.websockets.iter().map(|w| w.id.clone()).collect();
    assert_eq!(before, after);
}

#[test]
fn check_pixel_tells_refusal_without_changing() {
    let mut m = meta(2, 2);
    assert_eq!(m.check_pixel(&pixel(5, 0, 1, "a")), Some(Error::XOutOfBounds(5)));
    assert_eq!(m.check_pixel(&pixel(0, 0, 1, "a")), None);
    m.update_pixel(&pixel(0, 0, 1, "a"), None).unwrap();
    assert_eq!(m.check_pixel(&pixel(0, 0, 1, "b")), Some(Error::AlreadyHasColor));
    assert!(MaybePixel::Empty.is_empty());
}
