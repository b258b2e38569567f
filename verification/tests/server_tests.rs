use place_rs::server::{hash, interface_answer, InterfaceKind, PlaceDelivery, Reply, Timeouts, WsConnection};
use place_rs::{Color, Error, GenericPixelWithLocation, MetaPlace, Place, TimeoutType, ToClientMsg, ToServerMsg, User, XY};

fn limits() -> Timeouts {
    Timeouts { paint: 10, username: 60, chat: 2 }
}

fn setup() -> (WsConnection, Timeouts, MetaPlace) {
    (
        WsConnection::new("peer".to_string(), None),
        Timeouts::default(),
        MetaPlace { place: Place::new(XY { x: 4, y: 4 }), websockets: vec![] },
    )
}

fn err_text(r: &Reply) -> Option<(Option<String>, String)> {
    match r {
        Reply::Text(ToClientMsg::GenericError(n, m)) => Some((n.clone(), m.clone())),
        _ => None,
    }
}

#[test]
fn sha256_hex_hash() {
    assert_eq!(hash("abc".to_string()), "ba7816bf8f01cfea414140de5dae2223b00361a396177a9cb410ff61f20015ad");
    assert_eq!(hash("127.0.0.1".to_string()).len(), 64);
}

#[test]
fn heartbeat_rules() {
    let (mut c, mut t, mut m) = setup();
    let r = c.handle_request(&mut t, &mut m, &limits(), 100, ToServerMsg::Heartbeat("h".to_string()));
    assert_eq!(err_text(&r), Some((Some("h".to_string()), "SHUT THE FUCK UP".to_string())));
    assert!(c.heartbeat_tick(2));
    assert!(c.heartbeat_tick(2));
    assert!(!c.heartbeat_tick(2));
    assert_eq!(c.sent_heartbeats, 2);
    let r = c.handle_request(&mut t, &mut m, &limits(), 100, ToServerMsg::Heartbeat("h".to_string()));
    assert_eq!(r, Reply::Silent);
    assert_eq!(c.sent_heartbeats, 0);
}

#[test]
fn set_name_creates_then_renames_with_cooldown() {
    let (mut c, mut t, mut m) = setup();
    let r = c.handle_request(&mut t, &mut m, &limits(), 100, ToServerMsg::SetName("n1".to_string(), "Ann".to_string()));
    assert_eq!(r, Reply::Silent);
    assert_eq!(c.user, Some(User { name: "Ann".to_string(), id: "peer".to_string() }));
    assert_eq!(t.username, 160);
    let r = c.handle_request(&mut t, &mut m, &limits(), 130, ToServerMsg::SetName("n2".to_string(), "Bob".to_string()));
    assert_eq!(r, Reply::Text(ToClientMsg::TimeoutError(Some("n2".to_string()), TimeoutType::Username(30))));
    let r = c.handle_request(&mut t, &mut m, &limits(), 160, ToServerMsg::SetName("n3".to_string(), "Bob".to_string()));
    assert_eq!(r, Reply::Silent);
    assert_eq!(m.place.get_user("peer".to_string()).unwrap().name, "Bob");
    assert_eq!(t.username, 220);
}

#[test]
fn rename_of_unknown_user_reports_error() {
    let mut c = WsConnection::new("peer".to_string(), Some(User { name: "Old".to_string(), id: "ghost".to_string() }));
    let mut t = Timeouts::default();
    let mut m = MetaPlace { place: Place::new(XY { x: 1, y: 1 }), websockets: vec![] };
    let r = c.handle_request(&mut t, &mut m, &limits(), 5, ToServerMsg::SetName("n".to_string(), "X".to_string()));
    assert_eq!(err_text(&r), Some((Some("n".to_string()), "No user with id ghost found".to_string())));
}

#[test]
fn set_pixel_needs_user_and_respects_cooldown() {
    let (mut c, mut t, mut m) = setup();
    let req = GenericPixelWithLocation { color: Color { r: 1, g: 1, b: 1 }, location: XY { x: 1, y: 1 } };
    let r = c.handle_request(&mut t, &mut m, &limits(), 100, ToServerMsg::SetPixel("p".to_string(), req));
    assert_eq!(err_text(&r), Some((Some("p".to_string()), "You must set a username before painting".to_string())));
    c.handle_request(&mut t, &mut m, &limits(), 100, ToServerMsg::SetName("n".to_string(), "Ann".to_string()));
    let r = c.handle_request(&mut t, &mut m, &limits(), 100, ToServerMsg::SetPixel("p".to_string(), req));
    assert_eq!(r, Reply::Silent);
    assert_eq!(t.paint, 110);
    assert_eq!(m.place.data[1][1], req.into_full("peer".to_string()));
    let r = c.handle_request(&mut t, &mut m, &limits(), 105, ToServerMsg::SetPixel("q".to_string(), req));
    assert_eq!(r, Reply::Text(ToClientMsg::TimeoutError(Some("q".to_string()), TimeoutType::Pixel(5))));
    let r = c.handle_request(&mut t, &mut m, &limits(), 110, ToServerMsg::SetPixel("q".to_string(), req));
    assert_eq!(err_text(&r), Some((Some("q".to_string()), "Pixel already has color".to_string())));
    assert_eq!(t.paint, 110);
    let far = GenericPixelWithLocation { color: Color { r: 1, g: 1, b: 1 }, location: XY { x: 9, y: 1 } };
    let r = c.handle_request(&mut t, &mut m, &limits(), 110, ToServerMsg::SetPixel("f".to_string(), far));
    assert_eq!(err_text(&r), Some((Some("f".to_string()), "Index 9 on x out of bounds".to_string())));
}

#[test]
fn chat_needs_user_and_respects_cooldown() {
    let (mut c, mut t, mut m) = setup();
    let r = c.handle_request(&mut t, &mut m, &limits(), 50, ToServerMsg::ChatMsg("c".to_string(), "hi".to_string()));
    assert_eq!(err_text(&r), Some((Some("c".to_string()), "You must set a username before chatting".to_string())));
    c.handle_request(&mut t, &mut m, &limits(), 50, ToServerMsg::SetName("n".to_string(), "Ann".to_string()));
    let r = c.handle_request(&mut t, &mut m, &limits(), 50, ToServerMsg::ChatMsg("c".to_string(), "hi".to_string()));
    assert_eq!(r, Reply::Silent);
    let r = c.handle_request(&mut t, &mut m, &limits(), 51, ToServerMsg::ChatMsg("d".to_string(), "hi".to_string()));
    assert_eq!(r, Reply::Text(ToClientMsg::TimeoutError(Some("d".to_string()), TimeoutType::Chat(1))));
}

#[test]
fn place_is_sent_once() {
    let (mut c, mut t, mut m) = setup();
    let r = c.handle_request(&mut t, &mut m, &limits(), 1, ToServerMsg::RequestPlace("binary".to_string()));
    assert_eq!(r, Reply::SendPlace);
    assert!(c.place_requested);
    // A second request before the canvas arrives is refused too.
    let r = c.handle_request(&mut t, &mut m, &limits(), 1, ToServerMsg::RequestPlace("binary".to_string()));
    assert_eq!(err_text(&r), Some((Some("binary".to_string()), "You have already requested the place".to_string())));
    assert_eq!(c.place_ready(Ok(vec![1, 2])), PlaceDelivery::Binary(vec![1, 2]));
    assert!(c.place_requested);
    let r = c.handle_request(&mut t, &mut m, &limits(), 1, ToServerMsg::RequestPlace("binary".to_string()));
    assert_eq!(err_text(&r), Some((Some("binary".to_string()), "You have already requested the place".to_string())));
    let mut d = WsConnection::new("x".to_string(), None);
    assert_eq!(
        d.place_ready(Err(Error::Codec("boom".to_string()))),
        PlaceDelivery::Text(ToClientMsg::GenericError(None, "boom".to_string()))
    );
    assert!(!d.place_requested);
    // A failed download lets the client ask again.
    let mut e = WsConnection::new("y".to_string(), None);
    assert_eq!(e.handle_request(&mut t, &mut m, &limits(), 1, ToServerMsg::RequestPlace("binary".to_string())), Reply::SendPlace);
    e.place_ready(Err(Error::Codec("boom".to_string())));
    assert!(!e.place_requested);
    assert_eq!(e.handle_request(&mut t, &mut m, &limits(), 1, ToServerMsg::RequestPlace("binary".to_string())), Reply::SendPlace);
}

#[test]
fn interface_prompt_answers() {
    assert_eq!(interface_answer(" json\n"), Some(InterfaceKind::Json));
    assert_eq!(interface_answer("gzip"), Some(InterfaceKind::Gzip));
    assert_eq!(interface_answer("postgres\r\n"), Some(InterfaceKind::Postgres));
    assert_eq!(interface_answer("sqlite"), None);
}

#[test]
fn chat_cooldown_setting_is_in_milliseconds() {
    let t = Timeouts::from_settings(5, 60, 2500);
    assert_eq!(t, Timeouts { paint: 5, username: 60, chat: 3 });
    assert_eq!(Timeouts::from_settings(1, 2, 3000).chat, 3);
    assert_eq!(Timeouts::from_settings(1, 2, 0).chat, 0);
}
