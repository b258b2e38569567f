use place_rs::client::{
    apply_server_message, callback_nonce, chat_request, https_answer, name_request, next_nonce, paint_request,
    port_answer, Callback, CallbackHandler, ClientEvent, Config, HttpsOrPort, WebsocketState, RX,
};
use place_rs::{ChatMsg, Color, Error, GenericPixelWithLocation, MaybePixel, Pixel, PixelWithLocation, Place, TimeoutType, ToClientMsg, ToServerMsg, User, XY};
use tokio::sync::oneshot;

#[test]
fn urls() {
    let c = Config { https: HttpsOrPort::Https, url: "place.example".to_string() };
    assert_eq!(c.get_http_url(), "https://place.example");
    assert_eq!(c.get_ws_url(), "wss://place.example");
    let c = Config { https: HttpsOrPort::Port(Some(8080)), url: "localhost".to_string() };
    assert_eq!(c.get_http_url(), "http://localhost:8080");
    assert_eq!(c.get_ws_url(), "ws://localhost:8080");
    let c = Config { https: HttpsOrPort::Port(None), url: "h".to_string() };
    assert_eq!(c.get_http_url(), "http://h");
    assert_eq!(c.get_ws_url(), "ws://h");
}

#[test]
fn prompt_answers() {
    assert_eq!(https_answer("y\n"), Some(true));
    assert_eq!(https_answer(" n "), Some(false));
    assert_eq!(https_answer("yes"), None);
    assert_eq!(port_answer("n\n"), Some(None));
    assert_eq!(port_answer("443\n"), Some(Some(443)));
    assert_eq!(port_answer("70000"), None);
    assert_eq!(port_answer("x"), None);
}

#[test]
fn websocket_state() {
    let mut s = WebsocketState::Connecting;
    assert_eq!(s.connect_outcome(), None);
    s.set(WebsocketState::Connected);
    assert_eq!(s.connect_outcome(), Some(Ok(())));
    s.set(WebsocketState::Disconnected("gone".to_string()));
    assert_eq!(s.connect_outcome(), Some(Err("gone".to_string())));
}

#[test]
fn callback_table_insert_and_fulfill() {
    let mut h = CallbackHandler::new();
    let (tx, mut rx) = oneshot::channel();
    assert_eq!(h.insert("a".to_string(), tx), Ok(()));
    let (tx2, mut rx2) = oneshot::channel();
    assert_eq!(h.insert("a".to_string(), tx2), Err(Error::DuplicateNonce));
    assert_eq!(h.fulfill("b".to_string(), Callback::Heartbeat("b".to_string())), Err(Error::CallbackMissing));
    // the first waiter was replaced, so its receiver sees a closed channel
    assert!(rx.try_recv().is_err());
    assert_eq!(h.fulfill("a".to_string(), Callback::Heartbeat("a".to_string())), Ok(()));
    assert!(matches!(rx2.try_recv(), Ok(Callback::Heartbeat(ref n)) if n == "a"));
    assert_eq!(h.fulfill("a".to_string(), Callback::Heartbeat("a".to_string())), Err(Error::CallbackMissing));
    let (tx3, rx3) = oneshot::channel();
    h.insert("c".to_string(), tx3).unwrap();
    drop(rx3);
    assert_eq!(h.fulfill("c".to_string(), Callback::Heartbeat("c".to_string())), Err(Error::CallbackSendFailed));
    assert_eq!(h.fulfill("c".to_string(), Callback::Heartbeat("c".to_string())), Err(Error::CallbackMissing));
    assert_eq!(Error::DuplicateNonce.message(), "Duplicate nonce");
    assert_eq!(Error::CallbackMissing.message(), "Callback doesn't exist");
    assert_eq!(Error::CallbackSendFailed.message(), "Failed to send callback");
}

#[test]
fn generic_channel() {
    let mut h = CallbackHandler::new();
    assert_eq!(h.generic_sender().err(), Some(Error::GenericNotSet));
    let _rx = h.set_generic().unwrap();
    assert!(h.generic_sender().is_ok());
    assert_eq!(h.set_generic().err(), Some(Error::GenericAlreadySet));
    assert_eq!(Error::GenericNotSet.message(), "Generic callback not set");
    assert_eq!(Error::GenericAlreadySet.message(), "Generic callback already set");
}

#[test]
fn routing_of_server_messages() {
    let mut h = CallbackHandler::new();
    let (tx, mut rx) = oneshot::channel();
    h.insert("p1".to_string(), tx).unwrap();
    let p = PixelWithLocation::new(MaybePixel::Empty, XY { x: 1, y: 1 });
    let r = h.route_message(ToClientMsg::PixelUpdate(Some("p1".to_string()), p.clone()));
    assert_eq!(r.forward, None);
    assert!(r.log.is_none());
    assert!(!r.reply_heartbeat);
    assert!(matches!(rx.try_recv(), Ok(Callback::Message(ref n, RX::Message(_))) if n == "p1"));
    let r = h.route_message(ToClientMsg::PixelUpdate(Some("zz".to_string()), p.clone()));
    assert_eq!(r.forward, Some(RX::Message(ToClientMsg::PixelUpdate(Some("zz".to_string()), p.clone()))));
    let r = h.route_message(ToClientMsg::PixelUpdate(None, p.clone()));
    assert_eq!(r.forward, Some(RX::Message(ToClientMsg::PixelUpdate(None, p))));
    let r = h.route_message(ToClientMsg::Heartbeat(Some("hb".to_string())));
    assert!(r.reply_heartbeat);
    assert_eq!(r.log, Some("Failed to fulfill heartbeat callback: Callback doesn't exist".to_string()));
    let r = h.route_message(ToClientMsg::Heartbeat(None));
    assert!(r.reply_heartbeat);
    assert_eq!(r.log, None);
    let r = h.route_message(ToClientMsg::GenericError(Some("e".to_string()), "x".to_string()));
    assert_eq!(r.log, Some("Failed to fulfill generic error callback: Callback doesn't exist".to_string()));
    let r = h.route_message(ToClientMsg::TimeoutError(Some("t".to_string()), TimeoutType::Pixel(3)));
    assert_eq!(r.log, Some("Failed to fulfill timeout error callback: Callback doesn't exist".to_string()));
    let r = h.route_message(ToClientMsg::GenericError(None, "x".to_string()));
    assert_eq!((r.log, r.forward, r.reply_heartbeat), (None, None, false));
    let log = h.route_binary(vec![1, 2, 3]);
    assert_eq!(log, Some("Failed to fulfill binary callback: Callback doesn't exist".to_string()));
    let (tx, mut rx) = oneshot::channel();
    h.insert("binary".to_string(), tx).unwrap();
    assert_eq!(h.route_binary(vec![9]), None);
    assert!(matches!(rx.try_recv(), Ok(Callback::Binary(_, ref b)) if b == &vec![9u8]));
}

#[test]
fn waiting_requests_get_their_answers() {
    let mut h = CallbackHandler::new();
    let (tx, mut rx) = oneshot::channel();
    h.insert("e".to_string(), tx).unwrap();
    let r = h.route_message(ToClientMsg::GenericError(Some("e".to_string()), "bad".to_string()));
    assert_eq!(r.log, None);
    assert_eq!(rx.try_recv().unwrap(), Callback::GenericError("e".to_string(), "bad".to_string()));
    let (tx, mut rx) = oneshot::channel();
    h.insert("t".to_string(), tx).unwrap();
    h.route_message(ToClientMsg::TimeoutError(Some("t".to_string()), TimeoutType::Chat(4)));
    assert_eq!(rx.try_recv().unwrap(), Callback::TimeoutError("t".to_string(), TimeoutType::Chat(4)));
    let (tx, mut rx) = oneshot::channel();
    h.insert("h".to_string(), tx).unwrap();
    let r = h.route_message(ToClientMsg::Heartbeat(Some("h".to_string())));
    assert!(r.reply_heartbeat);
    assert_eq!(rx.try_recv().unwrap(), Callback::Heartbeat("h".to_string()));
    let (tx, mut rx) = oneshot::channel();
    h.insert("u".to_string(), tx).unwrap();
    let u = User { id: "i".to_string(), name: "n".to_string() };
    let msg = ToClientMsg::UserUpdate(Some("u".to_string()), u);
    h.route_message(msg.clone());
    assert_eq!(rx.try_recv().unwrap(), Callback::Message("u".to_string(), RX::Message(msg)));
    let (tx, mut rx) = oneshot::channel();
    h.insert("binary".to_string(), tx).unwrap();
    assert_eq!(h.route_binary(vec![5, 6]), None);
    assert_eq!(rx.try_recv().unwrap(), Callback::Binary("binary".to_string(), vec![5, 6]));
}

#[test]
fn second_generic_opening_keeps_the_first() {
    let mut h = CallbackHandler::new();
    let mut rx = h.set_generic().unwrap();
    assert_eq!(h.set_generic().err(), Some(Error::GenericAlreadySet));
    h.generic_sender().unwrap().try_send(RX::GenericError("x".to_string())).unwrap();
    assert_eq!(rx.try_recv().unwrap(), RX::GenericError("x".to_string()));
}

#[test]
fn request_nonces() {
    let msg = ToServerMsg::RequestPlace("7".to_string());
    assert_eq!(callback_nonce(&msg, "7".to_string()), "binary");
    assert_eq!(callback_nonce(&msg, "8".to_string()), "binary");
    assert_eq!(callback_nonce(&ToServerMsg::Heartbeat("7".to_string()), "7".to_string()), "7");
    let mut counter = 41u64;
    assert_eq!(next_nonce(&mut counter), "41");
    assert_eq!(counter, 42);
    let (n, m) = paint_request(&mut counter, XY { x: 1, y: 2 }, Color { r: 3, g: 4, b: 5 });
    assert_eq!(n, "42");
    assert_eq!(m, ToServerMsg::SetPixel("42".to_string(), GenericPixelWithLocation { location: XY { x: 1, y: 2 }, color: Color { r: 3, g: 4, b: 5 } }));
    let (n, m) = chat_request(&mut counter, "yo".to_string());
    assert_eq!((n.as_str(), m), ("43", ToServerMsg::ChatMsg("43".to_string(), "yo".to_string())));
    let (n, m) = name_request(&mut counter, "Z".to_string());
    assert_eq!((n.as_str(), m), ("44", ToServerMsg::SetName("44".to_string(), "Z".to_string())));
}

#[test]
fn applying_server_messages_to_the_canvas() {
    let mut place = Place::new(XY { x: 2, y: 2 });
    let p = PixelWithLocation::new(
        MaybePixel::Pixel(Pixel { color: Color { r: 1, g: 2, b: 3 }, artist_id: "a".to_string() }),
        XY { x: 1, y: 0 },
    );
    assert_eq!(apply_server_message(&mut place, ToClientMsg::PixelUpdate(None, p.clone()), false), ClientEvent::Changed);
    assert_eq!(place.data[0][1], p);
    let far = PixelWithLocation::new(MaybePixel::Empty, XY { x: 5, y: 0 });
    assert_eq!(
        apply_server_message(&mut place, ToClientMsg::PixelUpdate(None, far), false),
        ClientEvent::PixelRejected(Error::PixelOutOfBounds)
    );
    let ann = User { name: "Ann".to_string(), id: "a".to_string() };
    assert_eq!(apply_server_message(&mut place, ToClientMsg::UserUpdate(None, ann.clone()), false), ClientEvent::Quiet);
    assert_eq!(apply_server_message(&mut place, ToClientMsg::UserUpdate(None, ann.clone()), true), ClientEvent::Changed);
    let chat = ChatMsg { user_id: "a".to_string(), msg: "hi".to_string() };
    assert_eq!(
        apply_server_message(&mut place, ToClientMsg::ChatMsg(None, chat), false),
        ClientEvent::Chat(place_rs::client::VerifiedChatMsg { msg: "hi".to_string(), user: ann })
    );
    let stranger = ChatMsg { user_id: "q".to_string(), msg: "hi".to_string() };
    assert_eq!(
        apply_server_message(&mut place, ToClientMsg::ChatMsg(None, stranger), true),
        ClientEvent::UnknownUser("q".to_string())
    );
    assert_eq!(
        apply_server_message(&mut place, ToClientMsg::GenericError(None, "bad".to_string()), false),
        ClientEvent::ServerError("bad".to_string())
    );
    assert_eq!(apply_server_message(&mut place, ToClientMsg::GenericError(None, "bad".to_string()), true), ClientEvent::Quiet);
    assert_eq!(
        apply_server_message(&mut place, ToClientMsg::TimeoutError(None, TimeoutType::Chat(1)), false),
        ClientEvent::ServerTimeout(TimeoutType::Chat(1))
    );
    assert_eq!(apply_server_message(&mut place, ToClientMsg::Heartbeat(None), false), ClientEvent::Quiet);
}

#[test]
fn client_canvas_follows_server_broadcast() {
    let mut server = place_rs::MetaPlace { place: Place::new(XY { x: 3, y: 3 }), websockets: vec![] };
    let (tx, mut rx) = tokio::sync::mpsc::unbounded_channel();
    server.add_websocket("watcher".to_string(), tx);
    let mut client = Place::new(XY { x: 3, y: 3 });
    let p = PixelWithLocation::new(
        MaybePixel::Pixel(Pixel { color: Color { r: 7, g: 7, b: 7 }, artist_id: "a".to_string() }),
        XY { x: 2, y: 1 },
    );
    server.update_pixel(&p, Some("n".to_string())).unwrap();
    let msg = rx.try_recv().unwrap();
    assert_eq!(apply_server_message(&mut client, msg, false), ClientEvent::Changed);
    assert_eq!(client.data, server.place.data);
}
