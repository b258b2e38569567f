//! The server's settings and its rules for one client connection: request
//! cooldowns, heartbeats and the one-time canvas download.

use vstd::prelude::*;
use vstd::utf8::encode_utf8;
use crate::codec::{sha256, sha256_digest};
use crate::error::{Error, error_text};
use crate::messages::{TimeoutType, ToClientMsg, ToServerMsg};
use crate::meta_place::{MetaPlace, add_user_outcome, chat_outcome, paint_outcome, rename_outcome};
use crate::model::{ChatMsg, MaybePixel, Pixel, PixelWithLocation, User, XY};
use crate::text::{hex_lower, hex_string, text_eq, trim, trim_string};

verus! {

/// How often the server pumps queued messages and sends heartbeats (ms).
#[derive(Clone, Copy, Debug, PartialEq, Eq, Structural)]
pub struct Times {
    pub ws_msg_interval: u64,
    pub ws_hb_interval: u64,
}

/// Cooldowns per kind of request. In a connection's state these are the
/// moments (seconds) before which a request of that kind is refused; in the
/// settings they are the lengths of the cooldowns.
#[derive(Clone, Copy, Debug, PartialEq, Eq, Structural)]
pub struct Timeouts {
    pub paint: u64,
    pub username: u64,
    pub chat: u64,
}

impl Timeouts {
    /// The cooldown lengths in seconds from the settings, which give the
    /// paint and name cooldowns in seconds and the chat cooldown in
    /// milliseconds; the chat cooldown is rounded up to whole seconds.
    pub fn from_settings(paint_secs: u64, username_secs: u64, chat_millis: u64) -> (t: Timeouts)
        ensures
            t.paint == paint_secs,
            t.username == username_secs,
            t.chat == chat_millis / 1000 + if chat_millis % 1000 == 0 { 0int } else { 1int },
    {
        let whole = chat_millis / 1000;
        let chat = if chat_millis % 1000 == 0 { whole } else { whole + 1 };
        Timeouts { paint: paint_secs, username: username_secs, chat }
    }
}

impl Default for Timeouts {
    fn default() -> (r: Timeouts)
        ensures
            r == (Timeouts { paint: 0, username: 0, chat: 0 }),
    {
        Timeouts { paint: 0, username: 0, chat: 0 }
    }
}

/// Where a Postgres store lives.
#[derive(Debug, PartialEq, Eq)]
pub struct PostgresConfig {
    pub host: String,
    pub port: u16,
    pub user: String,
    pub password: String,
    pub database: String,
}

impl Clone for PostgresConfig {
    fn clone(&self) -> (r: Self)
        ensures
            r == *self,
    {
        PostgresConfig {
            host: self.host.clone(),
            port: self.port,
            user: self.user.clone(),
            password: self.password.clone(),
            database: self.database.clone(),
        }
    }
}

/// How the server stores its canvas.
#[derive(Debug, PartialEq, Eq)]
pub enum Interface {
    Json,
    Gzip,
    Postgres(PostgresConfig),
}

impl Clone for Interface {
    fn clone(&self) -> (r: Self)
        ensures
            r == *self,
    {
        match self {
            Interface::Json => Interface::Json,
            Interface::Gzip => Interface::Gzip,
            Interface::Postgres(c) => Interface::Postgres(c.clone()),
        }
    }
}

impl Default for Interface {
    fn default() -> (r: Interface)
        ensures
            r == Interface::Json,
    {
        Interface::Json
    }
}

/// The server's settings. `timeouts` holds the cooldowns as the settings
/// give them (paint and name in seconds, chat in milliseconds); the
/// connection rules take them through `Timeouts::from_settings`.
#[derive(Debug, PartialEq, Eq)]
pub struct Config {
    pub port: u16,
    pub host: String,
    pub size: XY,
    pub interface: Interface,
    pub times: Times,
    pub timeouts: Timeouts,
    pub max_missed_heartbeats: u32,
}

/// A storage kind chosen at the settings prompt.
#[derive(Clone, Copy, Debug, PartialEq, Eq, Structural)]
pub enum InterfaceKind {
    Json,
    Gzip,
    Postgres,
}

/// Reads an answer to the storage prompt: `json`, `gzip` or `postgres`,
/// around white space.
pub fn interface_answer(line: &str) -> (r: Option<InterfaceKind>)
    ensures
        trim(line@) == "json"@ ==> r == Some(InterfaceKind::Json),
        trim(line@) == "gzip"@ ==> r == Some(InterfaceKind::Gzip),
        trim(line@) == "postgres"@ ==> r == Some(InterfaceKind::Postgres),
        trim(line@) != "json"@ && trim(line@) != "gzip"@ && trim(line@) != "postgres"@ ==> r
            is None,
{
    proof {
        reveal_strlit("json");
        reveal_strlit("gzip");
        reveal_strlit("postgres");
        assert("json"@[0] != "gzip"@[0]);
        assert("json"@.len() != "postgres"@.len());
        assert("gzip"@.len() != "postgres"@.len());
    }
    let t = trim_string(line);
    if text_eq(t.as_str(), "json") {
        Some(InterfaceKind::Json)
    } else if text_eq(t.as_str(), "gzip") {
        Some(InterfaceKind::Gzip)
    } else if text_eq(t.as_str(), "postgres") {
        Some(InterfaceKind::Postgres)
    } else {
        None
    }
}

/// The id under which a peer is known: the lower-case hex SHA-256 of its
/// address text (of the address's UTF-8 bytes).
pub fn hash(s: String) -> (r: String)
    ensures
        r@ == hex_lower(sha256(encode_utf8(s@))),
{
    let d = sha256_digest(s.as_str().as_bytes());
    hex_string(&d)
}

/// The state of one client connection.
#[derive(Debug, PartialEq, Eq)]
pub struct WsConnection {
    /// The client's id.
    pub id: String,
    /// The client's user, once it has one.
    pub user: Option<User>,
    /// Heartbeats sent since the client last answered one.
    pub sent_heartbeats: u32,
    /// Whether the client has asked for the canvas, which it gets once per
    /// connection.
    pub place_requested: bool,
}

/// What the server sends back for a request.
#[derive(Debug, PartialEq, Eq)]
pub enum Reply {
    /// Nothing.
    Silent,
    /// One message.
    Text(ToClientMsg),
    /// The compressed canvas, once it is ready.
    SendPlace,
}

/// What the server sends once the compressed canvas is ready (or failed).
#[derive(Debug, PartialEq, Eq)]
pub enum PlaceDelivery {
    Binary(Vec<u8>),
    Text(ToClientMsg),
}

/// `reply` is an error message with text `text` answering `nonce`.
pub open spec fn error_reply(reply: Reply, nonce: String, text: Seq<char>) -> bool {
    reply matches Reply::Text(ToClientMsg::GenericError(Some(n), m)) && n == nonce && m@ == text
}

fn error_text_reply(nonce: String, text: &str) -> (r: Reply)
    ensures
        error_reply(r, nonce, text@),
{
    Reply::Text(ToClientMsg::GenericError(Some(nonce), text.to_string()))
}

fn error_value_reply(nonce: String, e: &Error) -> (r: Reply)
    ensures
        error_reply(r, nonce, error_text(*e)),
{
    Reply::Text(ToClientMsg::GenericError(Some(nonce), e.message()))
}

/// The answer to a heartbeat that no heartbeat asked for.
pub open spec fn unasked_heartbeat_text() -> Seq<char> {
    "SHUT THE FUCK UP"@
}

/// The answer to a paint request from a client without a user.
pub open spec fn no_user_paint_text() -> Seq<char> {
    "You must set a username before painting"@
}

/// The answer to a chat message from a client without a user.
pub open spec fn no_user_chat_text() -> Seq<char> {
    "You must set a username before chatting"@
}

/// The answer to a second request for the canvas.
pub open spec fn place_again_text() -> Seq<char> {
    "You have already requested the place"@
}

/// The cell that a paint request of the connection's client asks for.
pub open spec fn requested_pixel(conn: WsConnection, request: crate::model::GenericPixelWithLocation) -> PixelWithLocation {
    PixelWithLocation {
        pixel: MaybePixel::Pixel(Pixel { color: request.color, artist_id: conn.id }),
        location: request.location,
    }
}

/// A paint request at `now` is carried out (and restarts the paint
/// cooldown): the cooldown is over, the client has a user, and the canvas
/// takes the pixel.
pub open spec fn paint_accepted(
    conn: WsConnection,
    timeouts: Timeouts,
    place: MetaPlace,
    now: u64,
    request: crate::model::GenericPixelWithLocation,
) -> bool {
    &&& now >= timeouts.paint
    &&& conn.user is Some
    &&& crate::meta_place::pixel_refusal(place.place, requested_pixel(conn, request)) is None
}

impl WsConnection {
    /// A fresh connection of client `id`, whose user (if the canvas knows
    /// one under that id) is `user`.
    pub fn new(id: String, user: Option<User>) -> (c: WsConnection)
        ensures
            c == (WsConnection { id, user, sent_heartbeats: 0, place_requested: false }),
    {
        WsConnection { id, user, sent_heartbeats: 0, place_requested: false }
    }

    /// The heartbeat timer fired: send a heartbeat (true) while fewer than
    /// `max` went unanswered, else the connection is to be closed (false).
    pub fn heartbeat_tick(&mut self, max: u32) -> (send: bool)
        ensures
            send == (old(self).sent_heartbeats < max),
            send ==> final(self).sent_heartbeats == old(self).sent_heartbeats + 1,
            !send ==> final(self).sent_heartbeats == old(self).sent_heartbeats,
            final(self).id == old(self).id,
            final(self).user == old(self).user,
            final(self).place_requested == old(self).place_requested,
    {
        if self.sent_heartbeats < max {
            self.sent_heartbeats = self.sent_heartbeats + 1;
            true
        } else {
            false
        }
    }

    /// The compressed canvas is ready (or failed): send it, and remember
    /// that this client has it; or report the failure, after which the
    /// client may ask again.
    pub fn place_ready(&mut self, bin: Result<Vec<u8>, Error>) -> (r: PlaceDelivery)
        ensures
            bin matches Ok(b) ==> r == PlaceDelivery::Binary(b) && final(self).place_requested
                && final(self).id == old(self).id && final(self).user == old(self).user
                && final(self).sent_heartbeats == old(self).sent_heartbeats,
            bin matches Err(e) ==> (r matches PlaceDelivery::Text(ToClientMsg::GenericError(None, m))
                && m@ == error_text(e)) && *final(self) == (WsConnection { place_requested: false, ..*old(self) }),
    {
        match bin {
            Ok(b) => {
                self.place_requested = true;
                PlaceDelivery::Binary(b)
            },
            Err(e) => {
                self.place_requested = false;
                PlaceDelivery::Text(ToClientMsg::GenericError(None, e.message()))
            },
        }
    }

    fn heartbeat(&mut self, nonce: String) -> (r: Reply)
        ensures
            old(self).sent_heartbeats == 0 ==> error_reply(r, nonce, unasked_heartbeat_text())
                && *final(self) == *old(self),
            old(self).sent_heartbeats != 0 ==> r == Reply::Silent && *final(self) == (WsConnection {
                sent_heartbeats: 0,
                ..*old(self)
            }),
    {
        if self.sent_heartbeats == 0 {
            error_text_reply(nonce, "SHUT THE FUCK UP")
        } else {
            self.sent_heartbeats = 0;
            Reply::Silent
        }
    }

    fn set_name(
        &mut self,
        timeouts: &mut Timeouts,
        place: &mut MetaPlace,
        limits: &Timeouts,
        now: u64,
        nonce: String,
        name: String,
    ) -> (r: Reply)
        requires
            now >= old(timeouts).username ==> now + limits.username <= u64::MAX,
        ensures
            now < old(timeouts).username ==> r == Reply::Text(
                ToClientMsg::TimeoutError(Some(nonce), TimeoutType::Username((old(timeouts).username - now) as u64)),
            ) && *final(timeouts) == *old(timeouts) && *final(place) == *old(place) && *final(self)
                == *old(self),
            now >= old(timeouts).username ==> *final(timeouts) == (Timeouts {
                username: (now + limits.username) as u64,
                ..*old(timeouts)
            }),
            now >= old(timeouts).username && old(self).user is Some ==> ({
                let id = old(self).user->0.id@;
                &&& exists|res: Result<(), Error>| #[trigger] rename_outcome(*old(place), *final(place), id, name@, Some(nonce), res)
                &&& if crate::place::has_user(old(place).place.users@, id) {
                    r == Reply::Silent
                } else {
                    error_reply(r, nonce, "No user with id "@ + id + " found"@)
                }
                &&& *final(self) == *old(self)
            }),
            now >= old(timeouts).username && old(self).user is None ==> ({
                let u = User { id: old(self).id, name };
                &&& add_user_outcome(*old(place), *final(place), u, Some(nonce), Ok(()))
                &&& r == Reply::Silent
                &&& *final(self) == (WsConnection { user: Some(u), ..*old(self) })
            }),
    {
        if now < timeouts.username {
            return Reply::Text(
                ToClientMsg::TimeoutError(Some(nonce), TimeoutType::Username(timeouts.username - now)),
            );
        }
        timeouts.username = now + limits.username;
        match &self.user {
            Some(user) => {
                let res = place.update_username(user.id.as_str(), name.as_str(), Some(nonce.clone()));
                match res {
                    Ok(()) => Reply::Silent,
                    Err(e) => error_value_reply(nonce, &e),
                }
            },
            None => {
                let user = User { id: self.id.clone(), name };
                let res = place.add_user(user.clone(), Some(nonce.clone()));
                match res {
                    Ok(()) => {
                        self.user = Some(user);
                        Reply::Silent
                    },
                    Err(e) => error_value_reply(nonce, &e),
                }
            },
        }
    }

    fn set_pixel(
        &mut self,
        timeouts: &mut Timeouts,
        place: &mut MetaPlace,
        limits: &Timeouts,
        now: u64,
        nonce: String,
        request: crate::model::GenericPixelWithLocation,
    ) -> (r: Reply)
        requires
            paint_accepted(*old(self), *old(timeouts), *old(place), now, request) ==> now + limits.paint
                <= u64::MAX,
        ensures
            *final(self) == *old(self),
            now < old(timeouts).paint ==> r == Reply::Text(
                ToClientMsg::TimeoutError(Some(nonce), TimeoutType::Pixel((old(timeouts).paint - now) as u64)),
            ) && *final(timeouts) == *old(timeouts) && *final(place) == *old(place),
            now >= old(timeouts).paint && old(self).user is None ==> error_reply(r, nonce, no_user_paint_text())
                && *final(timeouts) == *old(timeouts) && *final(place) == *old(place),
            now >= old(timeouts).paint && old(self).user is Some ==> ({
                let p = PixelWithLocation {
                    pixel: MaybePixel::Pixel(Pixel { color: request.color, artist_id: old(self).id }),
                    location: request.location,
                };
                &&& exists|res: Result<(), Error>| #[trigger] paint_outcome(*old(place), *final(place), p, Some(nonce), res)
                &&& match crate::meta_place::pixel_refusal(old(place).place, p) {
                    None => r == Reply::Silent && *final(timeouts) == (Timeouts {
                        paint: (now + limits.paint) as u64,
                        ..*old(timeouts)
                    }),
                    Some(e) => error_reply(r, nonce, error_text(e)) && *final(timeouts) == *old(timeouts),
                }
            }),
    {
        if now < timeouts.paint {
            return Reply::Text(
                ToClientMsg::TimeoutError(Some(nonce), TimeoutType::Pixel(timeouts.paint - now)),
            );
        }
        if self.user.is_none() {
            return error_text_reply(nonce, "You must set a username before painting");
        }
        let p = request.into_full(self.id.clone());
        let res = place.update_pixel(&p, Some(nonce.clone()));
        match res {
            Ok(()) => {
                timeouts.paint = now + limits.paint;
                Reply::Silent
            },
            Err(e) => error_value_reply(nonce, &e),
        }
    }

    fn chat(
        &mut self,
        timeouts: &mut Timeouts,
        place: &mut MetaPlace,
        limits: &Timeouts,
        now: u64,
        nonce: String,
        text: String,
    ) -> (r: Reply)
        requires
            now >= old(timeouts).chat && old(self).user is Some ==> now + limits.chat <= u64::MAX,
        ensures
            *final(self) == *old(self),
            now < old(timeouts).chat ==> r == Reply::Text(
                ToClientMsg::TimeoutError(Some(nonce), TimeoutType::Chat((old(timeouts).chat - now) as u64)),
            ) && *final(timeouts) == *old(timeouts) && *final(place) == *old(place),
            now >= old(timeouts).chat && old(self).user is None ==> error_reply(r, nonce, no_user_chat_text())
                && *final(timeouts) == *old(timeouts) && *final(place) == *old(place),
            now >= old(timeouts).chat && old(self).user is Some ==> chat_outcome(*old(place), *final(place), ChatMsg { user_id: old(self).id, msg: text }, Some(nonce), Ok(()))
                && r == Reply::Silent && *final(timeouts) == (Timeouts {
                chat: (now + limits.chat) as u64,
                ..*old(timeouts)
            }),
    {
        if now < timeouts.chat {
            return Reply::Text(
                ToClientMsg::TimeoutError(Some(nonce), TimeoutType::Chat(timeouts.chat - now)),
            );
        }
        if self.user.is_none() {
            return error_text_reply(nonce, "You must set a username before chatting");
        }
        let msg = ChatMsg { user_id: self.id.clone(), msg: text };
        let res = place.send_chat_msg(msg, Some(nonce.clone()));
        match res {
            Ok(()) => {
                timeouts.chat = now + limits.chat;
                Reply::Silent
            },
            Err(e) => error_value_reply(nonce, &e),
        }
    }

    /// Answers one request of the client at time `now` (seconds), against
    /// the client's cooldown moments `timeouts`, the cooldown lengths
    /// `limits` and the shared canvas `place`.
    ///
    /// A heartbeat resets the missed-heartbeat count, or is refused when no
    /// heartbeat is pending. A name, paint or chat request is refused while
    /// its cooldown runs; otherwise the cooldown restarts (for paint and chat
    /// only once the change is made) and the request is carried out: a name
    /// renames the client's user, or creates it; paint and chat need a user.
    /// A canvas request starts the download, once per connection: a later
    /// request is refused, unless the download failed (see `place_ready`).
    pub fn handle_request(
        &mut self,
        timeouts: &mut Timeouts,
        place: &mut MetaPlace,
        limits: &Timeouts,
        now: u64,
        msg: ToServerMsg,
    ) -> (r: Reply)
        requires
            msg is SetName && now >= old(timeouts).username ==> now + limits.username <= u64::MAX,
            msg matches ToServerMsg::SetPixel(_, request) && paint_accepted(*old(self), *old(timeouts), *old(place), now, request)
                ==> now + limits.paint <= u64::MAX,
            msg is ChatMsg && now >= old(timeouts).chat && old(self).user is Some ==> now + limits.chat
                <= u64::MAX,
        ensures
            msg matches ToServerMsg::Heartbeat(nonce) ==> *final(timeouts) == *old(timeouts) && *final(place)
                == *old(place) && if old(self).sent_heartbeats == 0 {
                error_reply(r, nonce, unasked_heartbeat_text()) && *final(self) == *old(self)
            } else {
                r == Reply::Silent && *final(self) == (WsConnection { sent_heartbeats: 0, ..*old(self) })
            },
            msg matches ToServerMsg::RequestPlace(nonce) ==> *final(timeouts) == *old(timeouts)
                && *final(place) == *old(place) && if old(self).place_requested {
                error_reply(r, nonce, place_again_text()) && *final(self) == *old(self)
            } else {
                r == Reply::SendPlace && *final(self) == (WsConnection { place_requested: true, ..*old(self) })
            },
            msg matches ToServerMsg::SetName(nonce, name) ==> ({
                &&& now < old(timeouts).username ==> r == Reply::Text(
                    ToClientMsg::TimeoutError(Some(nonce), TimeoutType::Username((old(timeouts).username - now) as u64)),
                ) && *final(timeouts) == *old(timeouts) && *final(place) == *old(place) && *final(self)
                    == *old(self)
                &&& now >= old(timeouts).username ==> *final(timeouts) == (Timeouts {
                    username: (now + limits.username) as u64,
                    ..*old(timeouts)
                })
                &&& now >= old(timeouts).username && old(self).user is Some ==> ({
                    let id = old(self).user->0.id@;
                    &&& exists|res: Result<(), Error>| #[trigger] rename_outcome(*old(place), *final(place), id, name@, Some(nonce), res)
                    &&& if crate::place::has_user(old(place).place.users@, id) {
                        r == Reply::Silent
                    } else {
                        error_reply(r, nonce, "No user with id "@ + id + " found"@)
                    }
                    &&& *final(self) == *old(self)
                })
                &&& now >= old(timeouts).username && old(self).user is None ==> ({
                    let u = User { id: old(self).id, name };
                    &&& add_user_outcome(*old(place), *final(place), u, Some(nonce), Ok(()))
                    &&& r == Reply::Silent
                    &&& *final(self) == (WsConnection { user: Some(u), ..*old(self) })
                })
            }),
            msg matches ToServerMsg::SetPixel(nonce, request) ==> ({
                &&& *final(self) == *old(self)
                &&& now < old(timeouts).paint ==> r == Reply::Text(
                    ToClientMsg::TimeoutError(Some(nonce), TimeoutType::Pixel((old(timeouts).paint - now) as u64)),
                ) && *final(timeouts) == *old(timeouts) && *final(place) == *old(place)
                &&& now >= old(timeouts).paint && old(self).user is None ==> error_reply(r, nonce, no_user_paint_text())
                    && *final(timeouts) == *old(timeouts) && *final(place) == *old(place)
                &&& now >= old(timeouts).paint && old(self).user is Some ==> ({
                    let p = PixelWithLocation {
                        pixel: MaybePixel::Pixel(Pixel { color: request.color, artist_id: old(self).id }),
                        location: request.location,
                    };
                    &&& exists|res: Result<(), Error>| #[trigger] paint_outcome(*old(place), *final(place), p, Some(nonce), res)
                    &&& match crate::meta_place::pixel_refusal(old(place).place, p) {
                        None => r == Reply::Silent && *final(timeouts) == (Timeouts {
                            paint: (now + limits.paint) as u64,
                            ..*old(timeouts)
                        }),
                        Some(e) => error_reply(r, nonce, error_text(e)) && *final(timeouts) == *old(timeouts),
                    }
                })
            }),
            msg matches ToServerMsg::ChatMsg(nonce, text) ==> ({
                &&& *final(self) == *old(self)
                &&& now < old(timeouts).chat ==> r == Reply::Text(
                    ToClientMsg::TimeoutError(Some(nonce), TimeoutType::Chat((old(timeouts).chat - now) as u64)),
                ) && *final(timeouts) == *old(timeouts) && *final(place) == *old(place)
                &&& now >= old(timeouts).chat && old(self).user is None ==> error_reply(r, nonce, no_user_chat_text())
                    && *final(timeouts) == *old(timeouts) && *final(place) == *old(place)
                &&& now >= old(timeouts).chat && old(self).user is Some ==> chat_outcome(*old(place), *final(place), ChatMsg { user_id: old(self).id, msg: text }, Some(nonce), Ok(()))
                    && r == Reply::Silent && *final(timeouts) == (Timeouts {
                    chat: (now + limits.chat) as u64,
                    ..*old(timeouts)
                })
            }),
    {
        match msg {
            ToServerMsg::Heartbeat(nonce) => self.heartbeat(nonce),
            ToServerMsg::SetName(nonce, name) => self.set_name(timeouts, place, limits, now, nonce, name),
            ToServerMsg::SetPixel(nonce, request) => self.set_pixel(timeouts, place, limits, now, nonce, request),
            ToServerMsg::RequestPlace(nonce) => {
                if !self.place_requested {
                    self.place_requested = true;
                    Reply::SendPlace
                } else {
                    error_text_reply(nonce, "You have already requested the place")
                }
            },
            ToServerMsg::ChatMsg(nonce, text) => self.chat(timeouts, place, limits, now, nonce, text),
        }
    }
}

/// The seconds left, at time `now`, of a cooldown that ends at `deadline`:
/// what a refused request is told.
pub open spec fn cooldown_left(deadline: u64, now: u64) -> Option<u64> {
    if now < deadline {
        Some((deadline - now) as u64)
    } else {
        None
    }
}

/// A cooldown of length `limit` started by a request accepted at `now`
/// refuses requests of that kind until `now + limit`, with the seconds left
/// (the whole cooldown right away), and lets them through from then on.
pub proof fn lemma_cooldown(now: u64, limit: u64, later: u64)
    requires
        now + limit <= u64::MAX,
        now <= later,
    ensures
        later < now + limit ==> cooldown_left((now + limit) as u64, later) == Some((now + limit - later) as u64),
        later >= now + limit ==> cooldown_left((now + limit) as u64, later) is None,
        limit > 0 ==> cooldown_left((now + limit) as u64, now) == Some(limit),
{
}

/// Two paints accepted on one connection are at least the paint cooldown
/// apart: after a paint accepted at `first`, the connection's paint deadline
/// is `first + limits.paint`, and a later paint is accepted only from then.
/// (The deadline must fit in `u64`, as `handle_request` asks.)
pub proof fn lemma_paint_cooldown(
    conn: WsConnection,
    before: Timeouts,
    limits: Timeouts,
    place1: MetaPlace,
    place2: MetaPlace,
    first: u64,
    second: u64,
    request1: crate::model::GenericPixelWithLocation,
    request2: crate::model::GenericPixelWithLocation,
)
    requires
        paint_accepted(conn, before, place1, first, request1),
        first + limits.paint <= u64::MAX,
        paint_accepted(conn, Timeouts { paint: (first + limits.paint) as u64, ..before }, place2, second, request2),
    ensures
        second >= first + limits.paint,
{
}

} // verus!
