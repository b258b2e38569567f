//! The server's canvas together with the open client connections, and the
//! broadcasting of every change to them.

use vstd::prelude::*;
use tokio::sync::mpsc::UnboundedSender;
use crate::error::Error;
use crate::messages::ToClientMsg;
use crate::model::{ChatMsg, MaybePixel, PixelWithLocation, User};
use crate::place::{Place, find_user, has_user, lookup_user, unique_ids, upsert_user, user_index};

verus! {

#[verifier::external_type_specification]
#[verifier::external_body]
#[verifier::reject_recursive_types(T)]
pub struct ExUnboundedSender<T>(UnboundedSender<T>);

/// Queues `msg` on a client's channel (`UnboundedSender::send`), and
/// records it in the connection's outbox: the messages handed to its
/// channel. The answer is whether the channel took it, which depends on
/// whether its receiving half is still open: nothing here can see that, so
/// nothing is promised of it beyond its being recorded, in order, in the
/// connection's `acks`.
#[verifier::external_body]
fn send_to_client(ws: &mut WebsocketHandler, msg: ToClientMsg) -> (accepted: bool)
    ensures
        told(*old(ws), *final(ws), msg),
        final(ws).acks() == old(ws).acks().push(accepted),
{
    match ws.handle.send(msg) {
        Ok(()) => true,
        Err(_) => false,
    }
}

/// An open client connection: the client's id, the channel to it, whether
/// it was found closed, the messages handed to its channel so far, and for
/// each of them whether the channel took it.
pub struct WebsocketHandler {
    pub id: String,
    pub handle: UnboundedSender<ToClientMsg>,
    pub closed: bool,
    pub sent: Ghost<Seq<ToClientMsg>>,
    pub taken: Ghost<Seq<bool>>,
}

impl WebsocketHandler {
    /// The messages handed to this connection's channel, in order.
    pub open spec fn outbox(&self) -> Seq<ToClientMsg> {
        self.sent@
    }

    /// For each message handed to this connection's channel, in order,
    /// whether the channel took it.
    pub open spec fn acks(&self) -> Seq<bool> {
        self.taken@
    }
}

/// `after` is the connection `before` once `msg` was handed to its channel.
pub open spec fn told(before: WebsocketHandler, after: WebsocketHandler, msg: ToClientMsg) -> bool {
    &&& after.id == before.id
    &&& after.handle == before.handle
    &&& after.closed == before.closed
    &&& after.outbox() == before.outbox().push(msg)
}

/// A change that every client is told about.
#[derive(Debug, PartialEq, Eq)]
pub enum Update {
    Pixel(PixelWithLocation),
    User(User),
    Chat(ChatMsg),
}

impl Clone for Update {
    fn clone(&self) -> (r: Self)
        ensures
            r == *self,
    {
        match self {
            Update::Pixel(p) => Update::Pixel(p.clone()),
            Update::User(u) => Update::User(u.clone()),
            Update::Chat(c) => Update::Chat(c.clone()),
        }
    }
}

/// The message that announces `u`, answering the request `nonce`.
pub open spec fn update_message(nonce: Option<String>, u: Update) -> ToClientMsg {
    match u {
        Update::Pixel(p) => ToClientMsg::PixelUpdate(nonce, p),
        Update::User(user) => ToClientMsg::UserUpdate(nonce, user),
        Update::Chat(c) => ToClientMsg::ChatMsg(nonce, c),
    }
}

/// The message that the client `ws_id` gets about `u`: the request's nonce
/// goes to the client that made the request (`origin`), and no nonce to the
/// others.
pub fn addressed_message(ws_id: &String, origin: &String, nonce: &Option<String>, u: &Update) -> (m:
    ToClientMsg)
    ensures
        m == update_message(if ws_id@ == origin@ { *nonce } else { None }, *u),
{
    let n = if *ws_id == *origin {
        match nonce {
            Some(s) => Some(s.clone()),
            None => None,
        }
    } else {
        None
    };
    match u {
        Update::Pixel(p) => ToClientMsg::PixelUpdate(n, p.clone()),
        Update::User(user) => ToClientMsg::UserUpdate(n, user.clone()),
        Update::Chat(c) => ToClientMsg::ChatMsg(n, c.clone()),
    }
}

/// The connections that are not marked closed, in order.
pub open spec fn open_only(ws: Seq<WebsocketHandler>) -> Seq<WebsocketHandler>
    decreases ws.len(),
{
    if ws.len() == 0 {
        Seq::empty()
    } else if ws.last().closed {
        open_only(ws.drop_last())
    } else {
        open_only(ws.drop_last()).push(ws.last())
    }
}

/// The connections of `ws` whose entry in `keep` is true, in order.
pub open spec fn select(ws: Seq<WebsocketHandler>, keep: Seq<bool>) -> Seq<WebsocketHandler>
    decreases ws.len(),
{
    if ws.len() == 0 {
        Seq::empty()
    } else if keep[ws.len() - 1] {
        select(ws.drop_last(), keep).push(ws.last())
    } else {
        select(ws.drop_last(), keep)
    }
}

/// The connections of `ws` without those of client `id`, in order.
pub open spec fn without_id(ws: Seq<WebsocketHandler>, id: Seq<char>) -> Seq<WebsocketHandler>
    decreases ws.len(),
{
    if ws.len() == 0 {
        Seq::empty()
    } else if ws.last().id@ == id {
        without_id(ws.drop_last(), id)
    } else {
        without_id(ws.drop_last(), id).push(ws.last())
    }
}

/// The message that connection `w` is told about `u`, when `origin` made
/// the request `nonce`.
pub open spec fn message_for(w: WebsocketHandler, origin: Seq<char>, nonce: Option<String>, u: Update) -> ToClientMsg {
    update_message(if w.id@ == origin { nonce } else { None }, u)
}

/// After a broadcast of `u` over `before`: each connection that was open
/// was handed its message about `u` (with the nonce for the client
/// `origin`, without for the others), and exactly those whose channel took
/// it are kept, in order, still open. Which channels take it is up to the
/// other side of each; the answer is recorded in the connection's `acks`.
/// Closed connections get nothing and are dropped.
pub open spec fn broadcast_result(
    before: Seq<WebsocketHandler>,
    after: Seq<WebsocketHandler>,
    origin: Seq<char>,
    nonce: Option<String>,
    u: Update,
) -> bool {
    exists|t: Seq<WebsocketHandler>, keep: Seq<bool>|
        #![trigger select(t, keep)]
        {
            let o = open_only(before);
            &&& t.len() == o.len()
            &&& keep.len() == o.len()
            &&& forall|i: int| 0 <= i < o.len() ==> told(o[i], #[trigger] t[i], message_for(o[i], origin, nonce, u))
            &&& forall|i: int| 0 <= i < o.len() ==> (#[trigger] t[i]).acks() == o[i].acks().push(keep[i])
            &&& after == select(t, keep)
        }
}

proof fn lemma_select_marked(o: Seq<WebsocketHandler>, m: Seq<WebsocketHandler>, keep: Seq<bool>)
    requires
        o.len() == m.len(),
        keep.len() >= o.len(),
        forall|i: int| 0 <= i < o.len() ==> !(#[trigger] o[i]).closed,
        forall|i: int| 0 <= i < o.len() ==> (#[trigger] m[i]) == (WebsocketHandler {
            closed: !keep[i],
            ..o[i]
        }),
    ensures
        open_only(m) == select(o, keep),
    decreases o.len(),
{
    if o.len() > 0 {
        let n = o.len() - 1;
        lemma_select_marked(o.drop_last(), m.drop_last(), keep);
        assert(m.last() == (WebsocketHandler { closed: !keep[n], ..o[n] }));
        if keep[n] {
            assert(m.last() == o.last());
        }
    }
}

proof fn lemma_open_only_all_open(ws: Seq<WebsocketHandler>)
    ensures
        forall|i: int| 0 <= i < open_only(ws).len() ==> !(#[trigger] open_only(ws)[i]).closed,
    decreases ws.len(),
{
    if ws.len() > 0 {
        lemma_open_only_all_open(ws.drop_last());
        let prev = open_only(ws.drop_last());
        if !ws.last().closed {
            assert forall|i: int| 0 <= i < open_only(ws).len() implies !(#[trigger] open_only(ws)[i]).closed by {
                if i < prev.len() {
                    assert(open_only(ws)[i] == prev[i]);
                }
            }
        }
    }
}

/// Keeps the connections that are not marked closed.
fn retain_open(websockets: &mut Vec<WebsocketHandler>)
    ensures
        final(websockets)@ == open_only(old(websockets)@),
{
    let ghost orig = websockets@;
    let mut rest: Vec<WebsocketHandler> = Vec::new();
    std::mem::swap(&mut rest, websockets);
    let mut out: Vec<WebsocketHandler> = Vec::new();
    let ghost mut k: int = 0;
    while rest.len() > 0
        invariant
            0 <= k <= orig.len(),
            rest@ == orig.skip(k),
            out@ == open_only(orig.take(k)),
        decreases rest.len(),
    {
        let w = rest.remove(0);
        proof {
            assert(orig.take(k + 1).drop_last() =~= orig.take(k));
            assert(w == orig[k]);
        }
        if !w.closed {
            out.push(w);
        }
        proof {
            k = k + 1;
            assert(rest@ =~= orig.skip(k));
        }
    }
    proof {
        assert(orig.take(k) =~= orig);
    }
    *websockets = out;
}

/// Sends each open connection its message about `u`, then drops the
/// connections that were closed or refused it.
fn broadcast(websockets: &mut Vec<WebsocketHandler>, origin: &String, nonce: &Option<String>, u: &Update)
    ensures
        broadcast_result(old(websockets)@, final(websockets)@, origin@, *nonce, *u),
{
    retain_open(websockets);
    let ghost o = websockets@;
    proof {
        lemma_open_only_all_open(old(websockets)@);
    }
    let ghost mut keep: Seq<bool> = Seq::empty();
    let mut i: usize = 0;
    while i < websockets.len()
        invariant
            i <= websockets.len(),
            websockets@.len() == o.len(),
            keep.len() == i,
            forall|j: int| 0 <= j < o.len() ==> !(#[trigger] o[j]).closed,
            forall|j: int|
                0 <= j < i ==> {
                    &&& (#[trigger] websockets@[j]).id == o[j].id
                    &&& websockets@[j].handle == o[j].handle
                    &&& websockets@[j].closed == !keep[j]
                    &&& websockets@[j].outbox() == o[j].outbox().push(message_for(o[j], origin@, *nonce, *u))
                    &&& websockets@[j].acks() == o[j].acks().push(keep[j])
                },
            forall|j: int| i <= j < o.len() ==> (#[trigger] websockets@[j]) == o[j],
        decreases websockets.len() - i,
    {
        let msg = addressed_message(&websockets[i].id, origin, nonce, u);
        let accepted = send_to_client(&mut websockets[i], msg);
        if !accepted {
            websockets[i].closed = true;
        }
        proof {
            keep = keep.push(accepted);
        }
        i = i + 1;
    }
    let ghost marked = websockets@;
    let ghost t = Seq::new(marked.len(), |j: int| WebsocketHandler { closed: false, ..marked[j] });
    retain_open(websockets);
    proof {
        assert forall|j: int| 0 <= j < o.len() implies (#[trigger] marked[j]) == (WebsocketHandler {
            closed: !keep[j],
            ..t[j]
        }) by {}
        assert forall|j: int| 0 <= j < o.len() implies told(o[j], #[trigger] t[j], message_for(o[j], origin@, *nonce, *u)) by {}
        assert forall|j: int| 0 <= j < o.len() implies (#[trigger] t[j]).acks() == o[j].acks().push(keep[j]) by {}
        lemma_select_marked(t, marked, keep);
        assert(websockets@ == select(t, keep));
    }
}

/// The users after the one at `i` takes the name `name`.
pub open spec fn renamed(before: Seq<User>, after: Seq<User>, i: int, name: Seq<char>) -> bool {
    &&& after.len() == before.len()
    &&& after[i].id == before[i].id
    &&& after[i].name@ == name
    &&& forall|j: int| 0 <= j < before.len() && j != i ==> after[j] == before[j]
}

/// Renaming a user keeps the stored users' ids apart.
pub proof fn lemma_rename_keeps_unique(before: Seq<User>, after: Seq<User>, i: int, name: Seq<char>)
    requires
        unique_ids(before),
        0 <= i < before.len(),
        renamed(before, after, i, name),
    ensures
        unique_ids(after),
{
    assert forall|a: int, b: int| 0 <= a < after.len() && 0 <= b < after.len() && a != b implies after[a].id@
        != after[b].id@ by {
        assert(after[a].id == before[a].id);
        assert(after[b].id == before[b].id);
    }
}

/// Writing `p` into the canvas is refused, and why: `p` carries no pixel,
/// names a missing row or column, or asks for the colour that the cell
/// already has.
pub open spec fn pixel_refusal(place: Place, p: PixelWithLocation) -> Option<Error> {
    let y = p.location.y as usize as int;
    let x = p.location.x as usize as int;
    if p.pixel is Empty {
        Some(Error::NotAPixel)
    } else if y >= place.data@.len() {
        Some(Error::YOutOfBounds(p.location.y))
    } else if x >= place.data@[y].len() {
        Some(Error::XOutOfBounds(p.location.x))
    } else if (place.cells()[y][x].pixel matches MaybePixel::Pixel(old_px) && p.pixel matches MaybePixel::Pixel(new_px)
        && old_px.color == new_px.color) {
        Some(Error::AlreadyHasColor)
    } else {
        None
    }
}

/// `after` is `before` once the user stored under `id` is renamed to
/// `name` (with everyone told), and `r` is the answer; without such a user,
/// nothing changes and the answer names the id.
pub open spec fn rename_outcome(
    before: MetaPlace,
    after: MetaPlace,
    id: Seq<char>,
    name: Seq<char>,
    nonce: Option<String>,
    r: Result<(), Error>,
) -> bool {
    if has_user(before.place.users@, id) {
        let renamed_user = after.place.users@[user_index(before.place.users@, id)];
        &&& r == Ok::<(), Error>(())
        &&& renamed(before.place.users@, after.place.users@, user_index(before.place.users@, id), name)
        &&& after.place.data == before.place.data
        &&& broadcast_result(before.websockets@, after.websockets@, renamed_user.id@, nonce, Update::User(renamed_user))
    } else {
        &&& r matches Err(Error::NoUser(s)) && s@ == id
        &&& after == before
    }
}

/// `after` is `before` once `user` is stored under its id (with everyone
/// told), and `r` is the answer.
pub open spec fn add_user_outcome(
    before: MetaPlace,
    after: MetaPlace,
    user: User,
    nonce: Option<String>,
    r: Result<(), Error>,
) -> bool {
    &&& r == Ok::<(), Error>(())
    &&& after.place.users@ == upsert_user(before.place.users@, user)
    &&& after.place.data == before.place.data
    &&& broadcast_result(before.websockets@, after.websockets@, user.id@, nonce, Update::User(user))
}

/// The id of the user who painted `p` (empty when `p` is unpainted).
pub open spec fn artist_of(p: PixelWithLocation) -> Seq<char> {
    match p.pixel {
        MaybePixel::Pixel(px) => px.artist_id@,
        MaybePixel::Empty => Seq::empty(),
    }
}

/// `after` is `before` once the cell that `pixel` names holds it (with
/// everyone told), unless the write is refused, in which case nothing
/// changes; `r` is the answer.
pub open spec fn paint_outcome(
    before: MetaPlace,
    after: MetaPlace,
    pixel: PixelWithLocation,
    nonce: Option<String>,
    r: Result<(), Error>,
) -> bool {
    match pixel_refusal(before.place, pixel) {
        Some(e) => r == Err::<(), Error>(e) && after == before,
        None => {
            &&& r == Ok::<(), Error>(())
            &&& after.place.cells() == before.place.cells().update(
                pixel.location.y as usize as int,
                before.place.cells()[pixel.location.y as usize as int].update(
                    pixel.location.x as usize as int,
                    pixel,
                ),
            )
            &&& after.place.users == before.place.users
            &&& broadcast_result(before.websockets@, after.websockets@, artist_of(pixel), nonce, Update::Pixel(pixel))
        },
    }
}

/// `after` is `before` once everyone is told about a chat message; `r` is
/// the answer.
pub open spec fn chat_outcome(before: MetaPlace, after: MetaPlace, msg: ChatMsg, nonce: Option<String>, r: Result<(), Error>) -> bool {
    &&& r == Ok::<(), Error>(())
    &&& after.place == before.place
    &&& broadcast_result(before.websockets@, after.websockets@, msg.user_id@, nonce, Update::Chat(msg))
}

/// The canvas and the connections of the clients that watch it.
pub struct MetaPlace {
    pub place: Place,
    pub websockets: Vec<WebsocketHandler>,
}

impl MetaPlace {
    /// Registers a client connection and returns the user stored under the
    /// client's id, if any.
    pub fn add_websocket(&mut self, id: String, handle: UnboundedSender<ToClientMsg>) -> (r: Option<User>)
        ensures
            final(self).websockets@.len() == old(self).websockets@.len() + 1,
            final(self).websockets@.drop_last() == old(self).websockets@,
            final(self).websockets@.last().id == id,
            final(self).websockets@.last().handle == handle,
            !final(self).websockets@.last().closed,
            final(self).websockets@.last().outbox() == Seq::<ToClientMsg>::empty(),
            final(self).websockets@.last().acks() == Seq::<bool>::empty(),
            final(self).place == old(self).place,
            r == lookup_user(old(self).place.users@, id@),
    {
        let found = match find_user(&self.place.users, id.as_str()) {
            Some(i) => Some(self.place.users[i].clone()),
            None => None,
        };
        self.websockets.push(WebsocketHandler { id, handle, closed: false, sent: Ghost(Seq::empty()), taken: Ghost(Seq::empty()) });
        found
    }

    /// Forgets every connection of client `id`.
    pub fn remove_websocket(&mut self, id: &str)
        ensures
            final(self).websockets@ == without_id(old(self).websockets@, id@),
            final(self).place == old(self).place,
    {
        let ghost orig = self.websockets@;
        let mut rest: Vec<WebsocketHandler> = Vec::new();
        std::mem::swap(&mut rest, &mut self.websockets);
        let mut out: Vec<WebsocketHandler> = Vec::new();
        let ghost mut k: int = 0;
        while rest.len() > 0
            invariant
                0 <= k <= orig.len(),
                rest@ == orig.skip(k),
                out@ == without_id(orig.take(k), id@),
            decreases rest.len(),
        {
            let w = rest.remove(0);
            proof {
                assert(orig.take(k + 1).drop_last() =~= orig.take(k));
                assert(w == orig[k]);
            }
            if !crate::text::text_eq(w.id.as_str(), id) {
                out.push(w);
            }
            proof {
                k = k + 1;
                assert(rest@ =~= orig.skip(k));
            }
        }
        proof {
            assert(orig.take(k) =~= orig);
        }
        self.websockets = out;
    }

    /// Writes `pixel` into the cell at its location, which must exist.
    pub fn store_pixel(&mut self, pixel: &PixelWithLocation)
        requires
            (pixel.location.y as usize) < old(self).place.data@.len(),
            (pixel.location.x as usize) < old(self).place.data@[pixel.location.y as usize as int].len(),
        ensures
            final(self).place.cells() == old(self).place.cells().update(
                pixel.location.y as usize as int,
                old(self).place.cells()[pixel.location.y as usize as int].update(
                    pixel.location.x as usize as int,
                    *pixel,
                ),
            ),
            final(self).place.users == old(self).place.users,
            final(self).websockets == old(self).websockets,
    {
        let y = #[verifier::truncate] (pixel.location.y as usize);
        let x = #[verifier::truncate] (pixel.location.x as usize);
        self.place.data[y][x] = pixel.clone();
        proof {
            assert(self.place.cells() =~= old(self).place.cells().update(
                y as int,
                old(self).place.cells()[y as int].update(x as int, *pixel),
            ));
        }
    }

    /// Renames the user stored under `id` and tells every client; the
    /// renamed user's own client gets `nonce`.
    pub fn update_username(&mut self, id: &str, name: &str, nonce: Option<String>) -> (r: Result<(), Error>)
        ensures
            rename_outcome(*old(self), *final(self), id@, name@, nonce, r),
            old(self).place.users_unique() ==> final(self).place.users_unique(),
    {
        let i = match find_user(&self.place.users, id) {
            Some(i) => i,
            None => return Err(Error::NoUser(id.to_string())),
        };
        self.place.users[i].name = name.to_string();
        let user = self.place.users[i].clone();
        let origin = user.id.clone();
        broadcast(&mut self.websockets, &origin, &nonce, &Update::User(user));
        proof {
            if old(self).place.users_unique() {
                lemma_rename_keeps_unique(old(self).place.users@, self.place.users@, i as int, name@);
            }
        }
        Ok(())
    }

    /// Stores `user` under its id and tells every client; the user's own
    /// client gets `nonce`.
    pub fn add_user(&mut self, user: User, nonce: Option<String>) -> (r: Result<(), Error>)
        ensures
            add_user_outcome(*old(self), *final(self), user, nonce, r),
            old(self).place.users_unique() ==> final(self).place.users_unique(),
    {
        let origin = user.id.clone();
        let announced = user.clone();
        let _ = self.place.set_user(user);
        broadcast(&mut self.websockets, &origin, &nonce, &Update::User(announced));
        Ok(())
    }

    /// Why writing `pixel` into the canvas would be refused, if it would.
    pub fn check_pixel(&self, pixel: &PixelWithLocation) -> (r: Option<Error>)
        ensures
            r == pixel_refusal(self.place, *pixel),
    {
        if pixel.pixel.is_empty() {
            return Some(Error::NotAPixel);
        }
        let y = #[verifier::truncate] (pixel.location.y as usize);
        let x = #[verifier::truncate] (pixel.location.x as usize);
        if y >= self.place.data.len() {
            return Some(Error::YOutOfBounds(pixel.location.y));
        }
        if x >= self.place.data[y].len() {
            return Some(Error::XOutOfBounds(pixel.location.x));
        }
        let same = match (&self.place.data[y][x].pixel, &pixel.pixel) {
            (MaybePixel::Pixel(j), MaybePixel::Pixel(k)) => j.color == k.color,
            _ => false,
        };
        if same {
            Some(Error::AlreadyHasColor)
        } else {
            None
        }
    }

    /// Paints the cell that `pixel` names and tells every client; the
    /// painter's own client gets `nonce`.
    pub fn update_pixel(&mut self, pixel: &PixelWithLocation, nonce: Option<String>) -> (r: Result<(), Error>)
        ensures
            paint_outcome(*old(self), *final(self), *pixel, nonce, r),
    {
        match self.check_pixel(pixel) {
            Some(e) => return Err(e),
            None => {},
        }
        let artist = match &pixel.pixel {
            MaybePixel::Pixel(p) => p.artist_id.clone(),
            MaybePixel::Empty => return Err(Error::NotAPixel),
        };
        self.store_pixel(pixel);
        broadcast(&mut self.websockets, &artist, &nonce, &Update::Pixel(pixel.clone()));
        Ok(())
    }

    /// Tells every client about a chat message; its author's client gets
    /// `nonce`.
    pub fn send_chat_msg(&mut self, msg: ChatMsg, nonce: Option<String>) -> (r: Result<(), Error>)
        ensures
            chat_outcome(*old(self), *final(self), msg, nonce, r),
    {
        let origin = msg.user_id.clone();
        broadcast(&mut self.websockets, &origin, &nonce, &Update::Chat(msg));
        Ok(())
    }
}

/// Dropping a client's connections undoes registering one more of them,
/// leaves none of that client's connections, and changes nothing for a
/// client without connections.
pub proof fn lemma_remove_undoes_add(ws: Seq<WebsocketHandler>, h: WebsocketHandler, id: Seq<char>)
    ensures
        without_id(ws.push(h), h.id@) == without_id(ws, h.id@),
        forall|i: int| 0 <= i < without_id(ws, id).len() ==> (#[trigger] without_id(ws, id)[i]).id@ != id,
        (forall|i: int| 0 <= i < ws.len() ==> (#[trigger] ws[i]).id@ != id) ==> without_id(ws, id) == ws,
    decreases ws.len(),
{
    assert(ws.push(h).drop_last() =~= ws);
    if ws.len() > 0 {
        lemma_remove_undoes_add(ws.drop_last(), h, id);
        let prev = without_id(ws.drop_last(), id);
        if ws.last().id@ != id {
            assert forall|i: int| 0 <= i < without_id(ws, id).len() implies (#[trigger] without_id(ws, id)[i]).id@ != id by {
                if i < prev.len() {
                    assert(without_id(ws, id)[i] == prev[i]);
                }
            }
        }
        if forall|i: int| 0 <= i < ws.len() ==> (#[trigger] ws[i]).id@ != id {
            assert forall|i: int| 0 <= i < ws.drop_last().len() implies (#[trigger] ws.drop_last()[i]).id@ != id by {
                assert(ws.drop_last()[i] == ws[i]);
            }
            assert(ws.last() == ws[ws.len() - 1]);
            assert(ws.drop_last().push(ws.last()) =~= ws);
        }
    }
}

proof fn lemma_open_only_sub(ws: Seq<WebsocketHandler>)
    ensures
        open_only(ws).len() <= ws.len(),
        forall|i: int| 0 <= i < open_only(ws).len() ==> ws.contains(#[trigger] open_only(ws)[i]),
        forall|i: int| 0 <= i < open_only(ws).len() ==> !(#[trigger] open_only(ws)[i]).closed,
    decreases ws.len(),
{
    if ws.len() > 0 {
        lemma_open_only_sub(ws.drop_last());
        let prev = open_only(ws.drop_last());
        assert forall|i: int| 0 <= i < open_only(ws).len() implies ws.contains(#[trigger] open_only(ws)[i])
            && !open_only(ws)[i].closed by {
            if i < prev.len() {
                assert(open_only(ws)[i] == prev[i]);
                let k = choose|k: int| 0 <= k < ws.drop_last().len() && ws.drop_last()[k] == prev[i];
                assert(ws[k] == prev[i]);
            } else {
                assert(ws[ws.len() - 1] == ws.last());
            }
        }
    }
}

/// The position in `ws` of the `i`-th connection that `keep` selects.
spec fn select_index(ws: Seq<WebsocketHandler>, keep: Seq<bool>, i: int) -> int
    decreases ws.len(),
{
    if ws.len() == 0 {
        0
    } else if keep[ws.len() - 1] && i == select(ws.drop_last(), keep).len() {
        ws.len() - 1
    } else {
        select_index(ws.drop_last(), keep, i)
    }
}

/// The `i`-th connection that `keep` selects from `ws` sits at a selected
/// position of `ws`.
spec fn picked(ws: Seq<WebsocketHandler>, keep: Seq<bool>, i: int) -> bool {
    let k = select_index(ws, keep, i);
    &&& 0 <= k < ws.len()
    &&& keep[k]
    &&& ws[k] == select(ws, keep)[i]
}

proof fn lemma_select_sub(ws: Seq<WebsocketHandler>, keep: Seq<bool>)
    requires
        keep.len() >= ws.len(),
    ensures
        select(ws, keep).len() <= ws.len(),
        forall|i: int| 0 <= i < select(ws, keep).len() ==> #[trigger] picked(ws, keep, i),
    decreases ws.len(),
{
    if ws.len() > 0 {
        lemma_select_sub(ws.drop_last(), keep);
        let prev = select(ws.drop_last(), keep);
        assert forall|i: int| 0 <= i < select(ws, keep).len() implies #[trigger] picked(ws, keep, i) by {
            if i < prev.len() {
                assert(picked(ws.drop_last(), keep, i));
                assert(select(ws, keep)[i] == prev[i]);
                let k = select_index(ws.drop_last(), keep, i);
                assert(ws[k] == ws.drop_last()[k]);
                assert(select_index(ws, keep, i) == k);
            } else {
                assert(keep[ws.len() - 1]);
                assert(i == prev.len());
                assert(select_index(ws, keep, i) == ws.len() - 1);
                assert(select(ws, keep)[i] == ws.last());
            }
        }
    }
}

/// After a broadcast, no more connections remain than were open before;
/// each remaining one is open, is one that was open before, now told its
/// message about the update, and its channel took that message.
pub proof fn lemma_broadcast_keeps_open(
    before: Seq<WebsocketHandler>,
    after: Seq<WebsocketHandler>,
    origin: Seq<char>,
    nonce: Option<String>,
    u: Update,
)
    requires
        broadcast_result(before, after, origin, nonce, u),
    ensures
        after.len() <= open_only(before).len(),
        forall|i: int| 0 <= i < after.len() ==> !(#[trigger] after[i]).closed && exists|w: WebsocketHandler|
            before.contains(w) && !w.closed && told(w, after[i], message_for(w, origin, nonce, u)),
        forall|i: int| 0 <= i < after.len() ==> (#[trigger] after[i]).acks().len() > 0 && after[i].acks().last(),
{
    let o = open_only(before);
    let (t, keep) = choose|t: Seq<WebsocketHandler>, keep: Seq<bool>|
        #![trigger select(t, keep)]
        {
            &&& t.len() == o.len()
            &&& keep.len() == o.len()
            &&& forall|i: int| 0 <= i < o.len() ==> told(o[i], #[trigger] t[i], message_for(o[i], origin, nonce, u))
            &&& forall|i: int| 0 <= i < o.len() ==> (#[trigger] t[i]).acks() == o[i].acks().push(keep[i])
            &&& after == select(t, keep)
        };
    lemma_open_only_sub(before);
    lemma_select_sub(t, keep);
    assert forall|i: int| 0 <= i < after.len() implies !(#[trigger] after[i]).closed && exists|w: WebsocketHandler|
        before.contains(w) && !w.closed && told(w, after[i], message_for(w, origin, nonce, u)) by {
        assert(after[i] == select(t, keep)[i]);
        assert(picked(t, keep, i));
        let k = select_index(t, keep, i);
        assert(told(o[k], t[k], message_for(o[k], origin, nonce, u)));
        assert(!o[k].closed);
        assert(before.contains(o[k]));
    }
    assert forall|i: int| 0 <= i < after.len() implies (#[trigger] after[i]).acks().len() > 0 && after[i].acks().last() by {
        assert(after[i] == select(t, keep)[i]);
        assert(picked(t, keep, i));
        let k = select_index(t, keep, i);
        assert(t[k].acks() == o[k].acks().push(keep[k]));
    }
}

/// Once a cell is painted, painting it again in the same colour is refused.
pub proof fn lemma_repaint_refused(
    before: MetaPlace,
    after: MetaPlace,
    pixel: PixelWithLocation,
    nonce: Option<String>,
    r: Result<(), Error>,
)
    requires
        paint_outcome(before, after, pixel, nonce, r),
        r is Ok,
    ensures
        pixel_refusal(after.place, pixel) == Some(Error::AlreadyHasColor),
{
    let y = pixel.location.y as usize as int;
    let x = pixel.location.x as usize as int;
    assert(after.place.cells().len() == before.place.cells().len());
    assert(after.place.data@.len() == after.place.cells().len());
    assert(after.place.cells()[y] == after.place.data@[y]@);
    assert(after.place.cells()[y][x] == pixel);
}

/// A paint of an existing cell is refused as already having its colour
/// exactly when that cell holds a painted pixel whose red, green and blue all
/// equal the requested ones; a paint whose colour differs from the cell's in
/// any one channel is accepted.
pub proof fn lemma_same_color_refusal(place: Place, p: PixelWithLocation)
    requires
        p.pixel is Pixel,
        (p.location.y as usize as int) < place.data@.len(),
        (p.location.x as usize as int) < place.data@[p.location.y as usize as int].len(),
    ensures
        ({
            let cell = place.cells()[p.location.y as usize as int][p.location.x as usize as int];
            let same = cell.pixel is Pixel && cell.pixel->0.color.r == p.pixel->0.color.r
                && cell.pixel->0.color.g == p.pixel->0.color.g && cell.pixel->0.color.b == p.pixel->0.color.b;
            &&& same ==> pixel_refusal(place, p) == Some(Error::AlreadyHasColor)
            &&& !same ==> pixel_refusal(place, p) is None
        }),
{
}

/// The other refusals of a paint, in the order they are checked: a request
/// without a pixel is not a pixel; a pixel on a row the canvas lacks names
/// that row; a pixel on a column its row lacks names that column.
pub proof fn lemma_refusal_reasons(place: Place, p: PixelWithLocation)
    ensures
        p.pixel is Empty ==> pixel_refusal(place, p) == Some(Error::NotAPixel),
        p.pixel is Pixel && (p.location.y as usize as int) >= place.data@.len() ==> pixel_refusal(place, p)
            == Some(Error::YOutOfBounds(p.location.y)),
        p.pixel is Pixel && (p.location.y as usize as int) < place.data@.len() && (p.location.x as usize as int)
            >= place.data@[p.location.y as usize as int].len() ==> pixel_refusal(place, p) == Some(
            Error::XOutOfBounds(p.location.x),
        ),
{
}

} // verus!
