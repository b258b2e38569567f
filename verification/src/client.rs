//! The client's settings, its table of requests that wait for an answer,
//! the routing of what the server sends, and the client's copy of the
//! canvas.

use vstd::prelude::*;
use tokio::sync::mpsc;
use tokio::sync::oneshot;
use crate::error::{Error, error_text};
use crate::messages::{TimeoutType, ToClientMsg, ToServerMsg};
use crate::model::{Color, GenericPixelWithLocation, User, XY, hash};
use crate::place::{Place, lookup_user, upsert_user, write_cell};
use crate::text::{decimal, parse_u16, parse_unsigned, push_decimal, push_str, text_eq, trim, trim_string};

verus! {

/// Whether the server is reached over TLS, or else on which port.
#[derive(Clone, Copy, Debug, PartialEq, Eq, Structural)]
pub enum HttpsOrPort {
    Https,
    Port(Option<u16>),
}

/// The client's settings: how and where to reach the server.
#[derive(Debug, PartialEq, Eq)]
pub struct Config {
    pub https: HttpsOrPort,
    pub url: String,
}

impl Clone for Config {
    fn clone(&self) -> (r: Self)
        ensures
            r == *self,
    {
        Config { https: self.https, url: self.url.clone() }
    }
}

/// `scheme://url`, then `:port` when a port is set.
pub open spec fn url_text(scheme: Seq<char>, https: HttpsOrPort, url: Seq<char>) -> Seq<char> {
    match https {
        HttpsOrPort::Https => scheme + "://"@ + url,
        HttpsOrPort::Port(None) => scheme + "://"@ + url,
        HttpsOrPort::Port(Some(p)) => scheme + "://"@ + url + ":"@ + decimal(p as nat),
    }
}

/// The address of the server under `secure` (with TLS) or `plain`.
fn address(c: &Config, secure: &str, plain: &str) -> (r: String)
    ensures
        r@ == url_text(if c.https is Https { secure@ } else { plain@ }, c.https, c.url@),
{
    let mut s = String::new();
    match c.https {
        HttpsOrPort::Https => push_str(&mut s, secure),
        HttpsOrPort::Port(_) => push_str(&mut s, plain),
    }
    push_str(&mut s, "://");
    push_str(&mut s, c.url.as_str());
    match c.https {
        HttpsOrPort::Port(Some(p)) => {
            push_str(&mut s, ":");
            push_decimal(&mut s, p as u64);
        },
        _ => {},
    }
    s
}

impl Config {
    /// The server's web address: `https://url`, or `http://url` with
    /// `:port` when a port is set.
    pub fn get_http_url(&self) -> (r: String)
        ensures
            r@ == url_text(if self.https is Https { "https"@ } else { "http"@ }, self.https, self.url@),
    {
        address(self, "https", "http")
    }

    /// The server's websocket address: `wss://url`, or `ws://url` with
    /// `:port` when a port is set.
    pub fn get_ws_url(&self) -> (r: String)
        ensures
            r@ == url_text(if self.https is Https { "wss"@ } else { "ws"@ }, self.https, self.url@),
    {
        address(self, "wss", "ws")
    }
}

/// Reads an answer to "Use https? (y/n)": `y` is yes, `n` is no, around
/// white space; anything else is no answer.
pub fn https_answer(line: &str) -> (r: Option<bool>)
    ensures
        trim(line@) == "y"@ ==> r == Some(true),
        trim(line@) == "n"@ ==> r == Some(false),
        trim(line@) != "y"@ && trim(line@) != "n"@ ==> r is None,
{
    proof {
        reveal_strlit("y");
        reveal_strlit("n");
        assert("y"@[0] != "n"@[0]);
    }
    let t = trim_string(line);
    if text_eq(t.as_str(), "y") {
        Some(true)
    } else if text_eq(t.as_str(), "n") {
        Some(false)
    } else {
        None
    }
}

/// Reads an answer to "Port (number or n)": `n` is no port, a number that
/// fits 16 bits is that port, around white space; anything else is no
/// answer.
pub fn port_answer(line: &str) -> (r: Option<Option<u16>>)
    ensures
        trim(line@) == "n"@ ==> r == Some(None::<u16>),
        trim(line@) != "n"@ ==> (match parse_unsigned(trim(line@), u16::MAX as nat) {
            Ok(p) => r == Some(Some(p as u16)),
            Err(_) => r is None,
        }),
{
    let t = trim_string(line);
    if text_eq(t.as_str(), "n") {
        return Some(None);
    }
    match parse_u16(t.as_str()) {
        Ok(p) => Some(Some(p)),
        Err(_) => None,
    }
}

/// The state of the client's connection to the server.
#[derive(Debug, PartialEq, Eq)]
pub enum WebsocketState {
    Connecting,
    Connected,
    Disconnected(String),
}

impl Clone for WebsocketState {
    fn clone(&self) -> (r: Self)
        ensures
            r == *self,
    {
        match self {
            WebsocketState::Connecting => WebsocketState::Connecting,
            WebsocketState::Connected => WebsocketState::Connected,
            WebsocketState::Disconnected(s) => WebsocketState::Disconnected(s.clone()),
        }
    }
}

impl WebsocketState {
    /// Replaces the state.
    pub fn set(&mut self, state: WebsocketState)
        ensures
            *final(self) == state,
    {
        *self = state;
    }

    /// What waiting for the connection decides in this state: done, failed
    /// with the reason, or keep waiting (`None`).
    pub fn connect_outcome(&self) -> (r: Option<Result<(), String>>)
        ensures
            *self == WebsocketState::Connected ==> r == Some(Ok::<(), String>(())),
            *self matches WebsocketState::Disconnected(e) ==> r == Some(Err::<(), String>(e)),
            *self == WebsocketState::Connecting ==> r is None,
    {
        match self {
            WebsocketState::Connected => Some(Ok(())),
            WebsocketState::Disconnected(e) => Some(Err(e.clone())),
            WebsocketState::Connecting => None,
        }
    }
}

/// What the connection hands on to the rest of the client.
#[derive(Clone, Debug, PartialEq, Eq)]
pub enum RX {
    Message(ToClientMsg),
    Binary(Vec<u8>),
    GenericError(String),
    TimeoutError(TimeoutType),
}

/// The answer to a request that waited for one; the first field is the
/// request's nonce.
#[derive(Clone, Debug, PartialEq, Eq)]
pub enum Callback {
    Heartbeat(String),
    GenericError(String, String),
    TimeoutError(String, TimeoutType),
    Message(String, RX),
    Binary(String, Vec<u8>),
}

/// A chat message whose author the client knows.
#[derive(Debug, PartialEq, Eq)]
pub struct VerifiedChatMsg {
    pub msg: String,
    pub user: User,
}

#[verifier::external_type_specification]
#[verifier::external_body]
#[verifier::reject_recursive_types(T)]
pub struct ExOneshotSender<T>(oneshot::Sender<T>);

#[verifier::external_type_specification]
#[verifier::external_body]
#[verifier::reject_recursive_types(T)]
pub struct ExMpscSender<T>(mpsc::Sender<T>);

#[verifier::external_type_specification]
#[verifier::external_body]
#[verifier::reject_recursive_types(T)]
pub struct ExMpscReceiver<T>(mpsc::Receiver<T>);

/// Opens a bounded channel (`mpsc::channel`). Its semaphore asserts that
/// the capacity is positive and at most `usize::MAX >> 3` (which is
/// `usize::MAX / 8`), so both bounds stand in `requires`. Nothing is stated of how the two halves are paired.
#[verifier::external_body]
fn open_channel(capacity: usize) -> (pair: (mpsc::Sender<RX>, mpsc::Receiver<RX>))
    requires
        capacity > 0,
        capacity <= usize::MAX / 8,
{
    mpsc::channel(capacity)
}

/// A request that waits for its answer.
pub struct PendingCallback {
    pub nonce: String,
    pub tx: oneshot::Sender<Callback>,
}

/// The requests that wait for an answer, each under its nonce, and the
/// channel for everything that answers no request. `answers` records, in
/// order, each answer handed to a waiting request together with the sender
/// it went to and whether that sender's receiving side took it.
pub struct CallbackHandler {
    callbacks: Vec<PendingCallback>,
    generic: Option<mpsc::Sender<RX>>,
    answers: Ghost<Seq<(oneshot::Sender<Callback>, Callback, bool)>>,
}

/// `i` is the position of the request waiting under `nonce`.
pub open spec fn waits_at(entries: Seq<PendingCallback>, nonce: Seq<char>, i: int) -> bool {
    0 <= i < entries.len() && entries[i].nonce@ == nonce
}

/// The nonces under which requests wait.
pub open spec fn nonces(entries: Seq<PendingCallback>) -> Set<Seq<char>> {
    Set::new(|n: Seq<char>| exists|i: int| waits_at(entries, n, i))
}

/// No two requests wait under the same nonce.
pub open spec fn distinct_nonces(entries: Seq<PendingCallback>) -> bool {
    forall|i: int, j: int|
        0 <= i < entries.len() && 0 <= j < entries.len() && i != j ==> entries[i].nonce@ != entries[j].nonce@
}

/// The sender of the request waiting under `nonce`.
pub open spec fn sender_in(entries: Seq<PendingCallback>, nonce: Seq<char>) -> oneshot::Sender<Callback> {
    entries[choose|i: int| waits_at(entries, nonce, i)].tx
}

/// Each nonce under which a request waits, with that request's sender.
pub open spec fn table(entries: Seq<PendingCallback>) -> Map<Seq<char>, oneshot::Sender<Callback>> {
    Map::new(|n: Seq<char>| nonces(entries).contains(n), |n: Seq<char>| sender_in(entries, n))
}

proof fn lemma_sender_at(entries: Seq<PendingCallback>, nonce: Seq<char>, k: int)
    requires
        distinct_nonces(entries),
        waits_at(entries, nonce, k),
    ensures
        nonces(entries).contains(nonce),
        table(entries).dom().contains(nonce),
        table(entries)[nonce] == entries[k].tx,
{
    let c = choose|i: int| waits_at(entries, nonce, i);
    assert(waits_at(entries, nonce, c));
    assert(c == k);
}

proof fn lemma_table_dom(entries: Seq<PendingCallback>)
    ensures
        table(entries).dom() == nonces(entries),
{
    assert(table(entries).dom() =~= nonces(entries));
}

/// Replacing the request under a nonce by another under the same nonce.
proof fn lemma_table_update(before: Seq<PendingCallback>, i: int, entry: PendingCallback)
    requires
        distinct_nonces(before),
        0 <= i < before.len(),
        before[i].nonce@ == entry.nonce@,
    ensures
        distinct_nonces(before.update(i, entry)),
        table(before.update(i, entry)) == table(before).insert(entry.nonce@, entry.tx),
        nonces(before).contains(entry.nonce@),
{
    let after = before.update(i, entry);
    let n = entry.nonce@;
    lemma_sender_at(before, n, i);
    assert(distinct_nonces(after)) by {
        assert forall|a: int, b: int| 0 <= a < after.len() && 0 <= b < after.len() && a != b implies after[a].nonce@
            != after[b].nonce@ by {
            assert(after[a].nonce@ == before[a].nonce@);
            assert(after[b].nonce@ == before[b].nonce@);
        }
    }
    lemma_sender_at(after, n, i);
    assert forall|m: Seq<char>| nonces(before).contains(m) implies nonces(after).contains(m) by {
        let k = choose|k: int| waits_at(before, m, k);
        assert(waits_at(after, m, k));
    }
    assert forall|m: Seq<char>| nonces(after).contains(m) implies nonces(before).contains(m) by {
        let k = choose|k: int| waits_at(after, m, k);
        assert(waits_at(before, m, k));
    }
    assert forall|m: Seq<char>| #[trigger] table(after).dom().contains(m) && m != n implies table(after)[m]
        == table(before)[m] by {
        let k = choose|k: int| waits_at(after, m, k);
        assert(k != i);
        lemma_sender_at(after, m, k);
        assert(waits_at(before, m, k));
        lemma_sender_at(before, m, k);
    }
    assert(table(after) =~= table(before).insert(n, entry.tx));
}

/// Adding a request under a nonce under which none waits.
proof fn lemma_table_push(before: Seq<PendingCallback>, entry: PendingCallback)
    requires
        distinct_nonces(before),
        !nonces(before).contains(entry.nonce@),
    ensures
        distinct_nonces(before.push(entry)),
        table(before.push(entry)) == table(before).insert(entry.nonce@, entry.tx),
{
    let after = before.push(entry);
    let n = entry.nonce@;
    let last = before.len() as int;
    assert(distinct_nonces(after)) by {
        assert forall|a: int, b: int| 0 <= a < after.len() && 0 <= b < after.len() && a != b implies after[a].nonce@
            != after[b].nonce@ by {
            if a == last && b < last {
                assert(!waits_at(before, n, b));
            } else if b == last && a < last {
                assert(!waits_at(before, n, a));
            }
        }
    }
    lemma_sender_at(after, n, last);
    assert forall|m: Seq<char>| nonces(before).contains(m) implies nonces(after).contains(m) by {
        let k = choose|k: int| waits_at(before, m, k);
        assert(waits_at(after, m, k));
    }
    assert forall|m: Seq<char>| nonces(after).contains(m) && m != n implies nonces(before).contains(m) by {
        let k = choose|k: int| waits_at(after, m, k);
        assert(waits_at(before, m, k));
    }
    assert forall|m: Seq<char>| #[trigger] table(after).dom().contains(m) && m != n implies table(after)[m]
        == table(before)[m] by {
        let k = choose|k: int| waits_at(after, m, k);
        lemma_sender_at(after, m, k);
        assert(waits_at(before, m, k));
        lemma_sender_at(before, m, k);
    }
    assert(table(after) =~= table(before).insert(n, entry.tx));
}

/// Taking out the request at position `i`.
proof fn lemma_table_remove(before: Seq<PendingCallback>, i: int)
    requires
        distinct_nonces(before),
        0 <= i < before.len(),
    ensures
        distinct_nonces(before.remove(i)),
        table(before.remove(i)) == table(before).remove(before[i].nonce@),
        nonces(before).contains(before[i].nonce@),
        table(before)[before[i].nonce@] == before[i].tx,
{
    let after = before.remove(i);
    let n = before[i].nonce@;
    lemma_sender_at(before, n, i);
    assert(distinct_nonces(after)) by {
        assert forall|a: int, b: int| 0 <= a < after.len() && 0 <= b < after.len() && a != b implies after[a].nonce@
            != after[b].nonce@ by {
            let a0 = if a < i { a } else { a + 1 };
            let b0 = if b < i { b } else { b + 1 };
            assert(after[a] == before[a0]);
            assert(after[b] == before[b0]);
        }
    }
    assert forall|m: Seq<char>| nonces(after).contains(m) implies nonces(before).contains(m) && m != n by {
        let k = choose|k: int| waits_at(after, m, k);
        let k0 = if k < i { k } else { k + 1 };
        assert(after[k] == before[k0]);
        assert(waits_at(before, m, k0));
    }
    assert forall|m: Seq<char>| nonces(before).contains(m) && m != n implies nonces(after).contains(m) by {
        let k = choose|k: int| waits_at(before, m, k);
        assert(k != i);
        let k1 = if k < i { k } else { k - 1 };
        assert(after[k1] == before[k]);
        assert(waits_at(after, m, k1));
    }
    assert forall|m: Seq<char>| #[trigger] table(after).dom().contains(m) implies table(after)[m]
        == table(before)[m] by {
        let k = choose|k: int| waits_at(after, m, k);
        lemma_sender_at(after, m, k);
        let k0 = if k < i { k } else { k + 1 };
        assert(after[k] == before[k0]);
        assert(waits_at(before, m, k0));
        lemma_sender_at(before, m, k0);
    }
    assert(table(after) =~= table(before).remove(n));
}

fn find_pending(entries: &Vec<PendingCallback>, nonce: &str) -> (r: Option<usize>)
    ensures
        r matches Some(i) ==> waits_at(entries@, nonce@, i as int),
        r is None ==> !nonces(entries@).contains(nonce@),
{
    let mut i: usize = 0;
    while i < entries.len()
        invariant
            i <= entries.len(),
            forall|j: int| 0 <= j < i ==> entries@[j].nonce@ != nonce@,
        decreases entries.len() - i,
    {
        if text_eq(entries[i].nonce.as_str(), nonce) {
            return Some(i);
        }
        i = i + 1;
    }
    None
}

/// `after` is `before` once the request waiting under `nonce` has been
/// handed `cb` and taken out of the table. When none waited there, nothing
/// was handed and the table is as it was.
pub open spec fn answered(before: CallbackHandler, after: CallbackHandler, nonce: Seq<char>, cb: Callback) -> bool {
    &&& after.pending() == before.pending().remove(nonce)
    &&& after.waiting() == before.waiting().remove(nonce)
    &&& after.generic_channel() == before.generic_channel()
    &&& after.answers() == if before.waiting().contains(nonce) {
        before.answers().push((before.pending()[nonce], cb, after.answers().last().2))
    } else {
        before.answers()
    }
}

/// A request waited under `nonce` in `before`, and its receiving side took
/// the answer handed to it on the way to `after`.
pub open spec fn taken(before: CallbackHandler, after: CallbackHandler, nonce: Seq<char>) -> bool {
    before.waiting().contains(nonce) && after.answers().last().2
}

/// `after` is `before` once a request waits under `nonce` with `tx` for its
/// answer, in place of any that waited there.
pub open spec fn inserted(
    before: CallbackHandler,
    after: CallbackHandler,
    nonce: Seq<char>,
    tx: oneshot::Sender<Callback>,
) -> bool {
    &&& after.pending() == before.pending().insert(nonce, tx)
    &&& after.waiting() == before.waiting().insert(nonce)
    &&& after.answers() == before.answers()
    &&& after.generic_channel() == before.generic_channel()
}

impl CallbackHandler {
    /// No two requests wait under the same nonce.
    #[verifier::type_invariant]
    spec fn wf(&self) -> bool {
        distinct_nonces(self.callbacks@)
    }

    /// The nonces under which requests wait.
    pub closed spec fn waiting(&self) -> Set<Seq<char>> {
        nonces(self.callbacks@)
    }

    /// Each nonce under which a request waits, with the sender on which its
    /// answer goes.
    pub closed spec fn pending(&self) -> Map<Seq<char>, oneshot::Sender<Callback>> {
        table(self.callbacks@)
    }

    /// Every answer handed to a waiting request so far, in order, with the
    /// sender it was handed to and whether its receiving side took it.
    pub closed spec fn answers(&self) -> Seq<(oneshot::Sender<Callback>, Callback, bool)> {
        self.answers@
    }

    /// The sending half of the catch-all channel, when it is open.
    pub closed spec fn generic_channel(&self) -> Option<mpsc::Sender<RX>> {
        self.generic
    }

    /// Whether the catch-all channel is open.
    pub open spec fn generic_open(&self) -> bool {
        self.generic_channel() is Some
    }

    /// The nonces under which requests wait are those of the table.
    pub proof fn lemma_waiting_is_pending(&self)
        ensures
            self.pending().dom() == self.waiting(),
    {
        lemma_table_dom(self.callbacks@);
    }

    /// Hands `cb` to the request that waits on `tx` (`oneshot::Sender::send`,
    /// which moves the value into the channel when the receiving side is
    /// still there and does not panic). The handover is recorded in
    /// `answers`. The boolean tells whether the receiving side was still
    /// there, which nothing here can see, so nothing is promised of it
    /// beyond its being recorded with the handover.
    #[verifier::external_body]
    fn answer_waiter(&mut self, tx: oneshot::Sender<Callback>, cb: Callback) -> (delivered: bool)
        ensures
            final(self).callbacks == old(self).callbacks,
            final(self).generic == old(self).generic,
            final(self).answers@ == old(self).answers@.push((tx, cb, delivered)),
    {
        match tx.send(cb) {
            Ok(()) => true,
            Err(_) => false,
        }
    }

    /// An empty table, without a catch-all channel, that has answered
    /// nothing yet.
    pub fn new() -> (h: Self)
        ensures
            h.waiting() == Set::<Seq<char>>::empty(),
            h.pending() == Map::<Seq<char>, oneshot::Sender<Callback>>::empty(),
            h.answers() == Seq::<(oneshot::Sender<Callback>, Callback, bool)>::empty(),
            h.generic_channel() is None,
    {
        let h = CallbackHandler { callbacks: Vec::new(), generic: None, answers: Ghost(Seq::empty()) };
        proof {
            assert(nonces(h.callbacks@) =~= Set::<Seq<char>>::empty());
            lemma_table_dom(h.callbacks@);
            assert(table(h.callbacks@) =~= Map::<Seq<char>, oneshot::Sender<Callback>>::empty());
        }
        h
    }

    /// Lets a request wait under `nonce`, with `tx` for its answer. A request
    /// already waiting there is replaced, and the answer is then an error.
    pub fn insert(&mut self, nonce: String, tx: oneshot::Sender<Callback>) -> (r: Result<(), Error>)
        ensures
            inserted(*old(self), *final(self), nonce@, tx),
            r == if old(self).waiting().contains(nonce@) {
                Err::<(), Error>(Error::DuplicateNonce)
            } else {
                Ok::<(), Error>(())
            },
    {
        proof {
            use_type_invariant(&*self);
        }
        let ghost before = self.callbacks@;
        let ghost entry = PendingCallback { nonce, tx };
        proof {
            lemma_table_dom(before);
        }
        let mut callbacks: Vec<PendingCallback> = Vec::new();
        std::mem::swap(&mut callbacks, &mut self.callbacks);
        match find_pending(&callbacks, nonce.as_str()) {
            Some(i) => {
                callbacks.set(i, PendingCallback { nonce, tx });
                proof {
                    lemma_table_update(before, i as int, entry);
                    lemma_table_dom(callbacks@);
                }
                self.callbacks = callbacks;
                Err(Error::DuplicateNonce)
            },
            None => {
                callbacks.push(PendingCallback { nonce, tx });
                proof {
                    lemma_table_push(before, entry);
                    lemma_table_dom(callbacks@);
                }
                self.callbacks = callbacks;
                Ok(())
            },
        }
    }

    /// Answers the request waiting under `nonce` with `callback`, and stops
    /// it waiting. Errors: no request waits there, or its waiting side is
    /// gone.
    pub fn fulfill(&mut self, nonce: String, callback: Callback) -> (r: Result<(), Error>)
        ensures
            answered(*old(self), *final(self), nonce@, callback),
            r == if taken(*old(self), *final(self), nonce@) {
                Ok::<(), Error>(())
            } else if old(self).waiting().contains(nonce@) {
                Err::<(), Error>(Error::CallbackSendFailed)
            } else {
                Err::<(), Error>(Error::CallbackMissing)
            },
    {
        proof {
            use_type_invariant(&*self);
        }
        let ghost before = self.callbacks@;
        proof {
            lemma_table_dom(before);
        }
        match find_pending(&self.callbacks, nonce.as_str()) {
            None => {
                assert(nonces(before) =~= nonces(before).remove(nonce@));
                assert(table(before) =~= table(before).remove(nonce@));
                Err(Error::CallbackMissing)
            },
            Some(i) => {
                let mut callbacks: Vec<PendingCallback> = Vec::new();
                std::mem::swap(&mut callbacks, &mut self.callbacks);
                let entry = callbacks.remove(i);
                proof {
                    lemma_table_remove(before, i as int);
                    lemma_table_dom(callbacks@);
                }
                self.callbacks = callbacks;
                if self.answer_waiter(entry.tx, callback) {
                    Ok(())
                } else {
                    Err(Error::CallbackSendFailed)
                }
            },
        }
    }

    /// Opens the catch-all channel, with room for 100 messages, and returns
    /// its receiving half; refused, with everything left as it was, when it
    /// is open already.
    pub fn set_generic(&mut self) -> (r: Result<mpsc::Receiver<RX>, Error>)
        ensures
            old(self).generic_open() ==> (r matches Err(e) && e == Error::GenericAlreadySet) && *final(self)
                == *old(self),
            !old(self).generic_open() ==> r is Ok && final(self).generic_open()
                && final(self).pending() == old(self).pending() && final(self).waiting() == old(self).waiting()
                && final(self).answers() == old(self).answers(),
    {
        proof {
            use_type_invariant(&*self);
        }
        if self.generic.is_some() {
            return Err(Error::GenericAlreadySet);
        }
        let (tx, rx) = open_channel(100);
        self.generic = Some(tx);
        Ok(rx)
    }

    /// The sending half of the catch-all channel, when it is open.
    pub fn generic_sender(&self) -> (r: Result<&mpsc::Sender<RX>, Error>)
        ensures
            self.generic_channel() matches Some(tx) ==> r == Ok::<&mpsc::Sender<RX>, Error>(&tx),
            !self.generic_open() ==> (r matches Err(e) && e == Error::GenericNotSet),
    {
        match &self.generic {
            Some(tx) => Ok(tx),
            None => Err(Error::GenericNotSet),
        }
    }
}

/// What became of a message from the server: a line for the log, a message
/// for the catch-all channel, and whether to answer with a heartbeat.
#[derive(Debug, PartialEq, Eq)]
pub struct Incoming {
    pub log: Option<String>,
    pub forward: Option<RX>,
    pub reply_heartbeat: bool,
}

/// The log line after answering the request under a nonce: none when the
/// waiting request took the answer (`took`); else `prefix` and the reason:
/// its waiting side was gone, or no request waited.
pub open spec fn fulfil_log(log: Option<String>, prefix: Seq<char>, was_waiting: bool, took: bool) -> bool {
    if took {
        log is None
    } else if was_waiting {
        log matches Some(l) && l@ == prefix + error_text(Error::CallbackSendFailed)
    } else {
        log matches Some(l) && l@ == prefix + error_text(Error::CallbackMissing)
    }
}

fn failure_log(prefix: &str, r: Result<(), Error>) -> (log: Option<String>)
    ensures
        r is Ok ==> log is None,
        r matches Err(e) ==> (log matches Some(l) && l@ == prefix@ + error_text(e)),
{
    match r {
        Ok(()) => None,
        Err(e) => {
            let mut l = String::new();
            push_str(&mut l, prefix);
            let m = e.message();
            push_str(&mut l, m.as_str());
            Some(l)
        },
    }
}

/// The message of an update is one the client may be waiting for.
pub open spec fn is_update(msg: ToClientMsg) -> bool {
    msg is PixelUpdate || msg is UserUpdate || msg is ChatMsg
}

/// The nonce that an update answers.
pub open spec fn update_nonce(msg: ToClientMsg) -> Option<String> {
    match msg {
        ToClientMsg::PixelUpdate(n, _) => n,
        ToClientMsg::UserUpdate(n, _) => n,
        ToClientMsg::ChatMsg(n, _) => n,
        _ => None,
    }
}

fn update_nonce_of(msg: &ToClientMsg) -> (r: Option<String>)
    ensures
        r == update_nonce(*msg),
{
    match msg {
        ToClientMsg::PixelUpdate(n, _) => n.clone(),
        ToClientMsg::UserUpdate(n, _) => n.clone(),
        ToClientMsg::ChatMsg(n, _) => n.clone(),
        _ => None,
    }
}

impl CallbackHandler {
    /// Routes a message from the server. A heartbeat is answered with a
    /// heartbeat; a heartbeat, error or timeout that carries a nonce answers
    /// the request waiting under it; an update that carries a nonce answers
    /// the request waiting under it, and goes to the catch-all channel when
    /// that fails; an update without a nonce goes to the catch-all channel.
    pub fn route_message(&mut self, msg: ToClientMsg) -> (r: Incoming)
        ensures
            r.reply_heartbeat == (msg is Heartbeat),
            msg matches ToClientMsg::Heartbeat(Some(n)) ==> answered(
                *old(self),
                *final(self),
                n@,
                Callback::Heartbeat(n),
            ) && r.forward is None && fulfil_log(
                r.log,
                "Failed to fulfill heartbeat callback: "@,
                old(self).waiting().contains(n@),
                taken(*old(self), *final(self), n@),
            ),
            msg matches ToClientMsg::GenericError(Some(n), e) ==> answered(
                *old(self),
                *final(self),
                n@,
                Callback::GenericError(n, e),
            ) && r.forward is None && fulfil_log(
                r.log,
                "Failed to fulfill generic error callback: "@,
                old(self).waiting().contains(n@),
                taken(*old(self), *final(self), n@),
            ),
            msg matches ToClientMsg::TimeoutError(Some(n), t) ==> answered(
                *old(self),
                *final(self),
                n@,
                Callback::TimeoutError(n, t),
            ) && r.forward is None && fulfil_log(
                r.log,
                "Failed to fulfill timeout error callback: "@,
                old(self).waiting().contains(n@),
                taken(*old(self), *final(self), n@),
            ),
            (msg matches ToClientMsg::Heartbeat(None) || msg matches ToClientMsg::GenericError(None, _)
                || msg matches ToClientMsg::TimeoutError(None, _)) ==> *final(self) == *old(self)
                && r.forward is None && r.log is None,
            is_update(msg) && update_nonce(msg) is None ==> *final(self) == *old(self) && r.forward == Some(
                RX::Message(msg),
            ) && r.log is None,
            update_nonce(msg) matches Some(n) ==> answered(
                *old(self),
                *final(self),
                n@,
                Callback::Message(n, RX::Message(msg)),
            ) && r.log is None && r.forward == if taken(*old(self), *final(self), n@) {
                None
            } else {
                Some(RX::Message(msg))
            },
    {
        match msg {
            ToClientMsg::Heartbeat(nonce) => {
                let log = match nonce {
                    Some(n) => {
                        let res = self.fulfill(n.clone(), Callback::Heartbeat(n));
                        failure_log("Failed to fulfill heartbeat callback: ", res)
                    },
                    None => None,
                };
                Incoming { log, forward: None, reply_heartbeat: true }
            },
            ToClientMsg::GenericError(Some(n), e) => {
                let res = self.fulfill(n.clone(), Callback::GenericError(n, e));
                let log = failure_log("Failed to fulfill generic error callback: ", res);
                Incoming { log, forward: None, reply_heartbeat: false }
            },
            ToClientMsg::TimeoutError(Some(n), t) => {
                let res = self.fulfill(n.clone(), Callback::TimeoutError(n, t));
                let log = failure_log("Failed to fulfill timeout error callback: ", res);
                Incoming { log, forward: None, reply_heartbeat: false }
            },
            ToClientMsg::GenericError(None, _) => Incoming { log: None, forward: None, reply_heartbeat: false },
            ToClientMsg::TimeoutError(None, _) => Incoming { log: None, forward: None, reply_heartbeat: false },
            _ => {
                match update_nonce_of(&msg) {
                    Some(n) => {
                        let res = self.fulfill(n.clone(), Callback::Message(n, RX::Message(msg.clone())));
                        match res {
                            Ok(()) => Incoming { log: None, forward: None, reply_heartbeat: false },
                            Err(_) => Incoming { log: None, forward: Some(RX::Message(msg)), reply_heartbeat: false },
                        }
                    },
                    None => Incoming { log: None, forward: Some(RX::Message(msg)), reply_heartbeat: false },
                }
            },
        }
    }

    /// Routes binary data from the server: it answers the request waiting
    /// under the nonce `binary`; the result is the log line when that fails.
    pub fn route_binary(&mut self, data: Vec<u8>) -> (log: Option<String>)
        ensures
            exists|s: String| s@ == "binary"@ && #[trigger] answered(
                *old(self),
                *final(self),
                s@,
                Callback::Binary(s, data),
            ),
            fulfil_log(
                log,
                "Failed to fulfill binary callback: "@,
                old(self).waiting().contains("binary"@),
                taken(*old(self), *final(self), "binary"@),
            ),
    {
        let s = "binary".to_string();
        let res = self.fulfill(s.clone(), Callback::Binary(s, data));
        failure_log("Failed to fulfill binary callback: ", res)
    }
}

/// The nonce under which the answer to `msg` is awaited: `binary` for a
/// request of the canvas (the server sends the canvas as binary data, which
/// answers under that nonce), else `nonce`.
pub fn callback_nonce(msg: &ToServerMsg, nonce: String) -> (r: String)
    ensures
        msg is RequestPlace ==> r@ == "binary"@,
        !(msg is RequestPlace) ==> r == nonce,
{
    match msg {
        ToServerMsg::RequestPlace(_) => "binary".to_string(),
        _ => nonce,
    }
}

/// Takes the next request nonce: the decimal spelling of the counter, which
/// then advances.
pub fn next_nonce(counter: &mut u64) -> (n: String)
    requires
        *old(counter) < u64::MAX,
    ensures
        n@ == decimal(*old(counter) as nat),
        *final(counter) == *old(counter) + 1,
{
    let mut s = String::new();
    push_decimal(&mut s, *counter);
    *counter = *counter + 1;
    hash(s)
}

/// A paint request under the next nonce, with that nonce.
pub fn paint_request(counter: &mut u64, location: XY, color: Color) -> (r: (String, ToServerMsg))
    requires
        *old(counter) < u64::MAX,
    ensures
        r.0@ == decimal(*old(counter) as nat),
        *final(counter) == *old(counter) + 1,
        r.1 == ToServerMsg::SetPixel(r.0, GenericPixelWithLocation { location, color }),
{
    let nonce = next_nonce(counter);
    let msg = ToServerMsg::SetPixel(nonce.clone(), GenericPixelWithLocation { location, color });
    (nonce, msg)
}

/// A chat request under the next nonce, with that nonce.
pub fn chat_request(counter: &mut u64, text: String) -> (r: (String, ToServerMsg))
    requires
        *old(counter) < u64::MAX,
    ensures
        r.0@ == decimal(*old(counter) as nat),
        *final(counter) == *old(counter) + 1,
        r.1 == ToServerMsg::ChatMsg(r.0, text),
{
    let nonce = next_nonce(counter);
    let msg = ToServerMsg::ChatMsg(nonce.clone(), text);
    (nonce, msg)
}

/// A rename request under the next nonce, with that nonce.
pub fn name_request(counter: &mut u64, name: String) -> (r: (String, ToServerMsg))
    requires
        *old(counter) < u64::MAX,
    ensures
        r.0@ == decimal(*old(counter) as nat),
        *final(counter) == *old(counter) + 1,
        r.1 == ToServerMsg::SetName(r.0, name),
{
    let nonce = next_nonce(counter);
    let msg = ToServerMsg::SetName(nonce.clone(), name);
    (nonce, msg)
}

/// What a message from the server did to the client's copy of the canvas,
/// and what to show.
#[derive(Debug, PartialEq, Eq)]
pub enum ClientEvent {
    /// Nothing to show.
    Quiet,
    /// The canvas changed.
    Changed,
    /// A chat message from a known user.
    Chat(VerifiedChatMsg),
    /// A chat message from a user the client does not know (its id).
    UnknownUser(String),
    /// A pixel update that the canvas refused.
    PixelRejected(Error),
    /// An error from the server.
    ServerError(String),
    /// A cooldown from the server.
    ServerTimeout(TimeoutType),
}

/// Applies a message from the server to the client's canvas. `answered` is
/// whether it came as the answer to one of the client's requests: then a
/// user update counts as a change, and errors and cooldowns are not shown
/// (their request shows them).
pub fn apply_server_message(place: &mut Place, msg: ToClientMsg, answered: bool) -> (r: ClientEvent)
    requires
        msg matches ToClientMsg::PixelUpdate(_, p) ==> old(place).addressable(p.location),
    ensures
        msg matches ToClientMsg::PixelUpdate(_, p) ==> if old(place).in_bounds(p.location) {
            r == ClientEvent::Changed && final(place).cells() == write_cell(old(place).cells(), p)
                && final(place).users == old(place).users
        } else {
            r == ClientEvent::PixelRejected(Error::PixelOutOfBounds) && *final(place) == *old(place)
        },
        msg matches ToClientMsg::UserUpdate(_, u) ==> final(place).users@ == upsert_user(old(place).users@, u)
            && final(place).data == old(place).data && r == if answered {
            ClientEvent::Changed
        } else {
            ClientEvent::Quiet
        },
        msg matches ToClientMsg::ChatMsg(_, m) ==> *final(place) == *old(place) && match lookup_user(
            old(place).users@,
            m.user_id@,
        ) {
            Some(u) => r == ClientEvent::Chat(VerifiedChatMsg { msg: m.msg, user: u }),
            None => r == ClientEvent::UnknownUser(m.user_id),
        },
        msg is Heartbeat ==> *final(place) == *old(place) && r == ClientEvent::Quiet,
        msg matches ToClientMsg::GenericError(_, e) ==> *final(place) == *old(place) && r == if answered {
            ClientEvent::Quiet
        } else {
            ClientEvent::ServerError(e)
        },
        msg matches ToClientMsg::TimeoutError(_, t) ==> *final(place) == *old(place) && r == if answered {
            ClientEvent::Quiet
        } else {
            ClientEvent::ServerTimeout(t)
        },
{
    match msg {
        ToClientMsg::PixelUpdate(_, p) => {
            match place.set_pixel(p) {
                Ok(()) => ClientEvent::Changed,
                Err(e) => ClientEvent::PixelRejected(e),
            }
        },
        ToClientMsg::UserUpdate(_, u) => {
            let _ = place.set_user(u);
            if answered {
                ClientEvent::Changed
            } else {
                ClientEvent::Quiet
            }
        },
        ToClientMsg::ChatMsg(_, m) => {
            match place.get_user(m.user_id.clone()) {
                Some(u) => ClientEvent::Chat(VerifiedChatMsg { msg: m.msg, user: u }),
                None => ClientEvent::UnknownUser(m.user_id),
            }
        },
        ToClientMsg::Heartbeat(_) => ClientEvent::Quiet,
        ToClientMsg::GenericError(_, e) => {
            if answered {
                ClientEvent::Quiet
            } else {
                ClientEvent::ServerError(e)
            }
        },
        ToClientMsg::TimeoutError(_, t) => {
            if answered {
                ClientEvent::Quiet
            } else {
                ClientEvent::ServerTimeout(t)
            }
        },
    }
}

/// Letting a request wait under a fresh nonce with `tx`, and then answering
/// under that nonce with `cb`, hands `cb` to `tx` and leaves the same requests
/// waiting, each with its own sender, as before.
pub proof fn lemma_insert_then_fulfill(
    h0: CallbackHandler,
    h1: CallbackHandler,
    h2: CallbackHandler,
    nonce: Seq<char>,
    tx: oneshot::Sender<Callback>,
    cb: Callback,
)
    requires
        !h0.waiting().contains(nonce),
        inserted(h0, h1, nonce, tx),
        answered(h1, h2, nonce, cb),
    ensures
        h2.pending() == h0.pending(),
        h2.waiting() == h0.waiting(),
        h2.answers() == h0.answers().push((tx, cb, h2.answers().last().2)),
        h2.generic_channel() == h0.generic_channel(),
{
    h0.lemma_waiting_is_pending();
    assert(h0.pending().insert(nonce, tx).remove(nonce) =~= h0.pending());
    assert(h0.waiting().insert(nonce).remove(nonce) =~= h0.waiting());
}

/// The web and websocket addresses name the same place: they differ only
/// in the scheme.
pub proof fn lemma_urls_share_address(https: HttpsOrPort, url: Seq<char>)
    ensures
        https is Https ==> url_text("https"@, https, url).skip(5) == url_text("wss"@, https, url).skip(3),
        !(https is Https) ==> url_text("http"@, https, url).skip(4) == url_text("ws"@, https, url).skip(2),
{
    reveal_strlit("https");
    reveal_strlit("http");
    reveal_strlit("wss");
    reveal_strlit("ws");
    match https {
        HttpsOrPort::Https => {
            assert(url_text("https"@, https, url).skip(5) =~= "://"@ + url);
            assert(url_text("wss"@, https, url).skip(3) =~= "://"@ + url);
        },
        HttpsOrPort::Port(None) => {
            assert(url_text("http"@, https, url).skip(4) =~= "://"@ + url);
            assert(url_text("ws"@, https, url).skip(2) =~= "://"@ + url);
        },
        HttpsOrPort::Port(Some(p)) => {
            assert(url_text("http"@, https, url).skip(4) =~= "://"@ + url + ":"@ + decimal(p as nat));
            assert(url_text("ws"@, https, url).skip(2) =~= "://"@ + url + ":"@ + decimal(p as nat));
        },
    }
}

/// A client whose canvas matches the server's stays in step with it: when
/// the server accepts a pixel, the client's canvas (rows of equal length)
/// holds that cell inside its bounds, and writing the broadcast pixel there
/// gives the server's new canvas.
pub proof fn lemma_replica_follows_paint(
    server_before: crate::meta_place::MetaPlace,
    server_after: crate::meta_place::MetaPlace,
    pixel: crate::model::PixelWithLocation,
    nonce: Option<String>,
    client_cells: Seq<Seq<crate::model::PixelWithLocation>>,
)
    requires
        crate::meta_place::paint_outcome(server_before, server_after, pixel, nonce, Ok(())),
        client_cells == server_before.place.cells(),
        crate::place::rectangular(client_cells),
        pixel.location.x <= usize::MAX,
        pixel.location.y <= usize::MAX,
    ensures
        pixel.location.y < client_cells.len(),
        pixel.location.x < client_cells[0].len(),
        write_cell(client_cells, pixel) == server_after.place.cells(),
{
    let sb = server_before.place;
    assert(crate::meta_place::pixel_refusal(sb, pixel) is None);
    let y = pixel.location.y as usize as int;
    assert(sb.cells().len() == sb.data@.len());
    assert(sb.cells()[y] == sb.data@[y]@);
    assert(client_cells[y].len() == client_cells[0].len());
}

/// Every update, whatever it announces (a pixel, a user or a chat message),
/// answers the request under the nonce it carries, and one that carries no
/// nonce answers none.
pub proof fn lemma_updates_answer_their_nonce(
    n: Option<String>,
    p: crate::model::PixelWithLocation,
    u: User,
    c: crate::model::ChatMsg,
)
    ensures
        is_update(ToClientMsg::PixelUpdate(n, p)) && update_nonce(ToClientMsg::PixelUpdate(n, p)) == n,
        is_update(ToClientMsg::UserUpdate(n, u)) && update_nonce(ToClientMsg::UserUpdate(n, u)) == n,
        is_update(ToClientMsg::ChatMsg(n, c)) && update_nonce(ToClientMsg::ChatMsg(n, c)) == n,
{
}

} // verus!
