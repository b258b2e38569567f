//! The messages that clients and the server exchange, and the reading of a
//! typed command line into a request.

use vstd::prelude::*;
use crate::error::{Arg, Error};
use crate::model::{ChatMsg, Color, GenericPixelWithLocation, PixelWithLocation, User, XY};
use crate::text::{
    IntErrorKind, join, join_from, parse_u64, parse_u8, parse_unsigned, scan_digits, text_eq, trim,
    trim_string, views,
};

verus! {

/// Which rule refused a request for being too early, and the seconds left.
#[derive(Clone, Copy, Debug, PartialEq, Eq, Structural)]
pub enum TimeoutType {
    Username(u64),
    Pixel(u64),
    Chat(u64),
}

/// A message from the server to a client. The first field is the nonce of
/// the client request that it answers, if any.
#[derive(Debug, PartialEq, Eq)]
pub enum ToClientMsg {
    PixelUpdate(Option<String>, PixelWithLocation),
    UserUpdate(Option<String>, User),
    Heartbeat(Option<String>),
    GenericError(Option<String>, String),
    TimeoutError(Option<String>, TimeoutType),
    ChatMsg(Option<String>, ChatMsg),
}

/// A request from a client to the server. The first field is the request's
/// nonce.
#[derive(Debug, PartialEq, Eq)]
pub enum ToServerMsg {
    SetPixel(String, GenericPixelWithLocation),
    SetName(String, String),
    Heartbeat(String),
    RequestPlace(String),
    ChatMsg(String, String),
}

/// What the server tells anyone about the canvas.
#[derive(Clone, Copy, Debug, PartialEq, Eq, Structural)]
pub struct SafeInfo {
    pub size: XY,
}

impl SafeInfo {
    /// The public facts about a canvas of the given size.
    pub fn new(size: XY) -> (r: Self)
        ensures
            r == (SafeInfo { size }),
    {
        SafeInfo { size }
    }
}

fn clone_opt(s: &Option<String>) -> (r: Option<String>)
    ensures
        r == *s,
{
    match s {
        Some(x) => Some(x.clone()),
        None => None,
    }
}

impl Clone for ToClientMsg {
    fn clone(&self) -> (r: Self)
        ensures
            r == *self,
    {
        match self {
            ToClientMsg::PixelUpdate(n, p) => ToClientMsg::PixelUpdate(clone_opt(n), p.clone()),
            ToClientMsg::UserUpdate(n, u) => ToClientMsg::UserUpdate(clone_opt(n), u.clone()),
            ToClientMsg::Heartbeat(n) => ToClientMsg::Heartbeat(clone_opt(n)),
            ToClientMsg::GenericError(n, e) => ToClientMsg::GenericError(clone_opt(n), e.clone()),
            ToClientMsg::TimeoutError(n, t) => ToClientMsg::TimeoutError(clone_opt(n), *t),
            ToClientMsg::ChatMsg(n, m) => ToClientMsg::ChatMsg(clone_opt(n), m.clone()),
        }
    }
}

impl Clone for ToServerMsg {
    fn clone(&self) -> (r: Self)
        ensures
            r == *self,
    {
        match self {
            ToServerMsg::SetPixel(n, p) => ToServerMsg::SetPixel(n.clone(), *p),
            ToServerMsg::SetName(n, m) => ToServerMsg::SetName(n.clone(), m.clone()),
            ToServerMsg::Heartbeat(n) => ToServerMsg::Heartbeat(n.clone()),
            ToServerMsg::RequestPlace(n) => ToServerMsg::RequestPlace(n.clone()),
            ToServerMsg::ChatMsg(n, m) => ToServerMsg::ChatMsg(n.clone(), m.clone()),
        }
    }
}

/// The numeric argument at position `i`, read as an unsigned integer no
/// larger than `max`.
pub open spec fn number_arg(a: Seq<Seq<char>>, i: int, arg: Arg, max: nat) -> Result<nat, Error> {
    if i >= a.len() {
        Err(Error::MissingArgument(arg))
    } else {
        match parse_unsigned(a[i], max) {
            Ok(v) => Ok(v),
            Err(k) => Err(Error::BadNumber(k)),
        }
    }
}

/// The paint request of `setpixel <x> <y> <r> <g> <b>`: the arguments are
/// read in this order, and the first one that is missing or not a number
/// decides the error.
pub open spec fn setpixel_result(a: Seq<Seq<char>>) -> Result<GenericPixelWithLocation, Error> {
    match number_arg(a, 1, Arg::X, u64::MAX as nat) {
        Err(e) => Err(e),
        Ok(x) => match number_arg(a, 2, Arg::Y, u64::MAX as nat) {
            Err(e) => Err(e),
            Ok(y) => match number_arg(a, 3, Arg::R, u8::MAX as nat) {
                Err(e) => Err(e),
                Ok(r) => match number_arg(a, 4, Arg::G, u8::MAX as nat) {
                    Err(e) => Err(e),
                    Ok(g) => match number_arg(a, 5, Arg::B, u8::MAX as nat) {
                        Err(e) => Err(e),
                        Ok(b) => Ok(
                            GenericPixelWithLocation {
                                location: XY { x: x as u64, y: y as u64 },
                                color: Color { r: r as u8, g: g as u8, b: b as u8 },
                            },
                        ),
                    },
                },
            },
        },
    }
}

/// The command word of a command line is `word`.
pub open spec fn command_is(args: Seq<String>, word: Seq<char>) -> bool {
    args.len() > 0 && args[0]@ == word
}

/// A command word that `ToServerMsg::parse` knows.
pub open spec fn known_command(word: Seq<char>) -> bool {
    ||| word == "setpixel"@
    ||| word == "setname"@
    ||| word == "heartbeat"@
    ||| word == "requestplace"@
    ||| word == "msg"@
}

fn number_arg_u64(args: &Vec<String>, i: usize, arg: Arg) -> (r: Result<u64, Error>)
    ensures
        r matches Ok(v) ==> number_arg(views(args@), i as int, arg, u64::MAX as nat) == Ok::<nat, Error>(v as nat),
        r matches Err(e) ==> number_arg(views(args@), i as int, arg, u64::MAX as nat) == Err::<nat, Error>(e),
{
    if i >= args.len() {
        return Err(Error::MissingArgument(arg));
    }
    assert(views(args@)[i as int] == args@[i as int]@);
    match parse_u64(args[i].as_str()) {
        Ok(v) => Ok(v),
        Err(k) => Err(Error::BadNumber(k)),
    }
}

fn number_arg_u8(args: &Vec<String>, i: usize, arg: Arg) -> (r: Result<u8, Error>)
    ensures
        r matches Ok(v) ==> number_arg(views(args@), i as int, arg, u8::MAX as nat) == Ok::<nat, Error>(v as nat),
        r matches Err(e) ==> number_arg(views(args@), i as int, arg, u8::MAX as nat) == Err::<nat, Error>(e),
{
    if i >= args.len() {
        return Err(Error::MissingArgument(arg));
    }
    assert(views(args@)[i as int] == args@[i as int]@);
    match parse_u8(args[i].as_str()) {
        Ok(v) => Ok(v),
        Err(k) => Err(Error::BadNumber(k)),
    }
}

fn parse_setpixel(args: &Vec<String>) -> (r: Result<GenericPixelWithLocation, Error>)
    ensures
        r == setpixel_result(views(args@)),
{
    let x = match number_arg_u64(args, 1, Arg::X) {
        Ok(v) => v,
        Err(e) => return Err(e),
    };
    let y = match number_arg_u64(args, 2, Arg::Y) {
        Ok(v) => v,
        Err(e) => return Err(e),
    };
    let r = match number_arg_u8(args, 3, Arg::R) {
        Ok(v) => v,
        Err(e) => return Err(e),
    };
    let g = match number_arg_u8(args, 4, Arg::G) {
        Ok(v) => v,
        Err(e) => return Err(e),
    };
    let b = match number_arg_u8(args, 5, Arg::B) {
        Ok(v) => v,
        Err(e) => return Err(e),
    };
    Ok(GenericPixelWithLocation { location: XY { x, y }, color: Color { r, g, b } })
}

impl ToServerMsg {
    /// Reads a typed command line (already split into words) as a request
    /// with the given nonce: `setpixel <x> <y> <r> <g> <b>`, `setname
    /// <name>`, `heartbeat`, `requestplace` (always under the nonce
    /// `binary`) and `msg <words..>` (the words joined by single spaces and
    /// trimmed).
    pub fn parse(args: Vec<String>, nonce: String) -> (r: Result<Self, Error>)
        ensures
            args@.len() == 0 ==> r == Err::<ToServerMsg, Error>(Error::NoCommand),
            command_is(args@, "setpixel"@) ==> r == (match setpixel_result(views(args@)) {
                Ok(p) => Ok::<ToServerMsg, Error>(ToServerMsg::SetPixel(nonce, p)),
                Err(e) => Err::<ToServerMsg, Error>(e),
            }),
            command_is(args@, "setname"@) ==> r == (if args@.len() < 2 {
                Err::<ToServerMsg, Error>(Error::MissingArgument(Arg::Name))
            } else {
                Ok::<ToServerMsg, Error>(ToServerMsg::SetName(nonce, args@[1]))
            }),
            command_is(args@, "heartbeat"@) ==> r == Ok::<ToServerMsg, Error>(ToServerMsg::Heartbeat(nonce)),
            command_is(args@, "requestplace"@) ==> (r matches Ok(ToServerMsg::RequestPlace(s)) && s@
                == "binary"@),
            command_is(args@, "msg"@) ==> (r matches Ok(ToServerMsg::ChatMsg(n, m)) && n == nonce
                && m@ == trim(join(views(args@.skip(1)), " "@))),
            args@.len() > 0 && !known_command(args@[0]@) ==> r == Err::<ToServerMsg, Error>(
                Error::UnknownCommand,
            ),
    {
        proof {
            lemma_command_words_distinct();
        }
        if args.len() == 0 {
            return Err(Error::NoCommand);
        }
        let cmd = args[0].as_str();
        if text_eq(cmd, "setpixel") {
            match parse_setpixel(&args) {
                Ok(p) => Ok(ToServerMsg::SetPixel(nonce, p)),
                Err(e) => Err(e),
            }
        } else if text_eq(cmd, "setname") {
            parse_setname(args, nonce)
        } else if text_eq(cmd, "heartbeat") {
            Ok(ToServerMsg::Heartbeat(nonce))
        } else if text_eq(cmd, "requestplace") {
            Ok(ToServerMsg::RequestPlace("binary".to_string()))
        } else if text_eq(cmd, "msg") {
            let joined = join_from(&args, 1, " ");
            Ok(ToServerMsg::ChatMsg(nonce, trim_string(joined.as_str())))
        } else {
            Err(Error::UnknownCommand)
        }
    }
}

proof fn lemma_command_words_distinct()
    ensures
        "setpixel"@ != "setname"@,
        "setpixel"@ != "heartbeat"@,
        "setpixel"@ != "requestplace"@,
        "setpixel"@ != "msg"@,
        "setname"@ != "heartbeat"@,
        "setname"@ != "requestplace"@,
        "setname"@ != "msg"@,
        "heartbeat"@ != "requestplace"@,
        "heartbeat"@ != "msg"@,
        "requestplace"@ != "msg"@,
{
    reveal_strlit("setpixel");
    reveal_strlit("setname");
    reveal_strlit("heartbeat");
    reveal_strlit("requestplace");
    reveal_strlit("msg");
    assert("setpixel"@.len() == 8);
    assert("setname"@.len() == 7);
    assert("heartbeat"@.len() == 9);
    assert("requestplace"@.len() == 12);
    assert("msg"@.len() == 3);
    assert("setpixel"@[3] != "setname"@[3]);
}

fn parse_setname(args: Vec<String>, nonce: String) -> (r: Result<ToServerMsg, Error>)
    ensures
        r == (if args@.len() < 2 {
            Err::<ToServerMsg, Error>(Error::MissingArgument(Arg::Name))
        } else {
            Ok::<ToServerMsg, Error>(ToServerMsg::SetName(nonce, args@[1]))
        }),
{
    if args.len() < 2 {
        return Err(Error::MissingArgument(Arg::Name));
    }
    let mut args = args;
    let name = args.remove(1);
    Ok(ToServerMsg::SetName(nonce, name))
}

proof fn lemma_scan_within(d: Seq<char>, max: nat, i: nat, v: nat)
    requires
        scan_digits(d, max, i) == Ok::<nat, IntErrorKind>(v),
        i > 0,
    ensures
        v <= max,
{
}

/// A number read with `parse_unsigned` never exceeds the bound it was read
/// under.
pub proof fn lemma_parsed_within(s: Seq<char>, max: nat, v: nat)
    requires
        parse_unsigned(s, max) == Ok::<nat, IntErrorKind>(v),
    ensures
        v <= max,
{
    let d = if s[0] == '+' { s.drop_first() } else { s };
    if d.len() > 0 {
        lemma_scan_within(d, max, d.len(), v);
    } else {
        assert(v == 0);
    }
}

/// `setpixel <x> <y> <r> <g> <b>` gives the paint request at `(x, y)` in
/// colour `(r, g, b)` whenever the coordinates are numbers that fit in
/// `u64` and the channels numbers that fit in `u8`, whatever their size
/// within those bounds (a canvas may be wider or taller than 256).
pub proof fn lemma_setpixel_reads_its_arguments(a: Seq<Seq<char>>, x: nat, y: nat, r: nat, g: nat, b: nat)
    requires
        a.len() >= 6,
        parse_unsigned(a[1], u64::MAX as nat) == Ok::<nat, IntErrorKind>(x),
        parse_unsigned(a[2], u64::MAX as nat) == Ok::<nat, IntErrorKind>(y),
        parse_unsigned(a[3], u8::MAX as nat) == Ok::<nat, IntErrorKind>(r),
        parse_unsigned(a[4], u8::MAX as nat) == Ok::<nat, IntErrorKind>(g),
        parse_unsigned(a[5], u8::MAX as nat) == Ok::<nat, IntErrorKind>(b),
    ensures
        setpixel_result(a) matches Ok(p) && p.location.x == x && p.location.y == y && p.color.r == r
            && p.color.g == g && p.color.b == b,
{
    lemma_parsed_within(a[1], u64::MAX as nat, x);
    lemma_parsed_within(a[2], u64::MAX as nat, y);
    lemma_parsed_within(a[3], u8::MAX as nat, r);
    lemma_parsed_within(a[4], u8::MAX as nat, g);
    lemma_parsed_within(a[5], u8::MAX as nat, b);
}

} // verus!
