//! The library's error type and the text that each error is reported with.

use vstd::prelude::*;
use crate::text::{IntErrorKind, decimal, push_decimal, push_str};

verus! {

/// A missing argument of a typed command.
#[derive(Clone, Copy, Debug, PartialEq, Eq, Structural)]
pub enum Arg {
    X,
    Y,
    R,
    G,
    B,
    Name,
}

/// Everything that the canvas, the command parser and the client's
/// callback table refuse.
#[derive(Debug, PartialEq, Eq)]
pub enum Error {
    /// A position outside the canvas.
    PixelOutOfBounds,
    /// A grid without rows.
    EmptyVec,
    /// A grid whose rows differ in length.
    UnevenVec,
    /// No user is stored under this id.
    NoUser(String),
    /// No row at this index.
    YOutOfBounds(u64),
    /// No column at this index.
    XOutOfBounds(u64),
    /// The cell is already painted in the requested colour.
    AlreadyHasColor,
    /// A cell update that carries no pixel.
    NotAPixel,
    /// An empty command line.
    NoCommand,
    /// A command without one of its arguments.
    MissingArgument(Arg),
    /// A numeric argument that does not read as a number of its type.
    BadNumber(IntErrorKind),
    /// A command word that is not known.
    UnknownCommand,
    /// An image without rows.
    EmptyImage,
    /// A callback is already waiting under this nonce.
    DuplicateNonce,
    /// No callback is waiting under this nonce.
    CallbackMissing,
    /// The waiting side of a callback is gone.
    CallbackSendFailed,
    /// The catch-all channel was already opened.
    GenericAlreadySet,
    /// The catch-all channel is not open.
    GenericNotSet,
    /// An encoder or decoder failed, with its own report.
    Codec(String),
}

/// The name of a missing argument, as reported.
pub open spec fn arg_text(a: Arg) -> Seq<char> {
    match a {
        Arg::X => "x"@,
        Arg::Y => "y"@,
        Arg::R => "r"@,
        Arg::G => "g"@,
        Arg::B => "b"@,
        Arg::Name => "name"@,
    }
}

/// How a refused number is reported.
pub open spec fn int_error_text(k: IntErrorKind) -> Seq<char> {
    match k {
        IntErrorKind::Empty => "cannot parse integer from empty string"@,
        IntErrorKind::InvalidDigit => "invalid digit found in string"@,
        IntErrorKind::PosOverflow => "number too large to fit in target type"@,
    }
}

/// The text that an error is reported with.
pub open spec fn error_text(e: Error) -> Seq<char> {
    match e {
        Error::PixelOutOfBounds => "Pixel out of bounds"@,
        Error::EmptyVec => "Empty vec"@,
        Error::UnevenVec => "Uneven vec"@,
        Error::NoUser(id) => "No user with id "@ + id@ + " found"@,
        Error::YOutOfBounds(y) => "Index "@ + decimal(y as nat) + " on y out of bounds"@,
        Error::XOutOfBounds(x) => "Index "@ + decimal(x as nat) + " on x out of bounds"@,
        Error::AlreadyHasColor => "Pixel already has color"@,
        Error::NotAPixel => "Pixel is not a pixel"@,
        Error::NoCommand => "No command"@,
        Error::MissingArgument(a) => "No "@ + arg_text(a),
        Error::BadNumber(k) => int_error_text(k),
        Error::UnknownCommand => "Unknown command"@,
        Error::EmptyImage => "Empty image"@,
        Error::DuplicateNonce => "Duplicate nonce"@,
        Error::CallbackMissing => "Callback doesn't exist"@,
        Error::CallbackSendFailed => "Failed to send callback"@,
        Error::GenericAlreadySet => "Generic callback already set"@,
        Error::GenericNotSet => "Generic callback not set"@,
        Error::Codec(m) => m@,
    }
}

fn arg_name(a: Arg) -> (s: &'static str)
    ensures
        s@ == arg_text(a),
{
    match a {
        Arg::X => "x",
        Arg::Y => "y",
        Arg::R => "r",
        Arg::G => "g",
        Arg::B => "b",
        Arg::Name => "name",
    }
}

fn int_error_name(k: IntErrorKind) -> (s: &'static str)
    ensures
        s@ == int_error_text(k),
{
    match k {
        IntErrorKind::Empty => "cannot parse integer from empty string",
        IntErrorKind::InvalidDigit => "invalid digit found in string",
        IntErrorKind::PosOverflow => "number too large to fit in target type",
    }
}

impl Clone for Error {
    fn clone(&self) -> (r: Self)
        ensures
            r == *self,
    {
        match self {
            Error::PixelOutOfBounds => Error::PixelOutOfBounds,
            Error::EmptyVec => Error::EmptyVec,
            Error::UnevenVec => Error::UnevenVec,
            Error::NoUser(id) => Error::NoUser(id.clone()),
            Error::YOutOfBounds(y) => Error::YOutOfBounds(*y),
            Error::XOutOfBounds(x) => Error::XOutOfBounds(*x),
            Error::AlreadyHasColor => Error::AlreadyHasColor,
            Error::NotAPixel => Error::NotAPixel,
            Error::NoCommand => Error::NoCommand,
            Error::MissingArgument(a) => Error::MissingArgument(*a),
            Error::BadNumber(k) => Error::BadNumber(*k),
            Error::UnknownCommand => Error::UnknownCommand,
            Error::EmptyImage => Error::EmptyImage,
            Error::DuplicateNonce => Error::DuplicateNonce,
            Error::CallbackMissing => Error::CallbackMissing,
            Error::CallbackSendFailed => Error::CallbackSendFailed,
            Error::GenericAlreadySet => Error::GenericAlreadySet,
            Error::GenericNotSet => Error::GenericNotSet,
            Error::Codec(m) => Error::Codec(m.clone()),
        }
    }
}

impl Error {
    /// The text that this error is reported with.
    pub fn message(&self) -> (s: String)
        ensures
            s@ == error_text(*self),
    {
        let mut s = String::new();
        match self {
            Error::PixelOutOfBounds => push_str(&mut s, "Pixel out of bounds"),
            Error::EmptyVec => push_str(&mut s, "Empty vec"),
            Error::UnevenVec => push_str(&mut s, "Uneven vec"),
            Error::NoUser(id) => {
                push_str(&mut s, "No user with id ");
                push_str(&mut s, id.as_str());
                push_str(&mut s, " found");
            },
            Error::YOutOfBounds(y) => {
                push_str(&mut s, "Index ");
                push_decimal(&mut s, *y);
                push_str(&mut s, " on y out of bounds");
            },
            Error::XOutOfBounds(x) => {
                push_str(&mut s, "Index ");
                push_decimal(&mut s, *x);
                push_str(&mut s, " on x out of bounds");
            },
            Error::AlreadyHasColor => push_str(&mut s, "Pixel already has color"),
            Error::NotAPixel => push_str(&mut s, "Pixel is not a pixel"),
            Error::NoCommand => push_str(&mut s, "No command"),
            Error::MissingArgument(a) => {
                push_str(&mut s, "No ");
                push_str(&mut s, arg_name(*a));
            },
            Error::BadNumber(k) => push_str(&mut s, int_error_name(*k)),
            Error::UnknownCommand => push_str(&mut s, "Unknown command"),
            Error::EmptyImage => push_str(&mut s, "Empty image"),
            Error::DuplicateNonce => push_str(&mut s, "Duplicate nonce"),
            Error::CallbackMissing => push_str(&mut s, "Callback doesn't exist"),
            Error::CallbackSendFailed => push_str(&mut s, "Failed to send callback"),
            Error::GenericAlreadySet => push_str(&mut s, "Generic callback already set"),
            Error::GenericNotSet => push_str(&mut s, "Generic callback not set"),
            Error::Codec(m) => push_str(&mut s, m.as_str()),
        }
        s
    }
}

} // verus!
