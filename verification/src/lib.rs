//! Shared logic of a collaborative pixel canvas: the canvas and its users,
//! the wire messages, the server's per-connection rules and the client's
//! message routing.

pub mod text;
pub mod model;
pub mod error;
pub mod place;
pub mod messages;
pub mod meta_place;
pub mod codec;
pub mod server;
pub mod client;

pub use model::{ChatMsg, Color, GenericPixelWithLocation, MaybePixel, Pixel, PixelWithLocation, User, XY, hash};
pub use error::{Arg, Error};
pub use place::Place;
pub use messages::{SafeInfo, TimeoutType, ToClientMsg, ToServerMsg};
pub use meta_place::{MetaPlace, Update, WebsocketHandler};
