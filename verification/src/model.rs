//! The canvas's value types: positions, colours, pixels and users.

use vstd::prelude::*;

verus! {

/// A position on the canvas, or a canvas size.
#[derive(Clone, Copy, Debug, PartialEq, Eq, Structural)]
pub struct XY {
    pub x: u64,
    pub y: u64,
}

/// An RGB colour.
#[derive(Clone, Copy, Debug, PartialEq, Eq, Structural)]
pub struct Color {
    pub r: u8,
    pub g: u8,
    pub b: u8,
}

impl Default for XY {
    fn default() -> (r: XY)
        ensures
            r == (XY { x: 0, y: 0 }),
    {
        XY { x: 0, y: 0 }
    }
}

impl Default for Color {
    fn default() -> (r: Color)
        ensures
            r == (Color { r: 0, g: 0, b: 0 }),
    {
        Color { r: 0, g: 0, b: 0 }
    }
}

/// A painted pixel: its colour and the id of the user who painted it.
#[derive(Debug, PartialEq, Eq)]
pub struct Pixel {
    pub color: Color,
    pub artist_id: String,
}

/// A canvas cell: painted, or never painted.
#[derive(Debug, PartialEq, Eq)]
pub enum MaybePixel {
    Pixel(Pixel),
    Empty,
}

/// A cell together with the position it claims.
#[derive(Debug, PartialEq, Eq)]
pub struct PixelWithLocation {
    pub pixel: MaybePixel,
    pub location: XY,
}

/// A paint request: a colour at a position, without an artist yet.
#[derive(Clone, Copy, Debug, PartialEq, Eq, Structural)]
pub struct GenericPixelWithLocation {
    pub color: Color,
    pub location: XY,
}

/// A user of the canvas.
#[derive(Debug, PartialEq, Eq)]
pub struct User {
    pub name: String,
    pub id: String,
}

/// A chat message and the id of its author.
#[derive(Debug, PartialEq, Eq)]
pub struct ChatMsg {
    pub user_id: String,
    pub msg: String,
}

impl Clone for Pixel {
    fn clone(&self) -> (r: Self)
        ensures
            r == *self,
    {
        Pixel { color: self.color, artist_id: self.artist_id.clone() }
    }
}

impl Clone for MaybePixel {
    fn clone(&self) -> (r: Self)
        ensures
            r == *self,
    {
        match self {
            MaybePixel::Pixel(p) => MaybePixel::Pixel(p.clone()),
            MaybePixel::Empty => MaybePixel::Empty,
        }
    }
}

impl MaybePixel {
    /// Whether the cell is unpainted.
    pub fn is_empty(&self) -> (b: bool)
        ensures
            b == (*self is Empty),
    {
        match self {
            MaybePixel::Pixel(_) => false,
            MaybePixel::Empty => true,
        }
    }
}

impl Default for MaybePixel {
    fn default() -> (r: MaybePixel)
        ensures
            r == MaybePixel::Empty,
    {
        MaybePixel::Empty
    }
}

impl Clone for PixelWithLocation {
    fn clone(&self) -> (r: Self)
        ensures
            r == *self,
    {
        PixelWithLocation { pixel: self.pixel.clone(), location: self.location }
    }
}

/// The cell that a fresh canvas holds everywhere: unpainted, at position (0, 0).
pub open spec fn blank_pixel() -> PixelWithLocation {
    PixelWithLocation { pixel: MaybePixel::Empty, location: XY { x: 0, y: 0 } }
}

impl Default for PixelWithLocation {
    fn default() -> (r: PixelWithLocation)
        ensures
            r == blank_pixel(),
    {
        PixelWithLocation { pixel: MaybePixel::Empty, location: XY { x: 0, y: 0 } }
    }
}

impl Clone for User {
    fn clone(&self) -> (r: Self)
        ensures
            r == *self,
    {
        User { name: self.name.clone(), id: self.id.clone() }
    }
}

impl Clone for ChatMsg {
    fn clone(&self) -> (r: Self)
        ensures
            r == *self,
    {
        ChatMsg { user_id: self.user_id.clone(), msg: self.msg.clone() }
    }
}

impl PixelWithLocation {
    /// A cell holding `pixel` at `location`.
    pub fn new(pixel: MaybePixel, location: XY) -> (r: PixelWithLocation)
        ensures
            r == (PixelWithLocation { pixel, location }),
    {
        PixelWithLocation { pixel, location }
    }
}

impl GenericPixelWithLocation {
    /// The painted cell that this request asks for, signed by `artist_id`.
    pub fn into_full(self, artist_id: String) -> (r: PixelWithLocation)
        ensures
            r == (PixelWithLocation {
                pixel: MaybePixel::Pixel(Pixel { color: self.color, artist_id }),
                location: self.location,
            }),
    {
        PixelWithLocation {
            pixel: MaybePixel::Pixel(Pixel { color: self.color, artist_id }),
            location: self.location,
        }
    }
}

/// The colour a cell shows: its pixel's colour, or black when unpainted.
pub open spec fn shown_color(p: PixelWithLocation) -> Color {
    match p.pixel {
        MaybePixel::Pixel(px) => px.color,
        MaybePixel::Empty => Color { r: 0, g: 0, b: 0 },
    }
}

/// The colour a cell shows.
pub fn cell_color(p: &PixelWithLocation) -> (c: Color)
    ensures
        c == shown_color(*p),
{
    match &p.pixel {
        MaybePixel::Pixel(px) => px.color,
        MaybePixel::Empty => Color { r: 0, g: 0, b: 0 },
    }
}

/// Identity on strings: the id under which a peer is known.
pub fn hash(s: String) -> (r: String)
    ensures
        r == s,
{
    s
}

} // verus!
