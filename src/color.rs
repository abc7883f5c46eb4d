use vstd::prelude::*;

verus! {

/// A colour with straight (not premultiplied) alpha.
#[derive(Clone, Copy, PartialEq, Eq, Debug, Structural)]
pub struct Rgba {
    pub r: u8,
    pub g: u8,
    pub b: u8,
    pub a: u8,
}

impl Rgba {
    pub fn new(r: u8, g: u8, b: u8, a: u8) -> (c: Rgba)
        ensures
            c == (Rgba { r, g, b, a }),
    {
        Rgba { r, g, b, a }
    }

    pub fn black() -> (c: Rgba)
        ensures
            c == (Rgba { r: 0, g: 0, b: 0, a: 255 }),
    {
        Rgba { r: 0, g: 0, b: 0, a: 255 }
    }

    pub fn white() -> (c: Rgba)
        ensures
            c == (Rgba { r: 255, g: 255, b: 255, a: 255 }),
    {
        Rgba { r: 255, g: 255, b: 255, a: 255 }
    }

    /// The colour as the four bytes red, green, blue, alpha.
    pub fn to_array(&self) -> (b: [u8; 4])
        ensures
            b@ == seq![self.r, self.g, self.b, self.a],
    {
        let b = [self.r, self.g, self.b, self.a];
        assert(b@ =~= seq![self.r, self.g, self.b, self.a]);
        b
    }

    pub fn from_array(b: [u8; 4]) -> (c: Rgba)
        ensures
            c == (Rgba { r: b@[0], g: b@[1], b: b@[2], a: b@[3] }),
    {
        Rgba { r: b[0], g: b[1], b: b[2], a: b[3] }
    }
}

/// Whether two optional colours are the same (`None` is transparent).
pub fn same_color(a: Option<Rgba>, b: Option<Rgba>) -> (r: bool)
    ensures
        r == (a == b),
{
    match (a, b) {
        (None, None) => true,
        (Some(x), Some(y)) => x == y,
        _ => false,
    }
}

/// What the start menu asks for.
#[derive(Clone, Copy, PartialEq, Eq, Debug, Structural)]
pub enum MenuAction {
    /// A new blank canvas of the given width and height.
    NewCanvas(u32, u32),
    /// Opening a file.
    OpenFile,
}

/// The tool that pointer input drives.
#[derive(Clone, Copy, PartialEq, Eq, Debug, Structural)]
pub enum Tool {
    Brush,
    Eraser,
    PaintBucket,
    ColorPicker,
    Line,
}

} // verus!
