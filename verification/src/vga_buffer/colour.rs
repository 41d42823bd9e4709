use vstd::prelude::*;

verus! {

/// The sixteen VGA text-mode colours.
#[derive(Debug, Clone, Copy, PartialEq, Eq, Structural)]
pub enum Colour {
    Black,
    Blue,
    Green,
    Cyan,
    Red,
    Magenta,
    Brown,
    LightGray,
    DarkGray,
    LightBlue,
    LightGreen,
    LightCyan,
    LightRed,
    Pink,
    Yellow,
    White,
}

/// The 4-bit hardware number of a colour.
pub open spec fn colour_value(c: Colour) -> u8 {
    match c {
        Colour::Black => 0,
        Colour::Blue => 1,
        Colour::Green => 2,
        Colour::Cyan => 3,
        Colour::Red => 4,
        Colour::Magenta => 5,
        Colour::Brown => 6,
        Colour::LightGray => 7,
        Colour::DarkGray => 8,
        Colour::LightBlue => 9,
        Colour::LightGreen => 10,
        Colour::LightCyan => 11,
        Colour::LightRed => 12,
        Colour::Pink => 13,
        Colour::Yellow => 14,
        Colour::White => 15,
    }
}

impl Colour {
    /// The hardware number of the colour (0 to 15).
    pub fn as_u8(self) -> (v: u8)
        ensures
            v == colour_value(self),
            v < 16,
    {
        match self {
            Colour::Black => 0,
            Colour::Blue => 1,
            Colour::Green => 2,
            Colour::Cyan => 3,
            Colour::Red => 4,
            Colour::Magenta => 5,
            Colour::Brown => 6,
            Colour::LightGray => 7,
            Colour::DarkGray => 8,
            Colour::LightBlue => 9,
            Colour::LightGreen => 10,
            Colour::LightCyan => 11,
            Colour::LightRed => 12,
            Colour::Pink => 13,
            Colour::Yellow => 14,
            Colour::White => 15,
        }
    }
}

/// A VGA attribute byte: background colour in the high nibble, foreground
/// colour in the low nibble.
#[derive(Debug, Clone, Copy, PartialEq, Eq, Structural)]
pub struct ColourCode(pub u8);

/// The attribute byte for a foreground and a background number.
pub open spec fn attribute(fg: int, bg: int) -> int {
    bg * 16 + fg
}

impl ColourCode {
    /// Foreground colour on a black background.
    pub fn from_fg(foreground: Colour) -> (c: ColourCode)
        ensures
            c.0 == colour_value(foreground),
    {
        ColourCode::new(foreground, Colour::Black)
    }

    /// Combines a foreground and a background colour.
    pub fn new(foreground: Colour, background: Colour) -> (c: ColourCode)
        ensures
            c.0 == attribute(colour_value(foreground) as int, colour_value(background) as int),
    {
        let fg = foreground.as_u8();
        let bg = background.as_u8();
        let v: u8 = (bg << 4) | fg;
        assert(v == bg * 16 + fg) by (bit_vector)
            requires
                fg < 16,
                bg < 16,
                v == (bg << 4) | fg,
        ;
        ColourCode(v)
    }

    /// Builds an attribute from raw colour numbers.
    pub fn from_u8(foreground: u8, background: u8) -> (c: ColourCode)
        requires
            foreground < 16,
            background < 16,
        ensures
            c.0 == attribute(foreground as int, background as int),
    {
        let v: u8 = (background << 4) | foreground;
        assert(v == background * 16 + foreground) by (bit_vector)
            requires
                foreground < 16,
                background < 16,
                v == (background << 4) | foreground,
        ;
        ColourCode(v)
    }

    /// Swaps foreground and background (used to draw the cursor cell).
    pub fn flip(&mut self)
        ensures
            final(self).0 == flipped(old(self).0),
    {
        let v = self.0;
        let w: u8 = (v << 4) | (v >> 4);
        assert(w == (v % 16) * 16 + v / 16) by (bit_vector)
            requires
                w == (v << 4) | (v >> 4),
        ;
        self.0 = w;
    }
}

/// The attribute byte with its two nibbles swapped.
pub open spec fn flipped(v: u8) -> u8 {
    ((v % 16) * 16 + v / 16) as u8
}

/// Flipping twice gives the attribute back.
pub proof fn lemma_flip_involutive(v: u8)
    ensures
        flipped(flipped(v)) == v,
{
}

/// Flipping a colour code swaps its colours: the flipped code of
/// foreground `f` on background `b` is `b` on `f`.
pub proof fn law_flip_swaps_colours(f: Colour, b: Colour)
    ensures
        flipped(attribute(colour_value(f) as int, colour_value(b) as int) as u8) == attribute(
            colour_value(b) as int,
            colour_value(f) as int,
        ),
{
}

} // verus!
