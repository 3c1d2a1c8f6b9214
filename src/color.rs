use vstd::prelude::*;

verus! {

/// The ways in which a request can be rejected.
#[derive(Debug, Clone, Copy, PartialEq, Eq, Structural)]
pub enum ColorError {
    /// Text that is neither a hex colour nor a bracketed Oklab triplet.
    InvalidColorFormat,
    /// Fewer than two interpolation steps were asked for.
    InvalidStepCount,
    /// Fewer than two colours were given to interpolate between.
    InsufficientColors,
    /// An average of no colours was asked for.
    EmptyInput,
}

/// An 8-bit sRGB colour.
#[derive(Debug, Clone, Copy, PartialEq, Eq, Structural)]
pub struct Rgb8 {
    pub r: u8,
    pub g: u8,
    pub b: u8,
}

} // verus!

verus! {

/// An Oklab colour as written: the text of its lightness and its two axes.
#[derive(Debug, Clone, PartialEq)]
pub struct OklabText {
    pub l: String,
    pub a: String,
    pub b: String,
}

/// A parsed colour: sRGB bytes, or an Oklab triplet still in decimal text.
#[derive(Debug, Clone, PartialEq)]
pub enum ColorSpec {
    Srgb(Rgb8),
    Oklab(OklabText),
}

/// The mathematical value of a [`ColorSpec`].
pub enum ColorModel {
    Srgb(Rgb8),
    Oklab(Seq<char>, Seq<char>, Seq<char>),
}

impl View for ColorSpec {
    type V = ColorModel;

    open spec fn view(&self) -> ColorModel {
        match self {
            ColorSpec::Srgb(c) => ColorModel::Srgb(*c),
            ColorSpec::Oklab(t) => ColorModel::Oklab(t.l@, t.a@, t.b@),
        }
    }
}

/// The mathematical value of a parse result.
pub open spec fn result_view(r: Result<ColorSpec, ColorError>) -> Result<ColorModel, ColorError> {
    match r {
        Ok(c) => Ok(c@),
        Err(e) => Err(e),
    }
}

} // verus!
