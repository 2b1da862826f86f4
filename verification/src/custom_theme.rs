//! The colours of the interface, as whole numbers.

use vstd::prelude::*;

verus! {

/// A colour by its red, green and blue channels, each from 0 to 255.
#[derive(Debug, Clone, Copy, PartialEq, Eq, Structural)]
pub struct Color {
    pub r: u8,
    pub g: u8,
    pub b: u8,
}

/// The five colours that a theme is made of.
#[derive(Debug, Clone, Copy, PartialEq, Eq, Structural)]
pub struct Palette {
    pub background: Color,
    pub text: Color,
    pub primary: Color,
    pub success: Color,
    pub danger: Color,
}

/// A named palette.
#[derive(Debug, Clone, PartialEq, Eq)]
pub struct Theme {
    pub name: String,
    pub palette: Palette,
}

/// The palette of the dark theme.
pub open spec fn arc_dark_palette() -> Palette {
    Palette {
        background: Color { r: 47, g: 52, b: 63 },
        text: Color { r: 211, g: 218, b: 227 },
        primary: Color { r: 82, g: 148, b: 226 },
        success: Color { r: 155, g: 89, b: 182 },
        danger: Color { r: 220, g: 50, b: 47 },
    }
}

/// The dark theme, under the name `Arc-Dark`.
pub fn arc_dark() -> (r: Theme)
    ensures
        r.name@ == "Arc-Dark"@,
        r.palette == arc_dark_palette(),
{
    Theme {
        name: "Arc-Dark".to_owned(),
        palette: Palette {
            background: Color { r: 47, g: 52, b: 63 },
            text: Color { r: 211, g: 218, b: 227 },
            primary: Color { r: 82, g: 148, b: 226 },
            success: Color { r: 155, g: 89, b: 182 },
            danger: Color { r: 220, g: 50, b: 47 },
        },
    }
}

} // verus!
