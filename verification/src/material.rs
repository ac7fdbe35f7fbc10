//! The colours of the two standard themes.

use vstd::prelude::*;

verus! {

/// A colour, as red, green, blue and opacity, one byte each.
#[derive(Clone, Copy, Debug, PartialEq, Eq, Structural)]
pub struct Color(pub u32);

impl Color {
    pub fn from_u32(rgba: u32) -> (c: Color)
        ensures
            c == Color(rgba),
    {
        Color(rgba)
    }
}

/// Whether a theme is light or dark.
#[derive(Clone, Copy, Debug, PartialEq, Eq, Structural)]
pub enum Brightness {
    Dark,
    Light,
}

/// The colours of a theme.
#[derive(Clone, Copy, Debug, PartialEq, Eq, Structural)]
pub struct Palette {
    pub brightness: Brightness,
    pub primary: Color,
    pub primary_variant: Color,
    pub secondary: Color,
    pub secondary_variant: Color,
    pub background: Color,
    pub surface: Color,
    pub error: Color,
    pub on_primary: Color,
    pub on_secondary: Color,
    pub on_background: Color,
    pub on_surface: Color,
    pub on_error: Color,
}

/// A theme: its colours and the family of its fonts.
#[derive(Debug, PartialEq, Eq)]
pub struct ThemeData {
    pub palette: Palette,
    pub default_font_family: String,
}

/// The colours of the light theme.
pub open spec fn light_palette() -> Palette {
    Palette {
        brightness: Brightness::Light,
        primary: Color(0x6200_EEFF),
        primary_variant: Color(0x3700_B3FF),
        secondary: Color(0x03DA_C6FF),
        secondary_variant: Color(0x0187_86FF),
        background: Color(0xFFFF_FFFF),
        surface: Color(0xFFFF_FFFF),
        error: Color(0xB000_20FF),
        on_primary: Color(0xFFFF_FFFF),
        on_secondary: Color(0),
        on_background: Color(0),
        on_surface: Color(0),
        on_error: Color(0xFFFF_FFFF),
    }
}

/// The colours of the dark theme.
pub open spec fn dark_palette() -> Palette {
    Palette {
        brightness: Brightness::Light,
        primary: Color(0xBB86_FCFF),
        primary_variant: Color(0x3700_B3FF),
        secondary: Color(0x03DA_C6FF),
        secondary_variant: Color(0x1212_12FF),
        background: Color(0x1212_12FF),
        surface: Color(0x1212_12FF),
        error: Color(0xCF66_79FF),
        on_primary: Color(0),
        on_secondary: Color(0),
        on_background: Color(0xFFFF_FFFF),
        on_surface: Color(0xFFFF_FFFF),
        on_error: Color(0),
    }
}

/// A light blue theme with fonts of the family `family`.
pub fn light(family: String) -> (theme: ThemeData)
    ensures
        theme.palette == light_palette(),
        theme.default_font_family@ == family@,
{
    ThemeData {
        palette: Palette {
            brightness: Brightness::Light,
            primary: Color::from_u32(0x6200_EEFF),
            primary_variant: Color::from_u32(0x3700_B3FF),
            secondary: Color::from_u32(0x03DA_C6FF),
            secondary_variant: Color::from_u32(0x0187_86FF),
            background: Color::from_u32(0xFFFF_FFFF),
            surface: Color::from_u32(0xFFFF_FFFF),
            error: Color::from_u32(0xB000_20FF),
            on_primary: Color::from_u32(0xFFFF_FFFF),
            on_secondary: Color::from_u32(0),
            on_background: Color::from_u32(0),
            on_surface: Color::from_u32(0),
            on_error: Color::from_u32(0xFFFF_FFFF),
        },
        default_font_family: family,
    }
}

/// A dark theme with a teal accent, with fonts of the family `family`.
pub fn dark(family: String) -> (theme: ThemeData)
    ensures
        theme.palette == dark_palette(),
        theme.default_font_family@ == family@,
{
    ThemeData {
        palette: Palette {
            brightness: Brightness::Light,
            primary: Color::from_u32(0xBB86_FCFF),
            primary_variant: Color::from_u32(0x3700_B3FF),
            secondary: Color::from_u32(0x03DA_C6FF),
            secondary_variant: Color::from_u32(0x1212_12FF),
            background: Color::from_u32(0x1212_12FF),
            surface: Color::from_u32(0x1212_12FF),
            error: Color::from_u32(0xCF66_79FF),
            on_primary: Color::from_u32(0),
            on_secondary: Color::from_u32(0),
            on_background: Color::from_u32(0xFFFF_FFFF),
            on_surface: Color::from_u32(0xFFFF_FFFF),
            on_error: Color::from_u32(0),
        },
        default_font_family: family,
    }
}

} // verus!
