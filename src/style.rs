//! Built-in colour styles.
use vstd::prelude::*;

verus! {

/// An sRGB colour: 8-bit channels and the opacity in hundredths.
#[derive(Clone, Copy, Debug, PartialEq, Eq, Hash, Structural)]
pub struct Color {
    pub r: u8,
    pub g: u8,
    pub b: u8,
    pub alpha_percent: u8,
}

/// The colour written `0xRRGGBB`, with the given opacity in hundredths.
pub open spec fn spec_color(hex: u32, alpha_percent: u8) -> Color {
    Color {
        r: ((hex / 0x10000) % 256) as u8,
        g: ((hex / 0x100) % 256) as u8,
        b: (hex % 256) as u8,
        alpha_percent,
    }
}

/// Builds the colour written `0xRRGGBB`, with the given opacity in hundredths.
pub fn color(hex: u32, alpha_percent: u8) -> (r: Color)
    ensures
        r == spec_color(hex, alpha_percent),
{
    Color {
        r: ((hex / 0x10000) % 256) as u8,
        g: ((hex / 0x100) % 256) as u8,
        b: (hex % 256) as u8,
        alpha_percent,
    }
}

/// The colours of a style.
#[derive(Clone, Copy, Debug, PartialEq, Eq, Hash, Structural)]
pub struct Palette {
    pub primary: Color,
    pub secondary: Color,
    pub outgoing: Color,
    pub starred: Color,
    pub text_headers: Color,
    pub text_body: Color,
}

/// Built-in extra styles, and a custom one with its own palette.
#[derive(Clone, Copy, Debug, PartialEq, Eq, Hash, Structural)]
pub enum ExtraStyles {
    DraculaDark,
    DraculaLight,
    GruvboxDark,
    GruvboxLight,
    CustomToml(Palette),
}

/// A palette from six colours written `0xRRGGBB`, the starred one with its opacity.
pub open spec fn spec_palette_of(
    primary: u32,
    secondary: u32,
    outgoing: u32,
    starred: u32,
    starred_alpha: u8,
    text_headers: u32,
    text_body: u32,
) -> Palette {
    Palette {
        primary: spec_color(primary, 100),
        secondary: spec_color(secondary, 100),
        outgoing: spec_color(outgoing, 100),
        starred: spec_color(starred, starred_alpha),
        text_headers: spec_color(text_headers, 100),
        text_body: spec_color(text_body, 100),
    }
}

fn palette_of(
    primary: u32,
    secondary: u32,
    outgoing: u32,
    starred: u32,
    starred_alpha: u8,
    text_headers: u32,
    text_body: u32,
) -> (r: Palette)
    ensures
        r == spec_palette_of(primary, secondary, outgoing, starred, starred_alpha, text_headers, text_body),
{
    Palette {
        primary: color(primary, 100),
        secondary: color(secondary, 100),
        outgoing: color(outgoing, 100),
        starred: color(starred, starred_alpha),
        text_headers: color(text_headers, 100),
        text_body: color(text_body, 100),
    }
}

impl ExtraStyles {
    /// The palette of each style.
    pub open spec fn spec_palette(self) -> Palette {
        match self {
            ExtraStyles::DraculaDark => spec_palette_of(0x282a36, 0xff79c6, 0x8be9fd, 0xf1fa8c, 70, 0x282a36, 0xf8f8f2),
            ExtraStyles::DraculaLight => spec_palette_of(0xf8f8f2, 0x9f1670, 0x005d6f, 0xffb86c, 80, 0xf8f8f2, 0x282a36),
            ExtraStyles::GruvboxDark => spec_palette_of(0x282828, 0xfe8019, 0x8ec07c, 0xd79921, 80, 0x1d2021, 0xebdbb2),
            ExtraStyles::GruvboxLight => spec_palette_of(0xfbf1c7, 0xd65d0e, 0x689d6a, 0xd79921, 80, 0xf9f5d7, 0x282828),
            ExtraStyles::CustomToml(p) => p,
        }
    }

    /// The [`Palette`] of the style.
    pub fn to_palette(self) -> (r: Palette)
        ensures
            r == self.spec_palette(),
    {
        match self {
            ExtraStyles::DraculaDark => palette_of(0x282a36, 0xff79c6, 0x8be9fd, 0xf1fa8c, 70, 0x282a36, 0xf8f8f2),
            ExtraStyles::DraculaLight => palette_of(0xf8f8f2, 0x9f1670, 0x005d6f, 0xffb86c, 80, 0xf8f8f2, 0x282a36),
            ExtraStyles::GruvboxDark => palette_of(0x282828, 0xfe8019, 0x8ec07c, 0xd79921, 80, 0x1d2021, 0xebdbb2),
            ExtraStyles::GruvboxLight => palette_of(0xfbf1c7, 0xd65d0e, 0x689d6a, 0xd79921, 80, 0xf9f5d7, 0x282828),
            ExtraStyles::CustomToml(p) => p,
        }
    }

    /// All built-in styles, in their display order.
    pub fn all_styles() -> (r: Vec<ExtraStyles>)
        ensures
            r@ == seq![
                ExtraStyles::DraculaDark,
                ExtraStyles::DraculaLight,
                ExtraStyles::GruvboxDark,
                ExtraStyles::GruvboxLight,
            ],
    {
        let r = vec![
            ExtraStyles::DraculaDark,
            ExtraStyles::DraculaLight,
            ExtraStyles::GruvboxDark,
            ExtraStyles::GruvboxLight,
        ];
        assert(r@ =~= seq![
            ExtraStyles::DraculaDark,
            ExtraStyles::DraculaLight,
            ExtraStyles::GruvboxDark,
            ExtraStyles::GruvboxLight,
        ]);
        r
    }

    /// The name shown for each built-in style.
    pub open spec fn spec_name(self) -> Option<Seq<char>> {
        match self {
            ExtraStyles::DraculaLight => Some("Dracula (Day)"@),
            ExtraStyles::DraculaDark => Some("Dracula (Night)"@),
            ExtraStyles::GruvboxDark => Some("Gruvbox (Night)"@),
            ExtraStyles::GruvboxLight => Some("Gruvbox (Day)"@),
            ExtraStyles::CustomToml(_) => None,
        }
    }

    /// The name shown for a style; a custom style has none.
    pub fn name(self) -> (r: Option<&'static str>)
        ensures
            r.is_none() <==> self.spec_name().is_none(),
            r matches Some(t) ==> self.spec_name() == Some(t@),
    {
        match self {
            ExtraStyles::DraculaLight => Some("Dracula (Day)"),
            ExtraStyles::DraculaDark => Some("Dracula (Night)"),
            ExtraStyles::GruvboxDark => Some("Gruvbox (Night)"),
            ExtraStyles::GruvboxLight => Some("Gruvbox (Day)"),
            ExtraStyles::CustomToml(_) => None,
        }
    }
}

} // verus!
