//! Theme identity: accent colors and theme variants with their display
//! names and light/dark classification. The concrete color values live
//! with the rendering layer; the identity and classification rules are
//! here.

use vstd::prelude::*;

verus! {

#[derive(Clone, Copy, Debug, PartialEq, Eq, Structural)]
pub enum AccentColor {
    Red,
    Orange,
    Yellow,
    Green,
    Blue,
    Indigo,
    Violet,
    Amber,
}

impl AccentColor {
    /// The display name of the accent.
    pub fn name(&self) -> (r: &'static str)
        ensures
            r@ == match self {
                AccentColor::Red => "Red"@,
                AccentColor::Orange => "Orange"@,
                AccentColor::Yellow => "Yellow"@,
                AccentColor::Green => "Green"@,
                AccentColor::Blue => "Blue"@,
                AccentColor::Indigo => "Indigo"@,
                AccentColor::Violet => "Violet"@,
                AccentColor::Amber => "Amber"@,
            },
    {
        match self {
            AccentColor::Red => "Red",
            AccentColor::Orange => "Orange",
            AccentColor::Yellow => "Yellow",
            AccentColor::Green => "Green",
            AccentColor::Blue => "Blue",
            AccentColor::Indigo => "Indigo",
            AccentColor::Violet => "Violet",
            AccentColor::Amber => "Amber",
        }
    }

    /// All accents, in display order.
    pub fn all() -> (r: Vec<AccentColor>)
        ensures
            r@ == seq![
                AccentColor::Red,
                AccentColor::Orange,
                AccentColor::Yellow,
                AccentColor::Green,
                AccentColor::Blue,
                AccentColor::Indigo,
                AccentColor::Violet,
                AccentColor::Amber,
            ],
    {
        let mut v: Vec<AccentColor> = Vec::new();
        v.push(AccentColor::Red);
        v.push(AccentColor::Orange);
        v.push(AccentColor::Yellow);
        v.push(AccentColor::Green);
        v.push(AccentColor::Blue);
        v.push(AccentColor::Indigo);
        v.push(AccentColor::Violet);
        v.push(AccentColor::Amber);
        proof {
            assert(v@ =~= seq![
                AccentColor::Red,
                AccentColor::Orange,
                AccentColor::Yellow,
                AccentColor::Green,
                AccentColor::Blue,
                AccentColor::Indigo,
                AccentColor::Violet,
                AccentColor::Amber,
            ]);
        }
        v
    }
}

#[derive(Clone, Copy, Debug, PartialEq, Eq, Structural)]
pub enum ThemeVariant {
    CatppuccinLatte,
    CatppuccinFrappe,
    CatppuccinMacchiato,
    CatppuccinMocha,
    GruvboxLight,
    GruvboxDark,
    EverblushLight,
    EverblushDark,
    KanagawaLight,
    KanagawaDark,
    KanagawaDragon,
}

/// The light variants; everything else renders dark.
pub open spec fn spec_is_light(t: ThemeVariant) -> bool {
    t == ThemeVariant::CatppuccinLatte || t == ThemeVariant::GruvboxLight || t
        == ThemeVariant::EverblushLight || t == ThemeVariant::KanagawaLight
}

impl ThemeVariant {
    /// The variant's display name within its family.
    pub fn name(&self) -> (r: &'static str)
        ensures
            r@ == match self {
                ThemeVariant::CatppuccinLatte => "Latte"@,
                ThemeVariant::CatppuccinFrappe => "Frapp\u{e9}"@,
                ThemeVariant::CatppuccinMacchiato => "Macchiato"@,
                ThemeVariant::CatppuccinMocha => "Mocha"@,
                ThemeVariant::GruvboxLight => "Light"@,
                ThemeVariant::GruvboxDark => "Dark"@,
                ThemeVariant::EverblushLight => "Light"@,
                ThemeVariant::EverblushDark => "Dark"@,
                ThemeVariant::KanagawaLight => "Lotus"@,
                ThemeVariant::KanagawaDark => "Wave"@,
                ThemeVariant::KanagawaDragon => "Dragon"@,
            },
    {
        match self {
            ThemeVariant::CatppuccinLatte => "Latte",
            ThemeVariant::CatppuccinFrappe => "Frapp\u{e9}",
            ThemeVariant::CatppuccinMacchiato => "Macchiato",
            ThemeVariant::CatppuccinMocha => "Mocha",
            ThemeVariant::GruvboxLight => "Light",
            ThemeVariant::GruvboxDark => "Dark",
            ThemeVariant::EverblushLight => "Light",
            ThemeVariant::EverblushDark => "Dark",
            ThemeVariant::KanagawaLight => "Lotus",
            ThemeVariant::KanagawaDark => "Wave",
            ThemeVariant::KanagawaDragon => "Dragon",
        }
    }

    /// The variant's theme family.
    pub fn family(&self) -> (r: &'static str)
        ensures
            r@ == match self {
                ThemeVariant::CatppuccinLatte
                | ThemeVariant::CatppuccinFrappe
                | ThemeVariant::CatppuccinMacchiato
                | ThemeVariant::CatppuccinMocha => "Catppuccin"@,
                ThemeVariant::GruvboxLight | ThemeVariant::GruvboxDark => "Gruvbox"@,
                ThemeVariant::EverblushLight | ThemeVariant::EverblushDark => "Everblush"@,
                ThemeVariant::KanagawaLight
                | ThemeVariant::KanagawaDark
                | ThemeVariant::KanagawaDragon => "Kanagawa"@,
            },
    {
        match self {
            ThemeVariant::CatppuccinLatte
            | ThemeVariant::CatppuccinFrappe
            | ThemeVariant::CatppuccinMacchiato
            | ThemeVariant::CatppuccinMocha => "Catppuccin",
            ThemeVariant::GruvboxLight | ThemeVariant::GruvboxDark => "Gruvbox",
            ThemeVariant::EverblushLight | ThemeVariant::EverblushDark => "Everblush",
            ThemeVariant::KanagawaLight
            | ThemeVariant::KanagawaDark
            | ThemeVariant::KanagawaDragon => "Kanagawa",
        }
    }

    /// Whether the variant renders on a light background.
    pub fn is_light(&self) -> (r: bool)
        ensures
            r == spec_is_light(*self),
    {
        match self {
            ThemeVariant::CatppuccinLatte
            | ThemeVariant::GruvboxLight
            | ThemeVariant::EverblushLight
            | ThemeVariant::KanagawaLight => true,
            _ => false,
        }
    }

    /// All variants, in display order.
    pub fn all() -> (r: Vec<ThemeVariant>)
        ensures
            r@.len() == 11,
    {
        let mut v: Vec<ThemeVariant> = Vec::new();
        v.push(ThemeVariant::CatppuccinLatte);
        v.push(ThemeVariant::CatppuccinFrappe);
        v.push(ThemeVariant::CatppuccinMacchiato);
        v.push(ThemeVariant::CatppuccinMocha);
        v.push(ThemeVariant::GruvboxLight);
        v.push(ThemeVariant::GruvboxDark);
        v.push(ThemeVariant::EverblushLight);
        v.push(ThemeVariant::EverblushDark);
        v.push(ThemeVariant::KanagawaLight);
        v.push(ThemeVariant::KanagawaDark);
        v.push(ThemeVariant::KanagawaDragon);
        v
    }
}

} // verus!
