//! Themes: what the tiles look and sound like.

use crate::assets::pattern::PatternColor;
use crate::error::ConfigurationError;
use vstd::prelude::*;

verus! {

/// One sprite for each kind of tile.
#[derive(Clone, Debug, PartialEq, Eq, Hash)]
pub struct ThemeSprites<T> {
    pub red: T,
    pub orange: T,
    pub yellow: T,
    pub green: T,
    pub light_blue: T,
    pub lime: T,
    pub blue: T,
    pub indigo: T,
    pub purple: T,
    pub scored: T,
    pub empty: T,
    pub hover: T,
    pub invalid: T,
}

/// One sound for each thing the player does.
#[derive(Clone, Debug, PartialEq, Eq, Hash)]
pub struct ThemeSfx<T> {
    pub place: T,
    pub select: T,
    pub swap: T,
    pub grip: T,
}

/// A theme as it is written down: sprites and sounds by name.
#[derive(Clone, Debug, PartialEq, Eq, Hash)]
pub struct ThemeDescriptionAsset {
    pub name: String,
    pub sfx: ThemeSfx<String>,
    pub sprites: ThemeSprites<String>,
}

/// A theme ready to use, with sounds of type `A` and sprites of type `I`.
#[derive(Clone, Debug, PartialEq, Eq, Hash)]
pub struct Theme<A, I> {
    pub name: String,
    pub sfx: ThemeSfx<A>,
    pub sprites: ThemeSprites<I>,
}

impl<T> ThemeSprites<T> {
    /// The sprite of a tile filled with `color`.
    pub open spec fn of(self, color: PatternColor) -> T {
        match color {
            PatternColor::Red => self.red,
            PatternColor::Orange => self.orange,
            PatternColor::Yellow => self.yellow,
            PatternColor::Lime => self.lime,
            PatternColor::Green => self.green,
            PatternColor::LightBlue => self.light_blue,
            PatternColor::Blue => self.blue,
            PatternColor::Indigo => self.indigo,
            PatternColor::Purple => self.purple,
        }
    }
}

impl<A, I> Theme<A, I> {
    /// The sprite of a tile filled with `color`.
    pub fn sprite_from_color(&self, color: &PatternColor) -> (sprite: &I)
        ensures
            *sprite == self.sprites.of(*color),
    {
        match color {
            PatternColor::Red => &self.sprites.red,
            PatternColor::Orange => &self.sprites.orange,
            PatternColor::Yellow => &self.sprites.yellow,
            PatternColor::Lime => &self.sprites.lime,
            PatternColor::Green => &self.sprites.green,
            PatternColor::LightBlue => &self.sprites.light_blue,
            PatternColor::Blue => &self.sprites.blue,
            PatternColor::Indigo => &self.sprites.indigo,
            PatternColor::Purple => &self.sprites.purple,
        }
    }
}

/// Whether `id` is the first of `names` that is `name`.
pub open spec fn is_first(names: Seq<String>, name: Seq<char>, id: int) -> bool {
    &&& 0 <= id < names.len()
    &&& names[id]@ == name
    &&& forall|j: int| 0 <= j < id ==> (#[trigger] names[j])@ != name
}

/// Whether one of `names` is `name`.
pub open spec fn has_name(names: Seq<String>, name: Seq<char>) -> bool {
    exists|j: int| 0 <= j < names.len() && (#[trigger] names[j])@ == name
}

/// The theme to use, by its place in `names`: the one called `wanted`
/// where there is one, else the one called `default`.
pub open spec fn selects(names: Seq<String>, wanted: Option<String>, id: int) -> bool {
    match wanted {
        Some(name) if has_name(names, name@) => is_first(names, name@, id),
        _ => is_first(names, "default"@, id),
    }
}

/// The first of `names` that is `name`, if there is one.
fn find_name(names: &Vec<String>, name: &str) -> (r: Option<usize>)
    ensures
        match r {
            Some(id) => is_first(names@, name@, id as int),
            None => !has_name(names@, name@),
        },
{
    let wanted = name.to_owned();
    let mut i: usize = 0;
    while i < names.len()
        invariant
            i <= names.len(),
            wanted@ == name@,
            forall|j: int| 0 <= j < i ==> (#[trigger] names@[j])@ != name@,
        decreases names.len() - i,
    {
        if names[i] == wanted {
            return Some(i);
        }
        i += 1;
    }
    None
}

/// Picks the theme of a round among the themes called `names`: the one
/// the options name, or the one called `default` where they name none or
/// one that is not there. Without either, no round can be set up.
pub fn select_theme(names: &Vec<String>, wanted: &Option<String>) -> (r: Result<
    usize,
    ConfigurationError,
>)
    ensures
        match r {
            Ok(id) => selects(names@, *wanted, id as int),
            Err(e) => e == ConfigurationError::MissingTheme && !has_name(names@, "default"@) && (
            wanted matches Some(name) ==> !has_name(names@, name@)),
        },
{
    match wanted {
        Some(name) => {
            match find_name(names, name.as_str()) {
                Some(id) => {
                    return Ok(id);
                },
                None => {},
            }
        },
        None => {},
    }
    match find_name(names, "default") {
        Some(id) => Ok(id),
        None => Err(ConfigurationError::MissingTheme),
    }
}

} // verus!
