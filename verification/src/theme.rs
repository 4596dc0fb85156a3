//! The colour themes of the interface, chosen by name.
use vstd::prelude::*;
use crate::strings::{push_str, str_eq};

verus! {

/// A colour theme.
#[derive(Debug, Clone, Copy, PartialEq, Eq, Structural)]
pub enum Theme {
    Dark,
    Light,
    Gruvbox,
    Nord,
    Solarized,
    TokyoNight,
    Pitch,
}

impl Default for Theme {
    /// The dark theme.
    fn default() -> (r: Self)
        ensures
            r == Theme::Dark,
    {
        Theme::Dark
    }
}

/// The lowercase form of a text, as `str::to_lowercase` gives it.
pub uninterp spec fn lowercase_text(s: Seq<char>) -> Seq<char>;

/// Lowercases a text.
///
/// Calls `str::to_lowercase`, which maps each character by Unicode's
/// lowercase rules; the result is named `lowercase_text` and depends on the
/// text alone.
#[verifier::external_body]
fn to_lowercase(s: &str) -> (r: String)
    ensures
        r@ == lowercase_text(s@),
{
    s.to_lowercase()
}

/// The theme a lowercase name stands for.
pub open spec fn theme_named(n: Seq<char>) -> Option<Theme> {
    if n == "dark"@ {
        Some(Theme::Dark)
    } else if n == "light"@ {
        Some(Theme::Light)
    } else if n == "gruvbox dark"@ {
        Some(Theme::Gruvbox)
    } else if n == "nord"@ {
        Some(Theme::Nord)
    } else if n == "solarized"@ {
        Some(Theme::Solarized)
    } else if n == "tokyo night"@ {
        Some(Theme::TokyoNight)
    } else if n == "pitch"@ {
        Some(Theme::Pitch)
    } else {
        None
    }
}

/// The theme a lowercase name stands for (see `theme_named`).
pub fn theme_from_lowercase(name: &str) -> (r: Option<Theme>)
    ensures
        r == theme_named(name@),
{
    if str_eq(name, "dark") {
        Some(Theme::Dark)
    } else if str_eq(name, "light") {
        Some(Theme::Light)
    } else if str_eq(name, "gruvbox dark") {
        Some(Theme::Gruvbox)
    } else if str_eq(name, "nord") {
        Some(Theme::Nord)
    } else if str_eq(name, "solarized") {
        Some(Theme::Solarized)
    } else if str_eq(name, "tokyo night") {
        Some(Theme::TokyoNight)
    } else if str_eq(name, "pitch") {
        Some(Theme::Pitch)
    } else {
        None
    }
}

impl Theme {
    /// The theme named `s`, whatever its case; an unknown name is refused
    /// with `Unknown theme: ` and the name.
    pub fn parse(s: &str) -> (r: Result<Theme, String>)
        ensures
            match r {
                Ok(t) => theme_named(lowercase_text(s@)) == Some(t),
                Err(e) => theme_named(lowercase_text(s@)) is None && e@ == "Unknown theme: "@ + s@,
            },
    {
        let lower = to_lowercase(s);
        match theme_from_lowercase(lower.as_str()) {
            Some(t) => Ok(t),
            None => {
                let mut e = String::new();
                push_str(&mut e, "Unknown theme: ");
                push_str(&mut e, s);
                Err(e)
            },
        }
    }
}

} // verus!
