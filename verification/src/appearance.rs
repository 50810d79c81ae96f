//! Whether the desktop asks for a dark theme.
use vstd::prelude::*;
use crate::text::{chars_of, contains_exec, contains_seq, lowercase, spec_lowercase};

verus! {

/// What the desktop settings say of its look, where each could be read.
pub struct ThemeHints {
    /// The `color-scheme` key of `org.gnome.desktop.interface`.
    pub color_scheme: Option<String>,
    /// The `gtk-theme` key of `org.gnome.desktop.interface`.
    pub gtk_theme: Option<String>,
    /// What `gsettings get org.gnome.desktop.interface color-scheme` printed.
    pub cli_color_scheme: Option<String>,
    /// What `gsettings get org.gnome.desktop.interface gtk-theme` printed.
    pub cli_gtk_theme: Option<String>,
    /// The theme name of the toolkit's own settings.
    pub toolkit_theme: Option<String>,
}

/// The text mentions `dark` once in lower case.
pub open spec fn mentions_dark(s: Option<Seq<char>>) -> bool {
    match s {
        Some(t) => contains_seq(spec_lowercase(t), "dark"@),
        None => false,
    }
}

/// The text holds `dark` as it stands.
pub open spec fn holds_dark(s: Option<Seq<char>>) -> bool {
    match s {
        Some(t) => contains_seq(t, "dark"@),
        None => false,
    }
}

pub open spec fn hint(s: Option<String>) -> Option<Seq<char>> {
    match s {
        Some(t) => Some(t@),
        None => None,
    }
}

/// The desktop asks for a dark theme: its colour scheme says `dark`, or one
/// of the theme names says so in any case.
pub open spec fn spec_prefers_dark(h: ThemeHints) -> bool {
    ||| holds_dark(hint(h.color_scheme))
    ||| mentions_dark(hint(h.gtk_theme))
    ||| mentions_dark(hint(h.cli_color_scheme))
    ||| mentions_dark(hint(h.cli_gtk_theme))
    ||| mentions_dark(hint(h.toolkit_theme))
}

fn check(s: &Option<String>, lower: bool) -> (r: bool)
    ensures
        r == if lower { mentions_dark(hint(*s)) } else { holds_dark(hint(*s)) },
{
    match s {
        Some(t) => {
            let dark = chars_of("dark");
            if lower {
                contains_exec(&chars_of(lowercase(t.as_str()).as_str()), &dark)
            } else {
                contains_exec(&chars_of(t.as_str()), &dark)
            }
        },
        None => false,
    }
}

/// Whether the desktop asks for a dark theme.
pub fn prefers_dark(h: &ThemeHints) -> (r: bool)
    ensures
        r == spec_prefers_dark(*h),
{
    check(&h.color_scheme, false) || check(&h.gtk_theme, true) || check(&h.cli_color_scheme, true)
        || check(&h.cli_gtk_theme, true) || check(&h.toolkit_theme, true)
}

} // verus!
