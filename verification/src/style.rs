//! The colour scheme a client-side plugin presents itself in: two accent
//! schemes, a light and a dark one, or custom colours. Each accessor returns
//! the CSS value the dashboard applies.

use vstd::prelude::*;

verus! {

#[derive(Debug, Clone, PartialEq)]
pub enum Style {
    Acc1,
    Acc2,
    Light,
    Dark,
    Custom(String, String, String),
}

impl Style {
    /// The light variant of the scheme's colour.
    pub open spec fn spec_light(self) -> Seq<char> {
        match self {
            Style::Acc1 => "var(--accentColor1Light)"@,
            Style::Acc2 => "var(--accentColor2Light)"@,
            Style::Light => "var(--lightColor)"@,
            Style::Dark => "var(--darkColor)"@,
            Style::Custom(_, light_color, _) => light_color@,
        }
    }

    pub fn light(&self) -> (r: &str)
        ensures
            r@ == self.spec_light(),
    {
        match self {
            Style::Acc1 => "var(--accentColor1Light)",
            Style::Acc2 => "var(--accentColor2Light)",
            Style::Light => "var(--lightColor)",
            Style::Dark => "var(--darkColor)",
            Style::Custom(_, light_color, _) => light_color.as_str(),
        }
    }

    /// The text colour that stays readable on the scheme.
    pub open spec fn spec_text(self) -> Seq<char> {
        match self {
            Style::Light => "var(--darkColor)"@,
            Style::Custom(_, _, text_color) => text_color@,
            _ => "var(--lightColor)"@,
        }
    }

    pub fn text(&self) -> (r: &str)
        ensures
            r@ == self.spec_text(),
    {
        match self {
            Style::Light => "var(--darkColor)",
            Style::Custom(_, _, text_color) => text_color.as_str(),
            _ => "var(--lightColor)",
        }
    }

    /// The scheme's main colour, as rendered where the style itself is
    /// displayed.
    pub open spec fn spec_display(self) -> Seq<char> {
        match self {
            Style::Acc1 => "var(--accentColor1)"@,
            Style::Acc2 => "var(--accentColor2)"@,
            Style::Light => "var(--lighterColor)"@,
            Style::Dark => "var(--darkColorLight)"@,
            Style::Custom(dark_color, _, _) => dark_color@,
        }
    }

    /// Renders the scheme's main colour.
    pub fn display_string(&self) -> (r: String)
        ensures
            r@ == self.spec_display(),
    {
        match self {
            Style::Acc1 => String::from_str("var(--accentColor1)"),
            Style::Acc2 => String::from_str("var(--accentColor2)"),
            Style::Light => String::from_str("var(--lighterColor)"),
            Style::Dark => String::from_str("var(--darkColorLight)"),
            Style::Custom(dark_color, _, _) => dark_color.clone(),
        }
    }
}

} // verus!
