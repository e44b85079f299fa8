//! The color section of a terminal emulator configuration, as plain
//! records of hex strings, and its derivation from a prepared theme.

use vstd::prelude::*;
use crate::term::TermColors;
use crate::theme::ThemeColors;
use crate::ramp::RampView;

verus! {

#[derive(Debug)]
pub struct PrimaryColors {
    pub background: Option<String>,
    pub foreground: Option<String>,
    pub dim_foreground: Option<String>,
    pub bright_foreground: Option<String>,
}

#[derive(Debug)]
pub struct CursorColors {
    pub text: Option<String>,
    pub cursor: Option<String>,
}

#[derive(Debug)]
pub struct BarColors {
    pub foreground: Option<String>,
    pub background: Option<String>,
}

#[derive(Debug)]
pub struct SelectionColors {
    pub text: Option<String>,
    pub background: Option<String>,
}

#[derive(Debug)]
pub struct SearchColors {
    pub matches: Option<BarColors>,
    pub focused_match: Option<BarColors>,
}

#[derive(Debug)]
pub struct HintsColors {
    pub start: Option<BarColors>,
    pub end: Option<BarColors>,
}

/// The eight plain ANSI channels of one tier.
#[derive(Debug)]
pub struct AnsiColors {
    pub black: String,
    pub red: String,
    pub green: String,
    pub yellow: String,
    pub blue: String,
    pub magenta: String,
    pub cyan: String,
    pub white: String,
}

/// One entry of the extended indexed palette.
#[derive(Debug)]
pub struct IndexedColor {
    pub index: u8,
    pub color: String,
}

/// The whole color section.
#[derive(Debug)]
pub struct Colors {
    pub primary: Option<PrimaryColors>,
    pub cursor: Option<CursorColors>,
    pub vi_mode_cursor: Option<CursorColors>,
    pub search: Option<SearchColors>,
    pub footer_bar: Option<BarColors>,
    pub hints: Option<HintsColors>,
    pub selection: Option<SelectionColors>,
    pub normal: Option<AnsiColors>,
    pub bright: Option<AnsiColors>,
    pub dim: Option<AnsiColors>,
    pub indexed_colors: Vec<IndexedColor>,
}

/// The slot string at a position that is known to exist.
fn must_slot(o: Option<&String>) -> (r: String)
    requires
        o is Some,
    ensures
        r@ == o->0@,
{
    match o {
        Some(s) => s.clone(),
        None => {
            proof {
                assert(false);
            }
            String::new()
        },
    }
}

impl AnsiColors {
    /// The eight required channels of a palette tier.
    pub fn from_term(t: &TermColors) -> (r: AnsiColors)
        ensures
            r.black@ == t@.black,
            r.red@ == t@.red,
            r.green@ == t@.green,
            r.yellow@ == t@.yellow,
            r.blue@ == t@.blue,
            r.magenta@ == t@.magenta,
            r.cyan@ == t@.cyan,
            r.white@ == t@.white,
    {
        AnsiColors {
            black: t.black.clone(),
            red: t.red.clone(),
            green: t.green.clone(),
            yellow: t.yellow.clone(),
            blue: t.blue.clone(),
            magenta: t.magenta.clone(),
            cyan: t.cyan.clone(),
            white: t.white.clone(),
        }
    }
}

impl Colors {
    /// The color section a prepared theme renders to: primary and cursor
    /// colors from the background and foreground ramps, the three palette
    /// tiers, and the two extended indexed entries with their canonical
    /// fallbacks (yellow for a missing orange, red for a missing pink).
    pub fn from_theme(theme: &ThemeColors) -> (r: Colors)
        requires
            theme.wf(),
            theme@.background is Filled,
            theme@.foreground is Filled,
        ensures
            ({
                let bg = theme@.background->Filled_0;
                let fg = theme@.foreground->Filled_0;
                &&& r.primary is Some
                &&& (r.primary->0.background matches Some(s1) && s1@ == bg[1])
                &&& (r.primary->0.foreground matches Some(s2) && s2@ == fg[1])
                &&& (r.primary->0.dim_foreground matches Some(s3) && s3@ == fg[2])
                &&& (r.primary->0.bright_foreground matches Some(s4) && s4@ == fg[0])
                &&& r.cursor is Some
                &&& (r.cursor->0.text matches Some(t1) && t1@ == bg[1])
                &&& (r.cursor->0.cursor matches Some(t2) && t2@ == fg[2])
                &&& r.vi_mode_cursor is None
                &&& r.search is None
                &&& r.footer_bar is None
                &&& r.hints is None
                &&& r.selection is None
                &&& (r.normal matches Some(n) && n.black@ == theme@.base.black && n.red@
                    == theme@.base.red && n.green@ == theme@.base.green && n.yellow@
                    == theme@.base.yellow && n.blue@ == theme@.base.blue && n.magenta@
                    == theme@.base.magenta && n.cyan@ == theme@.base.cyan && n.white@
                    == theme@.base.white)
                &&& (match theme@.bright {
                    Some(b) => r.bright matches Some(n) && n.black@ == b.black && n.red@ == b.red
                        && n.green@ == b.green && n.yellow@ == b.yellow && n.blue@ == b.blue
                        && n.magenta@ == b.magenta && n.cyan@ == b.cyan && n.white@ == b.white,
                    None => r.bright is None,
                })
                &&& (match theme@.dim {
                    Some(b) => r.dim matches Some(n) && n.black@ == b.black && n.red@ == b.red
                        && n.green@ == b.green && n.yellow@ == b.yellow && n.blue@ == b.blue
                        && n.magenta@ == b.magenta && n.cyan@ == b.cyan && n.white@ == b.white,
                    None => r.dim is None,
                })
                &&& r.indexed_colors@.len() == 2
                &&& r.indexed_colors@[0].index == 16
                &&& r.indexed_colors@[0].color@ == theme@.base.orange.unwrap_or(theme@.base.yellow)
                &&& r.indexed_colors@[1].index == 17
                &&& r.indexed_colors@[1].color@ == theme@.base.pink.unwrap_or(theme@.base.red)
            }),
    {
        let orange = match &theme.base.orange {
            Some(s) => s.clone(),
            None => theme.base.yellow.clone(),
        };
        let pink = match &theme.base.pink {
            Some(s) => s.clone(),
            None => theme.base.red.clone(),
        };
        let mut indexed: Vec<IndexedColor> = Vec::new();
        indexed.push(IndexedColor { index: 16, color: orange });
        indexed.push(IndexedColor { index: 17, color: pink });
        Colors {
            primary: Some(
                PrimaryColors {
                    background: Some(must_slot(theme.background.index(1))),
                    foreground: Some(must_slot(theme.foreground.index(1))),
                    dim_foreground: Some(must_slot(theme.foreground.index(2))),
                    bright_foreground: Some(must_slot(theme.foreground.index(0))),
                },
            ),
            cursor: Some(
                CursorColors {
                    text: Some(must_slot(theme.background.index(1))),
                    cursor: Some(must_slot(theme.foreground.index(2))),
                },
            ),
            vi_mode_cursor: None,
            search: None,
            footer_bar: None,
            hints: None,
            selection: None,
            normal: Some(AnsiColors::from_term(&theme.base)),
            bright: match &theme.bright {
                Some(b) => Some(AnsiColors::from_term(b)),
                None => None,
            },
            dim: match &theme.dim {
                Some(b) => Some(AnsiColors::from_term(b)),
                None => None,
            },
            indexed_colors: indexed,
        }
    }
}

} // verus!
