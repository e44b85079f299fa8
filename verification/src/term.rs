//! The eight required ANSI channel colors plus two optional extended
//! channels, carried as hex strings. A palette can be shaded channel by
//! channel into a lighter or darker sibling.

use vstd::prelude::*;
use vstd::string::*;
use crate::error::EngineError;
use crate::color::{Color, spec_from_hex, spec_to_css, spec_shade};
use crate::config::DEFAULT_SHADE_FACTOR;

verus! {

/// The abstract reading of a palette: the view of every channel string.
#[verifier::ext_equal]
pub struct TermColorsV {
    pub black: Seq<char>,
    pub red: Seq<char>,
    pub green: Seq<char>,
    pub yellow: Seq<char>,
    pub blue: Seq<char>,
    pub magenta: Seq<char>,
    pub cyan: Seq<char>,
    pub white: Seq<char>,
    pub orange: Option<Seq<char>>,
    pub pink: Option<Seq<char>>,
}

pub open spec fn opt_view(o: Option<String>) -> Option<Seq<char>> {
    match o {
        Some(s) => Some(s@),
        None => None,
    }
}

/// One tier of ANSI channel colors: eight required channels and the
/// optional orange and pink extensions.
#[derive(Debug)]
pub struct TermColors {
    pub black: String,
    pub red: String,
    pub green: String,
    pub yellow: String,
    pub blue: String,
    pub magenta: String,
    pub cyan: String,
    pub white: String,
    pub orange: Option<String>,
    pub pink: Option<String>,
}

impl View for TermColors {
    type V = TermColorsV;

    open spec fn view(&self) -> TermColorsV {
        TermColorsV {
            black: self.black@,
            red: self.red@,
            green: self.green@,
            yellow: self.yellow@,
            blue: self.blue@,
            magenta: self.magenta@,
            cyan: self.cyan@,
            white: self.white@,
            orange: opt_view(self.orange),
            pink: opt_view(self.pink),
        }
    }
}

/// The shade factor a palette is shaded with: the configured one, or the
/// canonical default.
pub open spec fn shade_factor_of(f: Option<i32>) -> int {
    match f {
        Some(x) => x as int,
        None => DEFAULT_SHADE_FACTOR as int,
    }
}

/// A channel string parsed, shaded and rendered back.
pub open spec fn spec_shade_hex(s: Seq<char>, f: int) -> Result<Seq<char>, EngineError> {
    match spec_from_hex(s) {
        Some(c) => Ok(spec_to_css(spec_shade(c, f), false)),
        None => Err(EngineError::MalformedColor),
    }
}

/// Every channel string of the palette parses; a missing orange falls back
/// to yellow, a missing pink to red.
pub open spec fn term_shade_ok(t: TermColorsV) -> bool {
    &&& spec_from_hex(t.black) is Some
    &&& spec_from_hex(t.red) is Some
    &&& spec_from_hex(t.green) is Some
    &&& spec_from_hex(t.yellow) is Some
    &&& spec_from_hex(t.blue) is Some
    &&& spec_from_hex(t.magenta) is Some
    &&& spec_from_hex(t.cyan) is Some
    &&& spec_from_hex(t.white) is Some
    &&& spec_from_hex(t.orange.unwrap_or(t.yellow)) is Some
    &&& spec_from_hex(t.pink.unwrap_or(t.red)) is Some
}

/// The palette with every channel shaded by `f` thousandths: a missing
/// orange channel is derived from yellow, a missing pink from red, so the
/// shaded sibling always carries all ten channels.
pub open spec fn spec_term_shade(t: TermColorsV, f: int) -> Result<TermColorsV, EngineError> {
    if !term_shade_ok(t) {
        Err(EngineError::MalformedColor)
    } else {
        Ok(
            TermColorsV {
                black: spec_shade_hex(t.black, f)->Ok_0,
                red: spec_shade_hex(t.red, f)->Ok_0,
                green: spec_shade_hex(t.green, f)->Ok_0,
                yellow: spec_shade_hex(t.yellow, f)->Ok_0,
                blue: spec_shade_hex(t.blue, f)->Ok_0,
                magenta: spec_shade_hex(t.magenta, f)->Ok_0,
                cyan: spec_shade_hex(t.cyan, f)->Ok_0,
                white: spec_shade_hex(t.white, f)->Ok_0,
                orange: Some(spec_shade_hex(t.orange.unwrap_or(t.yellow), f)->Ok_0),
                pink: Some(spec_shade_hex(t.pink.unwrap_or(t.red), f)->Ok_0),
            },
        )
    }
}

/// Every stored channel string of the palette parses; the optional ones
/// only when present.
pub open spec fn term_valid(t: TermColorsV) -> bool {
    &&& spec_from_hex(t.black) is Some
    &&& spec_from_hex(t.red) is Some
    &&& spec_from_hex(t.green) is Some
    &&& spec_from_hex(t.yellow) is Some
    &&& spec_from_hex(t.blue) is Some
    &&& spec_from_hex(t.magenta) is Some
    &&& spec_from_hex(t.cyan) is Some
    &&& spec_from_hex(t.white) is Some
    &&& (t.orange matches Some(s) ==> spec_from_hex(s) is Some)
    &&& (t.pink matches Some(s) ==> spec_from_hex(s) is Some)
}

/// One channel parsed, shaded and rendered back, on strings.
fn shade_hex(s: &String, f: i32) -> (r: Result<String, EngineError>)
    ensures
        match r {
            Ok(out) => spec_shade_hex(s@, f as int) == Ok::<Seq<char>, EngineError>(out@),
            Err(e) => spec_shade_hex(s@, f as int) == Err::<Seq<char>, EngineError>(e),
        },
{
    let c = match Color::from_hex_str(s.as_str()) {
        Ok(c) => c,
        Err(e) => {
            return Err(e);
        },
    };
    Ok(c.shade(f).to_css(false))
}

impl TermColors {
    /// The palette with every channel moved toward the extreme by the
    /// given fraction in thousandths (the canonical default when absent):
    /// a positive factor brightens toward white, a negative one darkens
    /// toward black.
    #[verifier::rlimit(100)]
    pub fn shade(&self, factor: Option<i32>) -> (r: Result<TermColors, EngineError>)
        ensures
            match r {
                Ok(out) => spec_term_shade(self@, shade_factor_of(factor)) == Ok::<
                    TermColorsV,
                    EngineError,
                >(out@),
                Err(e) => spec_term_shade(self@, shade_factor_of(factor)) == Err::<
                    TermColorsV,
                    EngineError,
                >(e),
            },
    {
        let f = match factor {
            Some(x) => x,
            None => DEFAULT_SHADE_FACTOR,
        };
        let black = match shade_hex(&self.black, f) {
            Ok(s) => s,
            Err(e) => {
                return Err(e);
            },
        };
        let red = match shade_hex(&self.red, f) {
            Ok(s) => s,
            Err(e) => {
                return Err(e);
            },
        };
        let green = match shade_hex(&self.green, f) {
            Ok(s) => s,
            Err(e) => {
                return Err(e);
            },
        };
        let yellow = match shade_hex(&self.yellow, f) {
            Ok(s) => s,
            Err(e) => {
                return Err(e);
            },
        };
        let blue = match shade_hex(&self.blue, f) {
            Ok(s) => s,
            Err(e) => {
                return Err(e);
            },
        };
        let magenta = match shade_hex(&self.magenta, f) {
            Ok(s) => s,
            Err(e) => {
                return Err(e);
            },
        };
        let cyan = match shade_hex(&self.cyan, f) {
            Ok(s) => s,
            Err(e) => {
                return Err(e);
            },
        };
        let white = match shade_hex(&self.white, f) {
            Ok(s) => s,
            Err(e) => {
                return Err(e);
            },
        };
        let orange_src: &String = match &self.orange {
            Some(s) => s,
            None => &self.yellow,
        };
        let orange = match shade_hex(orange_src, f) {
            Ok(s) => s,
            Err(e) => {
                return Err(e);
            },
        };
        let pink_src: &String = match &self.pink {
            Some(s) => s,
            None => &self.red,
        };
        let pink = match shade_hex(pink_src, f) {
            Ok(s) => s,
            Err(e) => {
                return Err(e);
            },
        };
        Ok(
            TermColors {
                black,
                red,
                green,
                yellow,
                blue,
                magenta,
                cyan,
                white,
                orange: Some(orange),
                pink: Some(pink),
            },
        )
    }

    /// Checks that every channel string the palette holds parses.
    pub fn validation(&self) -> (r: Result<(), EngineError>)
        ensures
            r == if term_valid(self@) {
                Ok::<(), EngineError>(())
            } else {
                Err::<(), EngineError>(EngineError::MalformedColor)
            },
    {
        if Color::from_hex_str(self.black.as_str()).is_err() {
            return Err(EngineError::MalformedColor);
        }
        if Color::from_hex_str(self.red.as_str()).is_err() {
            return Err(EngineError::MalformedColor);
        }
        if Color::from_hex_str(self.green.as_str()).is_err() {
            return Err(EngineError::MalformedColor);
        }
        if Color::from_hex_str(self.yellow.as_str()).is_err() {
            return Err(EngineError::MalformedColor);
        }
        if Color::from_hex_str(self.blue.as_str()).is_err() {
            return Err(EngineError::MalformedColor);
        }
        if Color::from_hex_str(self.magenta.as_str()).is_err() {
            return Err(EngineError::MalformedColor);
        }
        if Color::from_hex_str(self.cyan.as_str()).is_err() {
            return Err(EngineError::MalformedColor);
        }
        if Color::from_hex_str(self.white.as_str()).is_err() {
            return Err(EngineError::MalformedColor);
        }
        if let Some(s) = &self.orange {
            if Color::from_hex_str(s.as_str()).is_err() {
                return Err(EngineError::MalformedColor);
            }
        }
        if let Some(s) = &self.pink {
            if Color::from_hex_str(s.as_str()).is_err() {
                return Err(EngineError::MalformedColor);
            }
        }
        Ok(())
    }

    /// An identical palette in fresh storage.
    pub fn duplicate(&self) -> (r: Self)
        ensures
            r@ == self@,
    {
        TermColors {
            black: self.black.clone(),
            red: self.red.clone(),
            green: self.green.clone(),
            yellow: self.yellow.clone(),
            blue: self.blue.clone(),
            magenta: self.magenta.clone(),
            cyan: self.cyan.clone(),
            white: self.white.clone(),
            orange: match &self.orange {
                Some(s) => Some(s.clone()),
                None => None,
            },
            pink: match &self.pink {
                Some(s) => Some(s.clone()),
                None => None,
            },
        }
    }
}

impl Default for TermColors {
    /// The canonical fallback palette: the eight pure ANSI colors plus the
    /// standard orange and pink.
    fn default() -> (r: Self)
        ensures
            r@.black == "#000000"@,
            r@.red == "#ff0000"@,
            r@.green == "#00ff00"@,
            r@.yellow == "#ffff00"@,
            r@.blue == "#0000ff"@,
            r@.magenta == "#ff00ff"@,
            r@.cyan == "#00ffff"@,
            r@.white == "#ffffff"@,
            r@.orange == Some("#ff8700"@),
            r@.pink == Some("#ff5faf"@),
    {
        TermColors {
            black: String::from_str("#000000"),
            red: String::from_str("#ff0000"),
            green: String::from_str("#00ff00"),
            yellow: String::from_str("#ffff00"),
            blue: String::from_str("#0000ff"),
            magenta: String::from_str("#ff00ff"),
            cyan: String::from_str("#00ffff"),
            white: String::from_str("#ffffff"),
            orange: Some(String::from_str("#ff8700")),
            pink: Some(String::from_str("#ff5faf")),
        }
    }
}

/// A palette from its channel strings; an empty orange or pink string
/// means the channel is absent.
pub fn new_term_colors(
    black: &str,
    red: &str,
    green: &str,
    yellow: &str,
    blue: &str,
    magenta: &str,
    cyan: &str,
    white: &str,
    orange: &str,
    pink: &str,
) -> (r: TermColors)
    ensures
        r@.black == black@,
        r@.red == red@,
        r@.green == green@,
        r@.yellow == yellow@,
        r@.blue == blue@,
        r@.magenta == magenta@,
        r@.cyan == cyan@,
        r@.white == white@,
        r@.orange == if orange@.len() == 0 { Option::<Seq<char>>::None } else { Some(orange@) },
        r@.pink == if pink@.len() == 0 { Option::<Seq<char>>::None } else { Some(pink@) },
{
    let orange_f = if orange.is_empty() {
        None
    } else {
        Some(String::from_str(orange))
    };
    let pink_f = if pink.is_empty() {
        None
    } else {
        Some(String::from_str(pink))
    };
    TermColors {
        black: String::from_str(black),
        red: String::from_str(red),
        green: String::from_str(green),
        yellow: String::from_str(yellow),
        blue: String::from_str(blue),
        magenta: String::from_str(magenta),
        cyan: String::from_str(cyan),
        white: String::from_str(white),
        orange: orange_f,
        pink: pink_f,
    }
}

} // verus!
