//! Palette orchestration: a theme's color set is completed in one ordered
//! pass that fills every absent derived field — ramps, bright and dim
//! tiers, diff colors, comment, variable and status line — and never
//! touches a field that was already present.

use vstd::prelude::*;
use crate::error::EngineError;
use crate::color::{Color, spec_from_hex, spec_to_css, spec_blend};
use crate::config::{
    ThemeConfig, DiffBlendConfig, spec_default_diff_blend, DEFAULT_SHADE_FACTOR,
    DEFAULT_COMMENT_BLEND_FACTOR,
};
use crate::ramp::{
    Background, Foreground, Selection, RampView, bg_prepare_spec, fg_prepare_spec,
    sel_prepare_spec, ramp_valid,
};
use crate::term::{TermColors, TermColorsV, opt_view, spec_term_shade, shade_factor_of, term_valid};

verus! {

/// The abstract reading of the four optional diff color strings.
#[verifier::ext_equal]
pub struct DiffColorsV {
    pub add: Option<Seq<char>>,
    pub delete: Option<Seq<char>>,
    pub change: Option<Seq<char>>,
    pub text: Option<Seq<char>>,
}

/// The colors lines gain, lose or change in a diff view; absent ones are
/// derived from the background and the base palette.
#[derive(Debug)]
pub struct DiffColors {
    pub add: Option<String>,
    pub delete: Option<String>,
    pub change: Option<String>,
    pub text: Option<String>,
}

impl View for DiffColors {
    type V = DiffColorsV;

    open spec fn view(&self) -> DiffColorsV {
        DiffColorsV {
            add: opt_view(self.add),
            delete: opt_view(self.delete),
            change: opt_view(self.change),
            text: opt_view(self.text),
        }
    }
}

pub open spec fn diff_valid(d: DiffColorsV) -> bool {
    &&& (d.add matches Some(s) ==> spec_from_hex(s) is Some)
    &&& (d.delete matches Some(s) ==> spec_from_hex(s) is Some)
    &&& (d.change matches Some(s) ==> spec_from_hex(s) is Some)
    &&& (d.text matches Some(s) ==> spec_from_hex(s) is Some)
}

impl DiffColors {
    /// Checks that every diff color string present parses.
    pub fn validation(&self) -> (r: Result<(), EngineError>)
        ensures
            r == if diff_valid(self@) {
                Ok::<(), EngineError>(())
            } else {
                Err::<(), EngineError>(EngineError::MalformedColor)
            },
    {
        if let Some(s) = &self.add {
            if Color::from_hex_str(s.as_str()).is_err() {
                return Err(EngineError::MalformedColor);
            }
        }
        if let Some(s) = &self.delete {
            if Color::from_hex_str(s.as_str()).is_err() {
                return Err(EngineError::MalformedColor);
            }
        }
        if let Some(s) = &self.change {
            if Color::from_hex_str(s.as_str()).is_err() {
                return Err(EngineError::MalformedColor);
            }
        }
        if let Some(s) = &self.text {
            if Color::from_hex_str(s.as_str()).is_err() {
                return Err(EngineError::MalformedColor);
            }
        }
        Ok(())
    }
}

impl Default for DiffColors {
    /// No diff color chosen yet.
    fn default() -> (r: Self)
        ensures
            r@ == (DiffColorsV { add: None, delete: None, change: None, text: None }),
    {
        DiffColors { add: None, delete: None, change: None, text: None }
    }
}

pub open spec fn opt_term_view(o: Option<TermColors>) -> Option<TermColorsV> {
    match o {
        Some(t) => Some(t@),
        None => None,
    }
}

pub open spec fn opt_diff_view(o: Option<DiffColors>) -> Option<DiffColorsV> {
    match o {
        Some(d) => Some(d@),
        None => None,
    }
}

/// The abstract reading of a theme's whole color set.
#[verifier::ext_equal]
pub struct ThemeColorsV {
    pub base: TermColorsV,
    pub bright: Option<TermColorsV>,
    pub dim: Option<TermColorsV>,
    pub comment: Option<Seq<char>>,
    pub variable: Option<Seq<char>>,
    pub status_line: Option<Seq<char>>,
    pub background: RampView,
    pub foreground: RampView,
    pub selection: RampView,
    pub diff: Option<DiffColorsV>,
}

/// The complete color set of a theme: the base palette, its optional
/// bright/dim siblings, the three ramps, and the derived single colors.
#[derive(Debug)]
pub struct ThemeColors {
    pub base: TermColors,
    pub bright: Option<TermColors>,
    pub dim: Option<TermColors>,
    pub comment: Option<String>,
    pub variable: Option<String>,
    pub status_line: Option<String>,
    pub background: Background,
    pub foreground: Foreground,
    pub selection: Selection,
    pub diff: Option<DiffColors>,
}

impl View for ThemeColors {
    type V = ThemeColorsV;

    open spec fn view(&self) -> ThemeColorsV {
        ThemeColorsV {
            base: self.base@,
            bright: opt_term_view(self.bright),
            dim: opt_term_view(self.dim),
            comment: opt_view(self.comment),
            variable: opt_view(self.variable),
            status_line: opt_view(self.status_line),
            background: self.background@,
            foreground: self.foreground@,
            selection: self.selection@,
            diff: opt_diff_view(self.diff),
        }
    }
}

/// The comment blend factor: the configured one, or the canonical default.
pub open spec fn comment_factor_of(f: Option<i32>) -> int {
    match f {
        Some(x) => x as int,
        None => DEFAULT_COMMENT_BLEND_FACTOR as int,
    }
}

pub open spec fn empty_diff_v() -> DiffColorsV {
    DiffColorsV { add: None, delete: None, change: None, text: None }
}

/// The ordered completion of a theme's color set. The three ramps are
/// completed first; the bright and dim palettes are shaded from the base;
/// the diff, comment, variable and status-line colors are derived from the
/// completed ramps and the base palette. A field already present on input
/// is returned exactly as it was; the first failing step aborts the whole
/// derivation.
#[verifier::opaque]
pub open spec fn spec_prepare_colors(t: ThemeColorsV, cfg: ThemeConfig) -> Result<
    ThemeColorsV,
    EngineError,
> {
    let bgr = bg_prepare_spec(t.background, cfg.background_shade);
    let fgr = fg_prepare_spec(t.foreground, cfg.foreground_shade);
    let selr = sel_prepare_spec(t.selection, cfg.selection_shade);
    let shade = shade_factor_of(cfg.shade_factor);
    let brr = spec_term_shade(t.base, shade);
    let dimr = spec_term_shade(t.base, -shade);
    if bgr is Err {
        Err(bgr->Err_0)
    } else if fgr is Err {
        Err(fgr->Err_0)
    } else if selr is Err {
        Err(selr->Err_0)
    } else if brr is Err {
        Err(brr->Err_0)
    } else if dimr is Err {
        Err(dimr->Err_0)
    } else {
        let bgslots = bgr->Ok_0->Filled_0;
        let fgslots = fgr->Ok_0->Filled_0;
        if spec_from_hex(bgslots[1]) is None || spec_from_hex(t.base.green) is None
            || spec_from_hex(t.base.red) is None || spec_from_hex(t.base.blue) is None
            || spec_from_hex(t.base.cyan) is None || spec_from_hex(fgslots[1]) is None {
            Err(EngineError::MalformedColor)
        } else {
            let bg1 = spec_from_hex(bgslots[1])->Some_0;
            let fg1 = spec_from_hex(fgslots[1])->Some_0;
            let dc = if cfg.diff_blend is Some {
                cfg.diff_blend->0
            } else {
                spec_default_diff_blend()
            };
            let cbf = comment_factor_of(cfg.comment_blend_factor);
            let d0 = if t.diff is Some {
                t.diff->0
            } else {
                empty_diff_v()
            };
            Ok(
                ThemeColorsV {
                    base: t.base,
                    bright: if t.bright is Some {
                        t.bright
                    } else {
                        Some(brr->Ok_0)
                    },
                    dim: if t.dim is Some {
                        t.dim
                    } else {
                        Some(dimr->Ok_0)
                    },
                    comment: if t.comment is Some {
                        t.comment
                    } else {
                        Some(spec_to_css(spec_blend(bg1, fg1, cbf), false))
                    },
                    variable: if t.variable is Some {
                        t.variable
                    } else {
                        Some(fgslots[1])
                    },
                    status_line: if t.status_line is Some {
                        t.status_line
                    } else {
                        Some(bgslots[0])
                    },
                    background: bgr->Ok_0,
                    foreground: fgr->Ok_0,
                    selection: selr->Ok_0,
                    diff: Some(
                        DiffColorsV {
                            add: if d0.add is Some {
                                d0.add
                            } else {
                                Some(
                                    spec_to_css(
                                        spec_blend(
                                            bg1,
                                            spec_from_hex(t.base.green)->Some_0,
                                            dc.add as int,
                                        ),
                                        false,
                                    ),
                                )
                            },
                            delete: if d0.delete is Some {
                                d0.delete
                            } else {
                                Some(
                                    spec_to_css(
                                        spec_blend(
                                            bg1,
                                            spec_from_hex(t.base.red)->Some_0,
                                            dc.delete as int,
                                        ),
                                        false,
                                    ),
                                )
                            },
                            change: if d0.change is Some {
                                d0.change
                            } else {
                                Some(
                                    spec_to_css(
                                        spec_blend(
                                            bg1,
                                            spec_from_hex(t.base.blue)->Some_0,
                                            dc.change as int,
                                        ),
                                        false,
                                    ),
                                )
                            },
                            text: if d0.text is Some {
                                d0.text
                            } else {
                                Some(
                                    spec_to_css(
                                        spec_blend(
                                            bg1,
                                            spec_from_hex(t.base.cyan)->Some_0,
                                            dc.text as int,
                                        ),
                                        false,
                                    ),
                                )
                            },
                        },
                    ),
                },
            )
        }
    }
}

impl ThemeColors {
    /// Each ramp holds its proper number of slots when filled.
    pub open spec fn wf(self) -> bool {
        self.background.wf() && self.foreground.wf() && self.selection.wf()
    }

    /// Completes the color set in one ordered pass: ramps first, then the
    /// bright and dim tiers, then the diff, comment, variable and
    /// status-line colors — filling only what is absent. On failure the
    /// color set is left untouched.
    #[verifier::rlimit(100)]
    pub fn prepare(&mut self, config: &ThemeConfig) -> (r: Result<(), EngineError>)
        requires
            old(self).wf(),
            config.wf(),
        ensures
            final(self).wf(),
            match r {
                Ok(_) => spec_prepare_colors(old(self)@, *config) == Ok::<
                    ThemeColorsV,
                    EngineError,
                >(final(self)@),
                Err(e) => spec_prepare_colors(old(self)@, *config) == Err::<
                    ThemeColorsV,
                    EngineError,
                >(e) && final(self)@ == old(self)@,
            },
    {
        proof {
            reveal(spec_prepare_colors);
        }
        let ghost t0 = self@;
        let mut bg = self.background.duplicate();
        match bg.prepare(&config.background_shade) {
            Ok(_) => {},
            Err(e) => {
                return Err(e);
            },
        }
        let mut fg = self.foreground.duplicate();
        match fg.prepare(&config.foreground_shade) {
            Ok(_) => {},
            Err(e) => {
                return Err(e);
            },
        }
        let mut sel = self.selection.duplicate();
        match sel.prepare(&config.selection_shade) {
            Ok(_) => {},
            Err(e) => {
                return Err(e);
            },
        }
        let shade = match config.shade_factor {
            Some(x) => x,
            None => DEFAULT_SHADE_FACTOR,
        };
        let bright_new = match self.base.shade(Some(shade)) {
            Ok(t) => t,
            Err(e) => {
                return Err(e);
            },
        };
        let dim_new = match self.base.shade(Some(-shade)) {
            Ok(t) => t,
            Err(e) => {
                return Err(e);
            },
        };
        let bg0_str: String = match bg.index(0) {
            Some(s) => s.clone(),
            None => {
                proof {
                    assert(false);
                }
                return Err(EngineError::MissingBaseColor);
            },
        };
        let bg1_str: String = match bg.index(1) {
            Some(s) => s.clone(),
            None => {
                proof {
                    assert(false);
                }
                return Err(EngineError::MissingBaseColor);
            },
        };
        let fg1_str: String = match fg.index(1) {
            Some(s) => s.clone(),
            None => {
                proof {
                    assert(false);
                }
                return Err(EngineError::MissingBaseColor);
            },
        };
        let bg1 = match Color::from_hex_str(bg1_str.as_str()) {
            Ok(c) => c,
            Err(e) => {
                return Err(e);
            },
        };
        let green_c = match Color::from_hex_str(self.base.green.as_str()) {
            Ok(c) => c,
            Err(e) => {
                return Err(e);
            },
        };
        let red_c = match Color::from_hex_str(self.base.red.as_str()) {
            Ok(c) => c,
            Err(e) => {
                return Err(e);
            },
        };
        let blue_c = match Color::from_hex_str(self.base.blue.as_str()) {
            Ok(c) => c,
            Err(e) => {
                return Err(e);
            },
        };
        let cyan_c = match Color::from_hex_str(self.base.cyan.as_str()) {
            Ok(c) => c,
            Err(e) => {
                return Err(e);
            },
        };
        let fg1 = match Color::from_hex_str(fg1_str.as_str()) {
            Ok(c) => c,
            Err(e) => {
                return Err(e);
            },
        };
        let dc = match config.diff_blend {
            Some(d) => d,
            None => DiffBlendConfig::default(),
        };
        let cbf = match config.comment_blend_factor {
            Some(x) => x,
            None => DEFAULT_COMMENT_BLEND_FACTOR,
        };
        let comment_new = bg1.blend(&fg1, cbf).to_css(false);
        let diff_new = DiffColors {
            add: match &self.diff {
                Some(d) if d.add.is_some() => match &d.add {
                    Some(s) => Some(s.clone()),
                    None => None,
                },
                _ => Some(bg1.blend(&green_c, dc.add).to_css(false)),
            },
            delete: match &self.diff {
                Some(d) if d.delete.is_some() => match &d.delete {
                    Some(s) => Some(s.clone()),
                    None => None,
                },
                _ => Some(bg1.blend(&red_c, dc.delete).to_css(false)),
            },
            change: match &self.diff {
                Some(d) if d.change.is_some() => match &d.change {
                    Some(s) => Some(s.clone()),
                    None => None,
                },
                _ => Some(bg1.blend(&blue_c, dc.change).to_css(false)),
            },
            text: match &self.diff {
                Some(d) if d.text.is_some() => match &d.text {
                    Some(s) => Some(s.clone()),
                    None => None,
                },
                _ => Some(bg1.blend(&cyan_c, dc.text).to_css(false)),
            },
        };
        self.background = bg;
        self.foreground = fg;
        self.selection = sel;
        if self.bright.is_none() {
            self.bright = Some(bright_new);
        }
        if self.dim.is_none() {
            self.dim = Some(dim_new);
        }
        self.diff = Some(diff_new);
        if self.comment.is_none() {
            self.comment = Some(comment_new);
        }
        if self.variable.is_none() {
            self.variable = Some(fg1_str);
        }
        if self.status_line.is_none() {
            self.status_line = Some(bg0_str);
        }
        proof {
            assert(self@ =~~= spec_prepare_colors(t0, *config)->Ok_0);
        }
        Ok(())
    }

    /// Checks that every color string the set holds parses: the base,
    /// bright and dim palettes, the diff colors, the three ramps, and the
    /// comment, variable and status-line colors.
    pub fn validation(&self) -> (r: Result<(), EngineError>)
        ensures
            r == if colors_valid(self@) {
                Ok::<(), EngineError>(())
            } else {
                Err::<(), EngineError>(EngineError::MalformedColor)
            },
    {
        match self.base.validation() {
            Ok(_) => {},
            Err(_) => {
                return Err(EngineError::MalformedColor);
            },
        }
        if let Some(b) = &self.bright {
            match b.validation() {
                Ok(_) => {},
                Err(_) => {
                    return Err(EngineError::MalformedColor);
                },
            }
        }
        if let Some(d) = &self.dim {
            match d.validation() {
                Ok(_) => {},
                Err(_) => {
                    return Err(EngineError::MalformedColor);
                },
            }
        }
        if let Some(d) = &self.diff {
            match d.validation() {
                Ok(_) => {},
                Err(_) => {
                    return Err(EngineError::MalformedColor);
                },
            }
        }
        match self.background.validation() {
            Ok(_) => {},
            Err(_) => {
                return Err(EngineError::MalformedColor);
            },
        }
        match self.foreground.validation() {
            Ok(_) => {},
            Err(_) => {
                return Err(EngineError::MalformedColor);
            },
        }
        match self.selection.validation() {
            Ok(_) => {},
            Err(_) => {
                return Err(EngineError::MalformedColor);
            },
        }
        if let Some(s) = &self.comment {
            if Color::from_hex_str(s.as_str()).is_err() {
                return Err(EngineError::MalformedColor);
            }
        }
        if let Some(s) = &self.variable {
            if Color::from_hex_str(s.as_str()).is_err() {
                return Err(EngineError::MalformedColor);
            }
        }
        if let Some(s) = &self.status_line {
            if Color::from_hex_str(s.as_str()).is_err() {
                return Err(EngineError::MalformedColor);
            }
        }
        Ok(())
    }
}

/// The color set a theme starts from when none is given: the default base
/// palette, no derived fields, and all three ramps empty.
pub open spec fn default_colors_v() -> ThemeColorsV {
    ThemeColorsV {
        base: TermColorsV {
            black: "#000000"@,
            red: "#ff0000"@,
            green: "#00ff00"@,
            yellow: "#ffff00"@,
            blue: "#0000ff"@,
            magenta: "#ff00ff"@,
            cyan: "#00ffff"@,
            white: "#ffffff"@,
            orange: Some("#ff8700"@),
            pink: Some("#ff5faf"@),
        },
        bright: None,
        dim: None,
        comment: None,
        variable: None,
        status_line: None,
        background: RampView::Empty,
        foreground: RampView::Empty,
        selection: RampView::Empty,
        diff: None,
    }
}

impl Default for ThemeColors {
    /// A color set holding only the default base palette; every ramp and
    /// every derived field is still to be supplied or derived.
    fn default() -> (r: Self)
        ensures
            r@ == default_colors_v(),
            r.wf(),
    {
        let r = ThemeColors {
            base: TermColors::default(),
            bright: None,
            dim: None,
            comment: None,
            variable: None,
            status_line: None,
            background: Background::Empty,
            foreground: Foreground::Empty,
            selection: Selection::Empty,
            diff: None,
        };
        proof {
            assert(r@ =~~= default_colors_v());
        }
        r
    }
}

/// Everything a theme's color set stores parses as a color; the absent
/// fields have nothing to check.
pub open spec fn colors_valid(t: ThemeColorsV) -> bool {
    &&& term_valid(t.base)
    &&& (t.bright matches Some(b) ==> term_valid(b))
    &&& (t.dim matches Some(d) ==> term_valid(d))
    &&& (t.diff matches Some(d) ==> diff_valid(d))
    &&& ramp_valid(t.background)
    &&& ramp_valid(t.foreground)
    &&& ramp_valid(t.selection)
    &&& (t.comment matches Some(s) ==> spec_from_hex(s) is Some)
    &&& (t.variable matches Some(s) ==> spec_from_hex(s) is Some)
    &&& (t.status_line matches Some(s) ==> spec_from_hex(s) is Some)
}

/// The configuration a theme falls back to: every knob at its canonical
/// default, as far as the derivation reads it.
pub open spec fn is_default_config(c: ThemeConfig) -> bool {
    &&& c.shade_factor == Some(DEFAULT_SHADE_FACTOR)
    &&& c.comment_blend_factor == Some(DEFAULT_COMMENT_BLEND_FACTOR)
    &&& crate::config::bg_offs(c.background_shade) == seq![-4000int, 6000int, 12000int, 23000int]
    &&& crate::config::fg_offs(c.foreground_shade) == seq![6000int, -23000int, -46000int]
    &&& crate::config::sel_offs(c.selection_shade) == seq![16000int]
    &&& c.diff_blend == Some(spec_default_diff_blend())
}

/// The color set a theme's preparation starts from: the stored one, or
/// the default when none is stored.
pub open spec fn colors0_v(t: Theme) -> ThemeColorsV {
    match t.colors {
        Some(c) => c@,
        None => default_colors_v(),
    }
}

/// A whole catalog entry: an optional name, light/dark flag, color set
/// and configuration. `prepare` fills the absent parts in and completes
/// the colors; afterwards the theme is read-only.
#[derive(Debug)]
pub struct Theme {
    pub name: Option<String>,
    pub light: Option<bool>,
    pub colors: Option<ThemeColors>,
    pub config: Option<ThemeConfig>,
}

impl Theme {
    /// The stored configuration and color set obey their machine limits.
    pub open spec fn wf(self) -> bool {
        &&& (self.config matches Some(c) ==> c.wf())
        &&& (self.colors matches Some(tc) ==> tc.wf())
    }

    /// The theme's color set, inserting the default set first when none
    /// is stored.
    pub fn get_colors(&mut self) -> (r: &ThemeColors)
        ensures
            old(self).colors is Some ==> *final(self) == *old(self),
            old(self).colors is None ==> (final(self).colors matches Some(c) && c@
                == default_colors_v() && final(self).name == old(self).name && final(self).light
                == old(self).light && final(self).config == old(self).config),
            final(self).colors matches Some(c) && r@ == c@,
    {
        if self.colors.is_none() {
            self.colors = Some(ThemeColors::default());
        }
        self.colors.as_ref().unwrap()
    }

    /// Whether the theme is light, inserting the default `false` first
    /// when the flag is absent.
    pub fn is_light(&mut self) -> (r: bool)
        ensures
            match old(self).light {
                Some(b) => r == b && *final(self) == *old(self),
                None => r == false && final(self).light == Some(false) && final(self).name == old(
                    self,
                ).name && final(self).colors == old(self).colors && final(self).config == old(
                    self,
                ).config,
            },
    {
        match self.light {
            Some(b) => b,
            None => {
                self.light = Some(false);
                false
            },
        }
    }

    /// Inserts the default configuration and color set where absent, then
    /// completes the colors under that configuration.
    #[verifier::rlimit(100)]
    pub fn prepare(&mut self) -> (r: Result<(), EngineError>)
        requires
            old(self).wf(),
        ensures
            final(self).wf(),
            final(self).name == old(self).name,
            final(self).light == old(self).light,
            final(self).config is Some,
            match old(self).config {
                Some(c0) => final(self).config == Some(c0),
                None => is_default_config(final(self).config->0),
            },
            match r {
                Ok(_) => final(self).colors matches Some(t) && spec_prepare_colors(
                    colors0_v(*old(self)),
                    final(self).config->0,
                ) == Ok::<ThemeColorsV, EngineError>(t@),
                Err(e) => final(self).colors matches Some(t) && t@ == colors0_v(*old(self))
                    && spec_prepare_colors(colors0_v(*old(self)), final(self).config->0) == Err::<
                    ThemeColorsV,
                    EngineError,
                >(e),
            },
    {
        let ghost t_in = *old(self);
        let cfg: ThemeConfig = match self.config {
            Some(c) => c,
            None => {
                let d = ThemeConfig::default();
                proof {
                    assert(crate::config::bg_offs(d.background_shade) =~= seq![
                        -4000int, 6000int, 12000int, 23000int,
                    ]);
                    assert(crate::config::fg_offs(d.foreground_shade) =~= seq![
                        6000int, -23000int, -46000int,
                    ]);
                    assert(crate::config::sel_offs(d.selection_shade) =~= seq![16000int]);
                    assert(is_default_config(d));
                }
                d
            },
        };
        self.config = Some(cfg);
        let mut tc: ThemeColors = match self.colors.take() {
            Some(t) => t,
            None => ThemeColors::default(),
        };
        proof {
            assert(tc@ == colors0_v(t_in));
            assert(tc.wf() && cfg.wf());
        }
        let res = tc.prepare(&cfg);
        proof {
            match res {
                Ok(_) => {
                    assert(spec_prepare_colors(colors0_v(t_in), cfg) == Ok::<
                        ThemeColorsV,
                        EngineError,
                    >(tc@));
                },
                Err(e) => {
                    assert(tc@ == colors0_v(t_in));
                    assert(spec_prepare_colors(colors0_v(t_in), cfg) == Err::<
                        ThemeColorsV,
                        EngineError,
                    >(e));
                },
            }
        }
        self.colors = Some(tc);
        res
    }

    /// Checks every color string of the stored set (inserting the default
    /// set first when none is stored).
    pub fn validation(&mut self) -> (r: Result<(), EngineError>)
        ensures
            final(self).name == old(self).name,
            final(self).light == old(self).light,
            final(self).config == old(self).config,
            final(self).colors matches Some(t) && t@ == colors0_v(*old(self)),
            r == if colors_valid(colors0_v(*old(self))) {
                Ok::<(), EngineError>(())
            } else {
                Err::<(), EngineError>(EngineError::MalformedColor)
            },
    {
        let tc: ThemeColors = match self.colors.take() {
            Some(t) => t,
            None => ThemeColors::default(),
        };
        let res = tc.validation();
        self.colors = Some(tc);
        res
    }
}

impl Default for Theme {
    /// A theme with nothing supplied yet.
    fn default() -> (r: Self)
        ensures
            r.name is None,
            r.light is None,
            r.colors is None,
            r.config is None,
            r.wf(),
    {
        Theme { name: None, light: None, colors: None, config: None }
    }
}

/// Completion never overwrites what was present: every field of the color
/// set that held a value on input holds that same value in the output,
/// and every slot a ramp already carried is carried through unchanged.
#[verifier::rlimit(100)]
pub proof fn lemma_prepare_preserves_present(t: ThemeColorsV, cfg: ThemeConfig)
    requires
        spec_prepare_colors(t, cfg) is Ok,
    ensures
        ({
            let out = spec_prepare_colors(t, cfg)->Ok_0;
            &&& out.base == t.base
            &&& t.bright is Some ==> out.bright == t.bright
            &&& t.dim is Some ==> out.dim == t.dim
            &&& t.comment is Some ==> out.comment == t.comment
            &&& t.variable is Some ==> out.variable == t.variable
            &&& t.status_line is Some ==> out.status_line == t.status_line
            &&& (t.diff matches Some(d) ==> out.diff matches Some(d2) && (d.add is Some
                ==> d2.add == d.add) && (d.delete is Some ==> d2.delete == d.delete) && (d.change
                is Some ==> d2.change == d.change) && (d.text is Some ==> d2.text == d.text))
            &&& (t.background matches RampView::Filled(v) ==> out.background matches
                RampView::Filled(w) && w.len() == v.len() && forall|i: int|
                0 <= i < v.len() && (#[trigger] v[i]).len() > 0 ==> w[i] == v[i])
        }),
{
    reveal(spec_prepare_colors);
    let out = spec_prepare_colors(t, cfg)->Ok_0;
    if t.background is Filled {
        let v = t.background->Filled_0;
        let offs = crate::config::bg_offs(cfg.background_shade);
        let pr = crate::ramp::spec_prepare_partial(v, offs);
        assert(pr is Ok && out.background == RampView::Filled(pr->Ok_0));
    }
}

} // verus!
