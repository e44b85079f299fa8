//! The numeric knobs that govern every derivation step: shade and blend
//! fractions in thousandths, per-slot ramp offsets in thousandths of a
//! percent of the HSV value channel.

use vstd::prelude::*;

verus! {

/// Default shade fraction between the base palette and its bright/dim
/// siblings: 0.15 of the distance to the extreme.
pub const DEFAULT_SHADE_FACTOR: i32 = 150;

/// Default fraction for blending the background toward the foreground when
/// deriving the comment color.
pub const DEFAULT_COMMENT_BLEND_FACTOR: i32 = 400;

/// The largest offset magnitude the engine accepts; far beyond the whole
/// value scale, so it narrows nothing meaningful, but it keeps every
/// negation inside the machine word.
pub const OFFSET_LIMIT: i32 = 100000000;

/// Blend weights for the four derived diff colors, in thousandths.
#[derive(Clone, Copy, Debug)]
pub struct DiffBlendConfig {
    pub add: i32,
    pub delete: i32,
    pub change: i32,
    pub text: i32,
}

impl Default for DiffBlendConfig {
    /// The canonical diff weights: 0.2 for add/delete/change, 0.3 for text.
    fn default() -> (r: Self)
        ensures
            r == spec_default_diff_blend(),
    {
        DiffBlendConfig { add: 200, delete: 200, change: 200, text: 300 }
    }
}

pub open spec fn spec_default_diff_blend() -> DiffBlendConfig {
    DiffBlendConfig { add: 200, delete: 200, change: 200, text: 300 }
}

/// Per-slot brighten offsets of the 5-slot background ramp: slot 0 and
/// slots 2..=4, all relative to the anchor at slot 1.
#[derive(Clone, Copy, Debug)]
pub struct BackgroundShadeConfig(pub [i32; 4]);

/// Per-slot brighten offsets of the 4-slot foreground ramp.
#[derive(Clone, Copy, Debug)]
pub struct ForegroundShadeConfig(pub [i32; 3]);

/// The single brighten offset of the 2-slot selection ramp.
#[derive(Clone, Copy, Debug)]
pub struct SelectionShadeConfig(pub [i32; 1]);

impl Default for BackgroundShadeConfig {
    fn default() -> (r: Self)
        ensures
            r.0@ == seq![-4000i32, 6000i32, 12000i32, 23000i32],
    {
        BackgroundShadeConfig([-4000, 6000, 12000, 23000])
    }
}

impl Default for ForegroundShadeConfig {
    fn default() -> (r: Self)
        ensures
            r.0@ == seq![6000i32, -23000i32, -46000i32],
    {
        ForegroundShadeConfig([6000, -23000, -46000])
    }
}

impl Default for SelectionShadeConfig {
    fn default() -> (r: Self)
        ensures
            r.0@ == seq![16000i32],
    {
        SelectionShadeConfig([16000])
    }
}

/// A sequence of machine offsets read as mathematical integers.
pub open spec fn ints_of(v: Seq<i32>) -> Seq<int> {
    v.map_values(|x: i32| x as int)
}

/// The offsets a background ramp is completed with: the configured ones,
/// or the canonical defaults.
pub open spec fn bg_offs(cfg: Option<BackgroundShadeConfig>) -> Seq<int> {
    match cfg {
        Some(c) => ints_of(c.0@),
        None => seq![-4000, 6000, 12000, 23000],
    }
}

pub open spec fn fg_offs(cfg: Option<ForegroundShadeConfig>) -> Seq<int> {
    match cfg {
        Some(c) => ints_of(c.0@),
        None => seq![6000, -23000, -46000],
    }
}

pub open spec fn sel_offs(cfg: Option<SelectionShadeConfig>) -> Seq<int> {
    match cfg {
        Some(c) => ints_of(c.0@),
        None => seq![16000],
    }
}

/// Every offset within the accepted magnitude.
pub open spec fn offs_wf(offs: Seq<int>) -> bool {
    forall|i: int| 0 <= i < offs.len() ==> -(OFFSET_LIMIT as int) <= #[trigger] offs[i]
        <= OFFSET_LIMIT as int
}

/// The background offsets as a vector, configured or default.
pub fn bg_offs_exec(cfg: &Option<BackgroundShadeConfig>) -> (r: Vec<i32>)
    ensures
        ints_of(r@) == bg_offs(*cfg),
        r@.len() == 4,
{
    let mut v: Vec<i32> = Vec::new();
    match cfg {
        Some(c) => {
            v.push(c.0[0]);
            v.push(c.0[1]);
            v.push(c.0[2]);
            v.push(c.0[3]);
            proof {
                assert(ints_of(v@) =~= bg_offs(*cfg));
            }
        },
        None => {
            v.push(-4000);
            v.push(6000);
            v.push(12000);
            v.push(23000);
            proof {
                assert(ints_of(v@) =~= bg_offs(*cfg));
            }
        },
    }
    v
}

pub fn fg_offs_exec(cfg: &Option<ForegroundShadeConfig>) -> (r: Vec<i32>)
    ensures
        ints_of(r@) == fg_offs(*cfg),
        r@.len() == 3,
{
    let mut v: Vec<i32> = Vec::new();
    match cfg {
        Some(c) => {
            v.push(c.0[0]);
            v.push(c.0[1]);
            v.push(c.0[2]);
            proof {
                assert(ints_of(v@) =~= fg_offs(*cfg));
            }
        },
        None => {
            v.push(6000);
            v.push(-23000);
            v.push(-46000);
            proof {
                assert(ints_of(v@) =~= fg_offs(*cfg));
            }
        },
    }
    v
}

pub fn sel_offs_exec(cfg: &Option<SelectionShadeConfig>) -> (r: Vec<i32>)
    ensures
        ints_of(r@) == sel_offs(*cfg),
        r@.len() == 1,
{
    let mut v: Vec<i32> = Vec::new();
    match cfg {
        Some(c) => {
            v.push(c.0[0]);
            proof {
                assert(ints_of(v@) =~= sel_offs(*cfg));
            }
        },
        None => {
            v.push(16000);
            proof {
                assert(ints_of(v@) =~= sel_offs(*cfg));
            }
        },
    }
    v
}

/// Every numeric knob of a theme. A `None` field falls back to the
/// canonical default at the step that reads it.
#[derive(Clone, Copy, Debug)]
pub struct ThemeConfig {
    pub shade_factor: Option<i32>,
    pub comment_blend_factor: Option<i32>,
    pub background_shade: Option<BackgroundShadeConfig>,
    pub foreground_shade: Option<ForegroundShadeConfig>,
    pub selection_shade: Option<SelectionShadeConfig>,
    pub diff_blend: Option<DiffBlendConfig>,
}

impl ThemeConfig {
    /// All ramp offsets within the accepted magnitude, and a shade factor
    /// whose negation stays inside the machine word.
    pub open spec fn wf(self) -> bool {
        &&& offs_wf(bg_offs(self.background_shade))
        &&& offs_wf(fg_offs(self.foreground_shade))
        &&& offs_wf(sel_offs(self.selection_shade))
        &&& (self.shade_factor matches Some(x) ==> x != i32::MIN)
    }
}

impl Default for ThemeConfig {
    /// Every knob set to its canonical default.
    fn default() -> (r: Self)
        ensures
            r.shade_factor == Some(DEFAULT_SHADE_FACTOR),
            r.comment_blend_factor == Some(DEFAULT_COMMENT_BLEND_FACTOR),
            r.background_shade matches Some(c) && c.0@ == seq![-4000i32, 6000i32, 12000i32, 23000i32],
            r.foreground_shade matches Some(c) && c.0@ == seq![6000i32, -23000i32, -46000i32],
            r.selection_shade matches Some(c) && c.0@ == seq![16000i32],
            r.diff_blend == Some(spec_default_diff_blend()),
            r.wf(),
    {
        let r = ThemeConfig {
            shade_factor: Some(DEFAULT_SHADE_FACTOR),
            comment_blend_factor: Some(DEFAULT_COMMENT_BLEND_FACTOR),
            background_shade: Some(BackgroundShadeConfig([-4000, 6000, 12000, 23000])),
            foreground_shade: Some(ForegroundShadeConfig([6000, -23000, -46000])),
            selection_shade: Some(SelectionShadeConfig([16000])),
            diff_blend: Some(DiffBlendConfig { add: 200, delete: 200, change: 200, text: 300 }),
        };
        proof {
            assert(bg_offs(r.background_shade) =~= seq![-4000int, 6000int, 12000int, 23000int]);
            assert(fg_offs(r.foreground_shade) =~= seq![6000int, -23000int, -46000int]);
            assert(sel_offs(r.selection_shade) =~= seq![16000int]);
        }
        r
    }
}

} // verus!
