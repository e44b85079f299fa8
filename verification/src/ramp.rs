//! Ramp completion: a background, foreground or selection ramp is an
//! ordered, fixed-size run of related colors, carried as hex strings, and
//! `prepare` expands a single anchor or a sparse array into a fully
//! populated run. An empty string marks a slot still to be derived;
//! user-supplied slots are never overwritten.

use vstd::prelude::*;
use crate::error::EngineError;
use crate::color::{
    Color, CHAN_MAX, spec_from_hex, spec_to_css, spec_brighten, spec_byte,
};
use crate::config::{
    BackgroundShadeConfig, ForegroundShadeConfig, SelectionShadeConfig, bg_offs, fg_offs,
    sel_offs, bg_offs_exec, fg_offs_exec, sel_offs_exec, ints_of, offs_wf, OFFSET_LIMIT,
};
use crate::hex::{all_hex, byte_at, hex_pair, is_hex_digit, hex_digit_val, lemma_hex_char_val};

verus! {

/// The abstract reading of a ramp: not yet anchored, a single anchor
/// color, or the full run of slots.
#[verifier::ext_equal]
pub enum RampView {
    Empty,
    Single(Seq<char>),
    Filled(Seq<Seq<char>>),
}

/// The strings a vector of slots holds.
pub open spec fn views_of(v: Seq<String>) -> Seq<Seq<char>> {
    v.map_values(|s: String| s@)
}

/// The index of the first non-empty slot, or -1 when every slot is empty.
pub open spec fn first_nonempty(v: Seq<Seq<char>>) -> int
    decreases v.len(),
{
    if v.len() == 0 {
        -1
    } else if v[0].len() > 0 {
        0
    } else {
        let r = first_nonempty(v.skip(1));
        if r == -1 { -1 } else { r + 1 }
    }
}

pub proof fn lemma_first_nonempty_at(v: Seq<Seq<char>>, i: int)
    requires
        0 <= i < v.len(),
        v[i].len() > 0,
        forall|j: int| 0 <= j < i ==> (#[trigger] v[j]).len() == 0,
    ensures
        first_nonempty(v) == i,
    decreases i,
{
    if i > 0 {
        lemma_first_nonempty_at(v.skip(1), i - 1);
    }
}

pub proof fn lemma_first_nonempty_none(v: Seq<Seq<char>>)
    requires
        forall|j: int| 0 <= j < v.len() ==> (#[trigger] v[j]).len() == 0,
    ensures
        first_nonempty(v) == -1,
    decreases v.len(),
{
    if v.len() > 0 {
        lemma_first_nonempty_none(v.skip(1));
    }
}

pub proof fn lemma_first_nonempty_props(v: Seq<Seq<char>>)
    ensures
        -1 <= first_nonempty(v) < v.len(),
        first_nonempty(v) >= 0 ==> v[first_nonempty(v)].len() > 0,
        first_nonempty(v) >= 0 ==> forall|j: int| 0 <= j < first_nonempty(v)
            ==> (#[trigger] v[j]).len() == 0,
    decreases v.len(),
{
    if v.len() > 0 && v[0].len() == 0 {
        lemma_first_nonempty_props(v.skip(1));
        let r = first_nonempty(v.skip(1));
        if r >= 0 {
            assert(forall|j: int| 0 <= j < first_nonempty(v) ==> (#[trigger] v[j]).len() == 0) by {
                assert(forall|j: int| 1 <= j < first_nonempty(v) ==> (#[trigger] v[j]).len()
                    == v.skip(1)[j - 1].len() && v.skip(1)[j - 1].len() == 0);
            }
        }
    }
}

/// The run generated from a single anchor: the anchor at slot 1, slot 0
/// and the slots above it brightened outward by their configured offsets.
pub open spec fn spec_fill_from_single(base: Color, offs: Seq<int>) -> Seq<Seq<char>> {
    Seq::new(
        offs.len() + 1,
        |i: int|
            if i == 0 {
                spec_to_css(spec_brighten(base, offs[0]), false)
            } else if i == 1 {
                spec_to_css(base, false)
            } else {
                spec_to_css(spec_brighten(base, offs[i - 1]), false)
            },
    )
}

/// A sparse run completed from a known anchor: non-empty slots are kept,
/// slot 1 renders the anchor, higher slots brighten forward from it, and
/// slot 0 is filled only when slot 1 itself had to be derived.
pub open spec fn spec_complete(v: Seq<Seq<char>>, offs: Seq<int>, base: Color) -> Seq<Seq<char>> {
    Seq::new(
        v.len(),
        |i: int|
            if v[i].len() > 0 {
                v[i]
            } else if i == 0 {
                if v[1].len() == 0 {
                    spec_to_css(spec_brighten(base, offs[0]), false)
                } else {
                    v[0]
                }
            } else if i == 1 {
                spec_to_css(base, false)
            } else {
                spec_to_css(spec_brighten(base, offs[i - 1]), false)
            },
    )
}

/// Preparing a ramp that holds one anchor color string.
pub open spec fn spec_prepare_single(s: Seq<char>, offs: Seq<int>) -> Result<
    Seq<Seq<char>>,
    EngineError,
> {
    match spec_from_hex(s) {
        Some(base) => Ok(spec_fill_from_single(base, offs)),
        None => Err(EngineError::MalformedColor),
    }
}

/// Preparing a sparse run: the first non-empty slot is the reference; if
/// the anchor slot 1 is empty it is derived by the inverse of the
/// reference slot's offset; every remaining empty slot is then filled
/// forward from the anchor.
pub open spec fn spec_prepare_partial(v: Seq<Seq<char>>, offs: Seq<int>) -> Result<
    Seq<Seq<char>>,
    EngineError,
> {
    let j = first_nonempty(v);
    if j == -1 {
        Err(EngineError::MissingBaseColor)
    } else {
        match spec_from_hex(v[j]) {
            None => Err(EngineError::MalformedColor),
            Some(fc) => if v[1].len() == 0 {
                let base = if j == 0 {
                    spec_brighten(fc, -offs[0])
                } else {
                    spec_brighten(fc, -offs[j - 1])
                };
                Ok(spec_complete(v, offs, base))
            } else {
                match spec_from_hex(v[1]) {
                    None => Err(EngineError::MalformedColor),
                    Some(base) => Ok(spec_complete(v, offs, base)),
                }
            },
        }
    }
}

/// A rendered color string is never empty and always starts with `#`.
pub proof fn lemma_css_shape(c: Color)
    ensures
        spec_to_css(c, false).len() == 7,
        spec_to_css(c, false)[0] == '#',
{
    assert(spec_to_css(c, false) =~= seq!['#'] + hex_pair(spec_byte(c.red as int)) + hex_pair(
        spec_byte(c.green as int),
    ) + hex_pair(spec_byte(c.blue as int)));
}

proof fn lemma_byte_range(c: int)
    requires
        0 <= c <= 255000,
    ensures
        0 <= spec_byte(c) <= 255,
{
    assert(0 <= (c + 500) / 1000 <= 255) by (nonlinear_arith)
        requires 0 <= c <= 255000;
}

proof fn lemma_hex_pair_decodes(b: int)
    requires
        0 <= b <= 255,
    ensures
        is_hex_digit(hex_pair(b)[0]),
        is_hex_digit(hex_pair(b)[1]),
        16 * hex_digit_val(hex_pair(b)[0]) + hex_digit_val(hex_pair(b)[1]) == b,
{
    assert(0 <= b / 16 < 16 && 0 <= b % 16 < 16 && 16 * (b / 16) + b % 16 == b)
        by (nonlinear_arith)
        requires 0 <= b <= 255;
    lemma_hex_char_val(b / 16);
    lemma_hex_char_val(b % 16);
}

/// Parsing a rendered color string gives the color whose channels are the
/// rendered bytes, at full opacity.
pub proof fn lemma_parse_css(c: Color)
    requires
        c.wf(),
    ensures
        spec_from_hex(spec_to_css(c, false)) == Some(
            Color {
                red: (1000 * spec_byte(c.red as int)) as u32,
                green: (1000 * spec_byte(c.green as int)) as u32,
                blue: (1000 * spec_byte(c.blue as int)) as u32,
                alpha: CHAN_MAX,
            },
        ),
{
    let s = spec_to_css(c, false);
    lemma_css_shape(c);
    let t = s.skip(1);
    lemma_byte_range(c.red as int);
    lemma_byte_range(c.green as int);
    lemma_byte_range(c.blue as int);
    let br = spec_byte(c.red as int);
    let bg = spec_byte(c.green as int);
    let bb = spec_byte(c.blue as int);
    assert(t =~= hex_pair(br) + hex_pair(bg) + hex_pair(bb));
    lemma_hex_pair_decodes(br);
    lemma_hex_pair_decodes(bg);
    lemma_hex_pair_decodes(bb);
    assert(t[0] == hex_pair(br)[0] && t[1] == hex_pair(br)[1]);
    assert(t[2] == hex_pair(bg)[0] && t[3] == hex_pair(bg)[1]);
    assert(t[4] == hex_pair(bb)[0] && t[5] == hex_pair(bb)[1]);
    assert(all_hex(t)) by {
        assert(forall|i: int| 0 <= i < 6 ==> is_hex_digit(#[trigger] t[i])) by {
            assert(is_hex_digit(t[0]) && is_hex_digit(t[1]) && is_hex_digit(t[2]) && is_hex_digit(
                t[3],
            ) && is_hex_digit(t[4]) && is_hex_digit(t[5]));
        }
    }
    assert(byte_at(t, 0) == br && byte_at(t, 1) == bg && byte_at(t, 2) == bb);
}

/// Negation of an in-range offset.
fn neg_off(x: i32) -> (r: i32)
    requires
        -(OFFSET_LIMIT as int) <= x as int <= OFFSET_LIMIT as int,
    ensures
        r as int == -(x as int),
{
    -x
}

/// The run generated from one anchor color, on vectors.
fn fill_from_single(base: Color, offs: &Vec<i32>) -> (r: Vec<String>)
    requires
        base.wf(),
        offs@.len() >= 1,
    ensures
        views_of(r@) == spec_fill_from_single(base, ints_of(offs@)),
        r@.len() == offs@.len() + 1,
{
    let ghost io = ints_of(offs@);
    let mut out: Vec<String> = Vec::new();
    out.push(base.brighten(offs[0]).to_css(false));
    out.push(base.to_css(false));
    let mut i: usize = 1;
    while i < offs.len()
        invariant
            base.wf(),
            offs@.len() >= 1,
            io == ints_of(offs@),
            1 <= i <= offs@.len(),
            out@.len() == i + 1,
            forall|k: int| 0 <= k <= i ==> views_of(out@)[k] == spec_fill_from_single(base, io)[k],
        decreases offs@.len() - i,
    {
        out.push(base.brighten(offs[i]).to_css(false));
        i += 1;
    }
    proof {
        assert(views_of(out@) =~= spec_fill_from_single(base, io));
    }
    out
}

/// Completion of a sparse run, on vectors.
fn fill_partial(v: &Vec<String>, offs: &Vec<i32>) -> (r: Result<Vec<String>, EngineError>)
    requires
        v@.len() == offs@.len() + 1,
        offs@.len() >= 1,
        offs_wf(ints_of(offs@)),
    ensures
        match r {
            Ok(out) => spec_prepare_partial(views_of(v@), ints_of(offs@)) == Ok::<
                Seq<Seq<char>>,
                EngineError,
            >(views_of(out@)) && out@.len() == v@.len(),
            Err(e) => spec_prepare_partial(views_of(v@), ints_of(offs@)) == Err::<
                Seq<Seq<char>>,
                EngineError,
            >(e),
        },
{
    let ghost vv = views_of(v@);
    let ghost io = ints_of(offs@);
    let mut j: usize = 0;
    while j < v.len() && v[j].as_str().is_empty()
        invariant
            vv == views_of(v@),
            0 <= j <= v@.len(),
            forall|k: int| 0 <= k < j ==> (#[trigger] vv[k]).len() == 0,
        decreases v@.len() - j,
    {
        proof {
            assert(vv[j as int] == v@[j as int]@);
        }
        j += 1;
    }
    proof {
        if j < v.len() {
            assert(vv[j as int] == v@[j as int]@);
        }
    }
    if j == v.len() {
        proof {
            lemma_first_nonempty_none(vv);
        }
        return Err(EngineError::MissingBaseColor);
    }
    proof {
        lemma_first_nonempty_at(vv, j as int);
    }
    let fc = match Color::from_hex_str(v[j].as_str()) {
        Ok(c) => c,
        Err(e) => {
            return Err(e);
        },
    };
    let slot1_empty = v[1].as_str().is_empty();
    let base: Color = if slot1_empty {
        if j == 0 {
            fc.brighten(neg_off(offs[0]))
        } else {
            fc.brighten(neg_off(offs[j - 1]))
        }
    } else {
        match Color::from_hex_str(v[1].as_str()) {
            Ok(c) => c,
            Err(e) => {
                return Err(e);
            },
        }
    };
    let mut out: Vec<String> = Vec::new();
    let mut i: usize = 0;
    while i < v.len()
        invariant
            vv == views_of(v@),
            io == ints_of(offs@),
            v@.len() == offs@.len() + 1,
            v@.len() >= 2,
            base.wf(),
            slot1_empty == (vv[1].len() == 0),
            0 <= i <= v@.len(),
            out@.len() == i,
            forall|k: int| 0 <= k < i ==> (#[trigger] out@[k])@ == spec_complete(vv, io, base)[k],
        decreases v@.len() - i,
    {
        proof {
            assert(vv[i as int] == v@[i as int]@);
            if i > 0 {
                assert(io[i as int - 1] == offs@[i as int - 1] as int);
            }
            assert(vv[1] == v@[1]@);
        }
        if !v[i].as_str().is_empty() {
            out.push(v[i].clone());
        } else if i == 0 {
            if slot1_empty {
                out.push(base.brighten(offs[0]).to_css(false));
            } else {
                out.push(v[0].clone());
            }
        } else if i == 1 {
            out.push(base.to_css(false));
        } else {
            out.push(base.brighten(offs[i - 1]).to_css(false));
        }
        i += 1;
    }
    proof {
        assert(forall|k: int| 0 <= k < out@.len() ==> views_of(out@)[k] == (#[trigger] out@[k])@);
        assert(views_of(out@) =~= spec_complete(vv, io, base));
    }
    Ok(out)
}

/// Clones a vector of slot strings.
fn clone_slots(v: &Vec<String>) -> (r: Vec<String>)
    ensures
        r@ == v@,
{
    let mut out: Vec<String> = Vec::new();
    let mut i: usize = 0;
    while i < v.len()
        invariant
            0 <= i <= v@.len(),
            out@.len() == i,
            forall|k: int| 0 <= k < i ==> out@[k] == v@[k],
        decreases v@.len() - i,
    {
        out.push(v[i].clone());
        i += 1;
    }
    proof {
        assert(out@ =~= v@);
    }
    out
}

/// The canonical default anchors a ramp starts from when it holds nothing.
pub proof fn lemma_parse_black()
    ensures
        spec_from_hex("#000000"@) == Some(Color { red: 0, green: 0, blue: 0, alpha: CHAN_MAX }),
{
    reveal_strlit("#000000");
    let s = "#000000"@;
    let t = s.skip(1);
    assert(t.len() == 6);
    assert(forall|i: int| 0 <= i < 6 ==> t[i] == s[i + 1]);
    assert(hex_digit_val('0') == 0);
    assert(all_hex(t)) by {
        assert(forall|i: int| 0 <= i < 6 ==> is_hex_digit(#[trigger] t[i])) by {
            assert(is_hex_digit(t[0]) && is_hex_digit(t[1]) && is_hex_digit(t[2]) && is_hex_digit(
                t[3],
            ) && is_hex_digit(t[4]) && is_hex_digit(t[5]));
        }
    }
    assert(byte_at(t, 0) == 0 && byte_at(t, 1) == 0 && byte_at(t, 2) == 0);
}

pub proof fn lemma_parse_white()
    ensures
        spec_from_hex("#ffffff"@) == Some(
            Color { red: 255000, green: 255000, blue: 255000, alpha: CHAN_MAX },
        ),
{
    reveal_strlit("#ffffff");
    let s = "#ffffff"@;
    let t = s.skip(1);
    assert(t.len() == 6);
    assert(forall|i: int| 0 <= i < 6 ==> t[i] == s[i + 1]);
    assert(hex_digit_val('f') == 15);
    assert(all_hex(t)) by {
        assert(forall|i: int| 0 <= i < 6 ==> is_hex_digit(#[trigger] t[i])) by {
            assert(is_hex_digit(t[0]) && is_hex_digit(t[1]) && is_hex_digit(t[2]) && is_hex_digit(
                t[3],
            ) && is_hex_digit(t[4]) && is_hex_digit(t[5]));
        }
    }
    assert(byte_at(t, 0) == 255 && byte_at(t, 1) == 255 && byte_at(t, 2) == 255);
}

pub proof fn lemma_parse_default_selection()
    ensures
        spec_from_hex("#2a2a2a"@) == Some(
            Color { red: 42000, green: 42000, blue: 42000, alpha: CHAN_MAX },
        ),
{
    reveal_strlit("#2a2a2a");
    let s = "#2a2a2a"@;
    let t = s.skip(1);
    assert(t.len() == 6);
    assert(forall|i: int| 0 <= i < 6 ==> t[i] == s[i + 1]);
    assert(hex_digit_val('2') == 2 && hex_digit_val('a') == 10);
    assert(all_hex(t)) by {
        assert(forall|i: int| 0 <= i < 6 ==> is_hex_digit(#[trigger] t[i])) by {
            assert(is_hex_digit(t[0]) && is_hex_digit(t[1]) && is_hex_digit(t[2]) && is_hex_digit(
                t[3],
            ) && is_hex_digit(t[4]) && is_hex_digit(t[5]));
        }
    }
    assert(byte_at(t, 0) == 42 && byte_at(t, 1) == 42 && byte_at(t, 2) == 42);
}

/// Every slot of a run parses as a color.
pub open spec fn slots_valid(v: Seq<Seq<char>>) -> bool {
    forall|i: int| 0 <= i < v.len() ==> spec_from_hex(#[trigger] v[i]) is Some
}

/// A ramp is valid when what it holds parses: the single anchor, or every
/// slot of the run.
pub open spec fn ramp_valid(rv: RampView) -> bool {
    match rv {
        RampView::Empty => true,
        RampView::Single(s) => spec_from_hex(s) is Some,
        RampView::Filled(v) => slots_valid(v),
    }
}

/// What preparing a background ramp yields: always a `Filled` 5-slot run
/// on success.
pub open spec fn bg_prepare_spec(rv: RampView, cfg: Option<BackgroundShadeConfig>) -> Result<
    RampView,
    EngineError,
> {
    let offs = bg_offs(cfg);
    let single = match rv {
        RampView::Empty => Some("#000000"@),
        RampView::Single(s) => Some(s),
        RampView::Filled(v) => None,
    };
    match single {
        Some(s) => match spec_prepare_single(s, offs) {
            Ok(w) => Ok(RampView::Filled(w)),
            Err(e) => Err(e),
        },
        None => match spec_prepare_partial(rv->Filled_0, offs) {
            Ok(w) => Ok(RampView::Filled(w)),
            Err(e) => Err(e),
        },
    }
}

/// What preparing a foreground ramp yields: a `Filled` 4-slot run.
pub open spec fn fg_prepare_spec(rv: RampView, cfg: Option<ForegroundShadeConfig>) -> Result<
    RampView,
    EngineError,
> {
    let offs = fg_offs(cfg);
    let single = match rv {
        RampView::Empty => Some("#ffffff"@),
        RampView::Single(s) => Some(s),
        RampView::Filled(v) => None,
    };
    match single {
        Some(s) => match spec_prepare_single(s, offs) {
            Ok(w) => Ok(RampView::Filled(w)),
            Err(e) => Err(e),
        },
        None => match spec_prepare_partial(rv->Filled_0, offs) {
            Ok(w) => Ok(RampView::Filled(w)),
            Err(e) => Err(e),
        },
    }
}

/// The 2-slot selection run from its anchor: the anchor itself, then one
/// brightened sibling.
pub open spec fn spec_sel_fill(base: Color, offs: Seq<int>) -> Seq<Seq<char>> {
    seq![spec_to_css(base, false), spec_to_css(spec_brighten(base, offs[0]), false)]
}

/// What preparing a selection ramp yields: an anchor grows into its two
/// slots; an already `Filled` run is left exactly as it is.
pub open spec fn sel_prepare_spec(rv: RampView, cfg: Option<SelectionShadeConfig>) -> Result<
    RampView,
    EngineError,
> {
    let offs = sel_offs(cfg);
    match rv {
        RampView::Empty => match spec_from_hex("#2a2a2a"@) {
            Some(b) => Ok(RampView::Filled(spec_sel_fill(b, offs))),
            None => Err(EngineError::MalformedColor),
        },
        RampView::Single(s) => match spec_from_hex(s) {
            Some(b) => Ok(RampView::Filled(spec_sel_fill(b, offs))),
            None => Err(EngineError::MalformedColor),
        },
        RampView::Filled(v) => Ok(RampView::Filled(v)),
    }
}

/// The background ramp: 5 slots, anchored at slot 1.
#[derive(Debug)]
pub enum Background {
    Empty,
    Single(String),
    Filled(Vec<String>),
}

/// The foreground ramp: 4 slots, anchored at slot 1.
#[derive(Debug)]
pub enum Foreground {
    Empty,
    Single(String),
    Filled(Vec<String>),
}

/// The selection ramp: 2 slots, anchored at slot 0.
#[derive(Debug)]
pub enum Selection {
    Empty,
    Single(String),
    Filled(Vec<String>),
}

impl View for Background {
    type V = RampView;

    open spec fn view(&self) -> RampView {
        match self {
            Background::Empty => RampView::Empty,
            Background::Single(s) => RampView::Single(s@),
            Background::Filled(v) => RampView::Filled(views_of(v@)),
        }
    }
}

impl View for Foreground {
    type V = RampView;

    open spec fn view(&self) -> RampView {
        match self {
            Foreground::Empty => RampView::Empty,
            Foreground::Single(s) => RampView::Single(s@),
            Foreground::Filled(v) => RampView::Filled(views_of(v@)),
        }
    }
}

impl View for Selection {
    type V = RampView;

    open spec fn view(&self) -> RampView {
        match self {
            Selection::Empty => RampView::Empty,
            Selection::Single(s) => RampView::Single(s@),
            Selection::Filled(v) => RampView::Filled(views_of(v@)),
        }
    }
}

impl Background {
    /// A filled background run holds exactly 5 slots.
    pub open spec fn wf(self) -> bool {
        self@ matches RampView::Filled(w) ==> w.len() == 5
    }

    pub fn is_filled(&self) -> (r: bool)
        ensures
            r == (self@ is Filled),
    {
        match self {
            Background::Filled(_) => true,
            _ => false,
        }
    }

    /// The slot at `i` of a filled run.
    pub fn index(&self, i: usize) -> (r: Option<&String>)
        ensures
            match r {
                Some(s) => self@ matches RampView::Filled(w) && i < w.len() && s@ == w[i as int],
                None => !(self@ matches RampView::Filled(w) && i < w.len()),
            },
    {
        match self {
            Background::Filled(v) => {
                if i < v.len() {
                    proof {
                        assert(views_of(v@)[i as int] == v@[i as int]@);
                    }
                    Some(&v[i])
                } else {
                    None
                }
            },
            _ => None,
        }
    }

    /// An identical ramp in fresh storage.
    pub fn duplicate(&self) -> (r: Self)
        ensures
            r@ == self@,
    {
        match self {
            Background::Empty => Background::Empty,
            Background::Single(s) => Background::Single(s.clone()),
            Background::Filled(v) => Background::Filled(clone_slots(v)),
        }
    }

    /// Completes the ramp into its `Filled` form, deriving what is absent
    /// and keeping every slot that was supplied. On failure the ramp is
    /// left untouched.
    pub fn prepare(&mut self, cfg: &Option<BackgroundShadeConfig>) -> (r: Result<
        (),
        EngineError,
    >)
        requires
            old(self).wf(),
            offs_wf(bg_offs(*cfg)),
        ensures
            final(self).wf(),
            match r {
                Ok(_) => bg_prepare_spec(old(self)@, *cfg) == Ok::<RampView, EngineError>(
                    final(self)@,
                ) && final(self)@ is Filled,
                Err(e) => bg_prepare_spec(old(self)@, *cfg) == Err::<RampView, EngineError>(e)
                    && final(self)@ == old(self)@,
            },
    {
        let offs = bg_offs_exec(cfg);
        let filled: Vec<String>;
        match &*self {
            Background::Empty => {
                proof {
                    lemma_parse_black();
                }
                let base = match Color::from_hex_str("#000000") {
                    Ok(c) => c,
                    Err(e) => {
                        proof {
                            assert(false);
                        }
                        return Err(e);
                    },
                };
                filled = fill_from_single(base, &offs);
            },
            Background::Single(c) => {
                let base = match Color::from_hex_str(c.as_str()) {
                    Ok(b) => b,
                    Err(e) => {
                        return Err(e);
                    },
                };
                filled = fill_from_single(base, &offs);
            },
            Background::Filled(v) => {
                match fill_partial(v, &offs) {
                    Ok(out) => {
                        filled = out;
                    },
                    Err(e) => {
                        return Err(e);
                    },
                }
            },
        }
        *self = Background::Filled(filled);
        Ok(())
    }

    /// Checks that everything the ramp holds parses as a color.
    pub fn validation(&self) -> (r: Result<(), EngineError>)
        ensures
            r == if ramp_valid(self@) {
                Ok::<(), EngineError>(())
            } else {
                Err::<(), EngineError>(EngineError::MalformedColor)
            },
    {
        match self {
            Background::Empty => Ok(()),
            Background::Single(s) => match Color::from_hex_str(s.as_str()) {
                Ok(_) => Ok(()),
                Err(_) => Err(EngineError::MalformedColor),
            },
            Background::Filled(v) => validate_slots(v),
        }
    }
}

impl Foreground {
    /// A filled foreground run holds exactly 4 slots.
    pub open spec fn wf(self) -> bool {
        self@ matches RampView::Filled(w) ==> w.len() == 4
    }

    pub fn is_filled(&self) -> (r: bool)
        ensures
            r == (self@ is Filled),
    {
        match self {
            Foreground::Filled(_) => true,
            _ => false,
        }
    }

    /// The slot at `i` of a filled run.
    pub fn index(&self, i: usize) -> (r: Option<&String>)
        ensures
            match r {
                Some(s) => self@ matches RampView::Filled(w) && i < w.len() && s@ == w[i as int],
                None => !(self@ matches RampView::Filled(w) && i < w.len()),
            },
    {
        match self {
            Foreground::Filled(v) => {
                if i < v.len() {
                    proof {
                        assert(views_of(v@)[i as int] == v@[i as int]@);
                    }
                    Some(&v[i])
                } else {
                    None
                }
            },
            _ => None,
        }
    }

    /// An identical ramp in fresh storage.
    pub fn duplicate(&self) -> (r: Self)
        ensures
            r@ == self@,
    {
        match self {
            Foreground::Empty => Foreground::Empty,
            Foreground::Single(s) => Foreground::Single(s.clone()),
            Foreground::Filled(v) => Foreground::Filled(clone_slots(v)),
        }
    }

    /// Completes the ramp into its `Filled` form; see `Background::prepare`.
    pub fn prepare(&mut self, cfg: &Option<ForegroundShadeConfig>) -> (r: Result<
        (),
        EngineError,
    >)
        requires
            old(self).wf(),
            offs_wf(fg_offs(*cfg)),
        ensures
            final(self).wf(),
            match r {
                Ok(_) => fg_prepare_spec(old(self)@, *cfg) == Ok::<RampView, EngineError>(
                    final(self)@,
                ) && final(self)@ is Filled,
                Err(e) => fg_prepare_spec(old(self)@, *cfg) == Err::<RampView, EngineError>(e)
                    && final(self)@ == old(self)@,
            },
    {
        let offs = fg_offs_exec(cfg);
        let filled: Vec<String>;
        match &*self {
            Foreground::Empty => {
                proof {
                    lemma_parse_white();
                }
                let base = match Color::from_hex_str("#ffffff") {
                    Ok(c) => c,
                    Err(e) => {
                        proof {
                            assert(false);
                        }
                        return Err(e);
                    },
                };
                filled = fill_from_single(base, &offs);
            },
            Foreground::Single(c) => {
                let base = match Color::from_hex_str(c.as_str()) {
                    Ok(b) => b,
                    Err(e) => {
                        return Err(e);
                    },
                };
                filled = fill_from_single(base, &offs);
            },
            Foreground::Filled(v) => {
                match fill_partial(v, &offs) {
                    Ok(out) => {
                        filled = out;
                    },
                    Err(e) => {
                        return Err(e);
                    },
                }
            },
        }
        *self = Foreground::Filled(filled);
        Ok(())
    }

    /// Checks that everything the ramp holds parses as a color.
    pub fn validation(&self) -> (r: Result<(), EngineError>)
        ensures
            r == if ramp_valid(self@) {
                Ok::<(), EngineError>(())
            } else {
                Err::<(), EngineError>(EngineError::MalformedColor)
            },
    {
        match self {
            Foreground::Empty => Ok(()),
            Foreground::Single(s) => match Color::from_hex_str(s.as_str()) {
                Ok(_) => Ok(()),
                Err(_) => Err(EngineError::MalformedColor),
            },
            Foreground::Filled(v) => validate_slots(v),
        }
    }
}

impl Selection {
    /// A filled selection run holds exactly 2 slots.
    pub open spec fn wf(self) -> bool {
        self@ matches RampView::Filled(w) ==> w.len() == 2
    }

    pub fn is_filled(&self) -> (r: bool)
        ensures
            r == (self@ is Filled),
    {
        match self {
            Selection::Filled(_) => true,
            _ => false,
        }
    }

    /// The slot at `i` of a filled run.
    pub fn index(&self, i: usize) -> (r: Option<&String>)
        ensures
            match r {
                Some(s) => self@ matches RampView::Filled(w) && i < w.len() && s@ == w[i as int],
                None => !(self@ matches RampView::Filled(w) && i < w.len()),
            },
    {
        match self {
            Selection::Filled(v) => {
                if i < v.len() {
                    proof {
                        assert(views_of(v@)[i as int] == v@[i as int]@);
                    }
                    Some(&v[i])
                } else {
                    None
                }
            },
            _ => None,
        }
    }

    /// An identical ramp in fresh storage.
    pub fn duplicate(&self) -> (r: Self)
        ensures
            r@ == self@,
    {
        match self {
            Selection::Empty => Selection::Empty,
            Selection::Single(s) => Selection::Single(s.clone()),
            Selection::Filled(v) => Selection::Filled(clone_slots(v)),
        }
    }

    /// Grows an anchor into the two selection slots; a run that is already
    /// `Filled` is kept exactly as supplied.
    #[verifier::rlimit(50)]
    pub fn prepare(&mut self, cfg: &Option<SelectionShadeConfig>) -> (r: Result<
        (),
        EngineError,
    >)
        requires
            old(self).wf(),
            offs_wf(sel_offs(*cfg)),
        ensures
            final(self).wf(),
            match r {
                Ok(_) => sel_prepare_spec(old(self)@, *cfg) == Ok::<RampView, EngineError>(
                    final(self)@,
                ) && final(self)@ is Filled,
                Err(e) => sel_prepare_spec(old(self)@, *cfg) == Err::<RampView, EngineError>(e)
                    && final(self)@ == old(self)@,
            },
    {
        let offs = sel_offs_exec(cfg);
        let base: Color;
        match &*self {
            Selection::Empty => {
                proof {
                    lemma_parse_default_selection();
                }
                base = match Color::from_hex_str("#2a2a2a") {
                    Ok(c) => c,
                    Err(e) => {
                        proof {
                            assert(false);
                        }
                        return Err(e);
                    },
                };
            },
            Selection::Single(c) => {
                base = match Color::from_hex_str(c.as_str()) {
                    Ok(b) => b,
                    Err(e) => {
                        return Err(e);
                    },
                };
            },
            Selection::Filled(_) => {
                return Ok(());
            },
        }
        let mut out: Vec<String> = Vec::new();
        out.push(base.to_css(false));
        out.push(base.brighten(offs[0]).to_css(false));
        proof {
            assert(views_of(out@) =~= spec_sel_fill(base, sel_offs(*cfg)));
        }
        *self = Selection::Filled(out);
        Ok(())
    }

    /// Checks that everything the ramp holds parses as a color.
    pub fn validation(&self) -> (r: Result<(), EngineError>)
        ensures
            r == if ramp_valid(self@) {
                Ok::<(), EngineError>(())
            } else {
                Err::<(), EngineError>(EngineError::MalformedColor)
            },
    {
        match self {
            Selection::Empty => Ok(()),
            Selection::Single(s) => match Color::from_hex_str(s.as_str()) {
                Ok(_) => Ok(()),
                Err(_) => Err(EngineError::MalformedColor),
            },
            Selection::Filled(v) => validate_slots(v),
        }
    }
}

/// Checks every string a vector of slots holds.
fn validate_slots(v: &Vec<String>) -> (r: Result<(), EngineError>)
    ensures
        r == if slots_valid(views_of(v@)) {
            Ok::<(), EngineError>(())
        } else {
            Err::<(), EngineError>(EngineError::MalformedColor)
        },
{
    let ghost vv = views_of(v@);
    let mut i: usize = 0;
    while i < v.len()
        invariant
            vv == views_of(v@),
            0 <= i <= v@.len(),
            forall|k: int| 0 <= k < i ==> spec_from_hex(#[trigger] vv[k]) is Some,
        decreases v@.len() - i,
    {
        proof {
            assert(vv[i as int] == v@[i as int]@);
        }
        match Color::from_hex_str(v[i].as_str()) {
            Ok(_) => {},
            Err(_) => {
                return Err(EngineError::MalformedColor);
            },
        }
        i += 1;
    }
    Ok(())
}

/// Preparing an empty background ramp always succeeds, and the anchor
/// slot 1 of the filled result is exactly the canonical default
/// background hex, whatever the offsets are.
pub proof fn lemma_bg_prepare_empty(cfg: Option<BackgroundShadeConfig>)
    ensures
        bg_prepare_spec(RampView::Empty, cfg) matches Ok(rv) && rv matches RampView::Filled(w)
            && w.len() == 5 && w[1] == "#000000"@,
{
    lemma_parse_black();
    let offs = bg_offs(cfg);
    assert(offs.len() == 4);
    let base = Color { red: 0, green: 0, blue: 0, alpha: CHAN_MAX };
    let w = spec_fill_from_single(base, offs);
    assert(w[1] == spec_to_css(base, false));
    assert(spec_byte(0int) == 0);
    assert(hex_pair(0) =~= seq!['0', '0']) by {
        lemma_hex_char_val(0);
    }
    reveal_strlit("#000000");
    assert(spec_to_css(base, false) =~= "#000000"@);
}

/// A run grown from a single anchor is a fixed point of partial
/// completion: preparing it again changes nothing.
proof fn lemma_single_ok_idempotent(s: Seq<char>, offs: Seq<int>)
    requires
        offs.len() >= 1,
        spec_prepare_single(s, offs) is Ok,
    ensures
        spec_prepare_partial(spec_prepare_single(s, offs)->Ok_0, offs) == spec_prepare_single(
            s,
            offs,
        ),
{
    let base = spec_from_hex(s)->Some_0;
    crate::color::lemma_from_hex_wf(s);
    let w = spec_fill_from_single(base, offs);
    assert forall|i: int| 0 <= i < w.len() implies (#[trigger] w[i]).len() > 0 by {
        if i == 1 {
            lemma_css_shape(base);
        } else if i == 0 {
            lemma_css_shape(spec_brighten(base, offs[0]));
        } else {
            lemma_css_shape(spec_brighten(base, offs[i - 1]));
        }
    }
    lemma_first_nonempty_at(w, 0);
    crate::color::lemma_brighten_wf(base, offs[0]);
    lemma_parse_css(spec_brighten(base, offs[0]));
    lemma_parse_css(base);
    let base2 = spec_from_hex(w[1])->Some_0;
    assert(spec_complete(w, offs, base2) =~= w);
}

/// Partial completion is idempotent: what one pass fills, a second pass
/// leaves exactly as it found it.
proof fn lemma_partial_ok_idempotent(v: Seq<Seq<char>>, offs: Seq<int>)
    requires
        v.len() == offs.len() + 1,
        offs.len() >= 1,
        spec_prepare_partial(v, offs) is Ok,
    ensures
        spec_prepare_partial(spec_prepare_partial(v, offs)->Ok_0, offs) == spec_prepare_partial(
            v,
            offs,
        ),
{
    let j = first_nonempty(v);
    lemma_first_nonempty_props(v);
    let fc = spec_from_hex(v[j])->Some_0;
    let base = if v[1].len() == 0 {
        if j == 0 {
            spec_brighten(fc, -offs[0])
        } else {
            spec_brighten(fc, -offs[j - 1])
        }
    } else {
        spec_from_hex(v[1])->Some_0
    };
    let w = spec_complete(v, offs, base);
    assert(spec_prepare_partial(v, offs) == Ok::<Seq<Seq<char>>, EngineError>(w));
    crate::color::lemma_from_hex_wf(v[j]);
    crate::color::lemma_from_hex_wf(v[1]);
    crate::color::lemma_brighten_wf(fc, -offs[0]);
    if j >= 1 {
        crate::color::lemma_brighten_wf(fc, -offs[j - 1]);
    }
    lemma_css_shape(base);
    lemma_parse_css(base);
    // every slot above the anchor is non-empty after one pass
    assert forall|i: int| 2 <= i < w.len() implies (#[trigger] w[i]).len() > 0 by {
        if v[i].len() == 0 {
            lemma_css_shape(spec_brighten(base, offs[i - 1]));
        }
    }
    assert(w[1].len() > 0);
    if w[0].len() > 0 {
        lemma_first_nonempty_at(w, 0);
        if v[0].len() > 0 {
            assert(j == 0);
            assert(w[0] == v[0]);
        } else {
            assert(v[1].len() == 0);
            lemma_css_shape(spec_brighten(base, offs[0]));
            crate::color::lemma_brighten_wf(base, offs[0]);
            lemma_parse_css(spec_brighten(base, offs[0]));
        }
    } else {
        assert(v[0].len() == 0 && v[1].len() > 0);
        lemma_first_nonempty_at(w, 1);
    }
    let j2 = first_nonempty(w);
    assert(spec_from_hex(w[j2]) is Some);
    let base2 = spec_from_hex(w[1])->Some_0;
    assert(spec_complete(w, offs, base2) =~= w);
}

/// Preparing a background ramp twice gives what one pass gives: the
/// completion is idempotent.
#[verifier::rlimit(50)]
pub proof fn lemma_bg_prepare_idempotent(rv: RampView, cfg: Option<BackgroundShadeConfig>)
    requires
        rv matches RampView::Filled(w) ==> w.len() == 5,
        bg_prepare_spec(rv, cfg) is Ok,
    ensures
        bg_prepare_spec(bg_prepare_spec(rv, cfg)->Ok_0, cfg) == bg_prepare_spec(rv, cfg),
{
    let offs = bg_offs(cfg);
    assert(offs.len() == 4);
    match rv {
        RampView::Empty => {
            lemma_single_ok_idempotent("#000000"@, offs);
        },
        RampView::Single(s) => {
            lemma_single_ok_idempotent(s, offs);
        },
        RampView::Filled(v) => {
            lemma_partial_ok_idempotent(v, offs);
        },
    }
}

proof fn lemma_fg_idem_anchor(s: Seq<char>, cfg: Option<ForegroundShadeConfig>)
    requires
        spec_prepare_single(s, fg_offs(cfg)) is Ok,
    ensures
        fg_prepare_spec(
            RampView::Filled(spec_prepare_single(s, fg_offs(cfg))->Ok_0),
            cfg,
        ) == Ok::<RampView, EngineError>(
            RampView::Filled(spec_prepare_single(s, fg_offs(cfg))->Ok_0),
        ),
{
    let offs = fg_offs(cfg);
    assert(offs.len() == 3);
    lemma_single_ok_idempotent(s, offs);
}

proof fn lemma_fg_idem_filled(v: Seq<Seq<char>>, cfg: Option<ForegroundShadeConfig>)
    requires
        v.len() == 4,
        spec_prepare_partial(v, fg_offs(cfg)) is Ok,
    ensures
        fg_prepare_spec(
            RampView::Filled(spec_prepare_partial(v, fg_offs(cfg))->Ok_0),
            cfg,
        ) == Ok::<RampView, EngineError>(
            RampView::Filled(spec_prepare_partial(v, fg_offs(cfg))->Ok_0),
        ),
{
    let offs = fg_offs(cfg);
    assert(offs.len() == 3);
    lemma_partial_ok_idempotent(v, offs);
}

/// Preparing a foreground ramp twice gives what one pass gives.
#[verifier::rlimit(50)]
pub proof fn lemma_fg_prepare_idempotent(rv: RampView, cfg: Option<ForegroundShadeConfig>)
    requires
        rv matches RampView::Filled(w) ==> w.len() == 4,
        fg_prepare_spec(rv, cfg) is Ok,
    ensures
        fg_prepare_spec(fg_prepare_spec(rv, cfg)->Ok_0, cfg) == fg_prepare_spec(rv, cfg),
{
    match rv {
        RampView::Empty => {
            lemma_fg_idem_anchor("#ffffff"@, cfg);
        },
        RampView::Single(s) => {
            lemma_fg_idem_anchor(s, cfg);
        },
        RampView::Filled(v) => {
            lemma_fg_idem_filled(v, cfg);
        },
    }
}

/// Preparing a selection ramp twice gives what one pass gives.
pub proof fn lemma_sel_prepare_idempotent(rv: RampView, cfg: Option<SelectionShadeConfig>)
    requires
        sel_prepare_spec(rv, cfg) is Ok,
    ensures
        sel_prepare_spec(sel_prepare_spec(rv, cfg)->Ok_0, cfg) == sel_prepare_spec(rv, cfg),
{
}

/// In a 5-slot run where only slot 3 is populated, the anchor at slot 1
/// is derived by inverse-offsetting from slot 3, slots 0, 2 and 4 are
/// derived forward from that anchor, and slot 3 itself is unchanged.
pub proof fn lemma_anchor_from_reference(v: Seq<Seq<char>>, offs: Seq<int>)
    requires
        v.len() == 5,
        offs.len() == 4,
        v[0].len() == 0,
        v[1].len() == 0,
        v[2].len() == 0,
        v[3].len() > 0,
        v[4].len() == 0,
        spec_from_hex(v[3]) is Some,
    ensures
        spec_prepare_partial(v, offs) matches Ok(w) && w.len() == 5 && {
            let base = spec_brighten(spec_from_hex(v[3])->Some_0, -offs[2]);
            w[3] == v[3] && w[1] == spec_to_css(base, false) && w[0] == spec_to_css(
                spec_brighten(base, offs[0]),
                false,
            ) && w[2] == spec_to_css(spec_brighten(base, offs[1]), false) && w[4] == spec_to_css(
                spec_brighten(base, offs[3]),
                false,
            )
        },
{
    lemma_first_nonempty_at(v, 3);
}

} // verus!
