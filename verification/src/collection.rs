//! Theme resolution: mapping a free-text query to the best-matching theme
//! name by case-insensitive, length-penalized edit-distance scoring over
//! the two fixed name universes (dark and light), and uniform random
//! selection from either universe or the whole catalog.

use vstd::prelude::*;
use vstd::string::*;
use crate::ramp::views_of;

verus! {

/// What `str::to_lowercase` returns for a string: a function of the
/// characters alone.
pub uninterp spec fn lower_of(s: Seq<char>) -> Seq<char>;

/// Relies on str::to_lowercase: the Unicode lowercase mapping of the
/// string, depending on its characters alone.
#[verifier::external_body]
fn lowercase(s: &str) -> (r: String)
    ensures
        r@ == lower_of(s@),
{
    s.to_lowercase()
}

/// Relies on rand::random_range: a value drawn uniformly from the
/// half-open range below `len`; nothing is assumed but membership.
#[verifier::external_body]
fn pick_index(len: usize) -> (r: usize)
    requires
        len > 0,
    ensures
        r < len,
{
    rand::random_range(0..len)
}

pub open spec fn min3(a: nat, b: nat, c: nat) -> nat {
    if a <= b && a <= c { a } else if b <= c { b } else { c }
}

/// The Levenshtein distance: the minimum number of single-character
/// insertions, deletions and substitutions turning `a` into `b`.
pub open spec fn lev(a: Seq<char>, b: Seq<char>) -> nat
    decreases a.len() + b.len(),
{
    if a.len() == 0 {
        b.len()
    } else if b.len() == 0 {
        a.len()
    } else {
        let del = lev(a.skip(1), b) + 1;
        let ins = lev(a, b.skip(1)) + 1;
        let sub = if a[0] == b[0] {
            lev(a.skip(1), b.skip(1))
        } else {
            lev(a.skip(1), b.skip(1)) + 1
        };
        min3(del, ins, sub)
    }
}

/// Relies on strsim::levenshtein: the minimum number of single-character
/// insertions, deletions and substitutions turning one string into the
/// other, computed over the strings' characters.
#[verifier::external_body]
fn levenshtein_dist(a: &str, b: &str) -> (r: usize)
    ensures
        r as nat == lev(a@, b@),
{
    strsim::levenshtein(a, b)
}

/// `needle` occurs contiguously somewhere in `hay`.
pub open spec fn contains_seq(hay: Seq<char>, needle: Seq<char>) -> bool {
    exists|i: int|
        0 <= i && i + needle.len() <= hay.len() && #[trigger] hay.subrange(i, i + needle.len())
            == needle
}

/// Character-for-character equality of two strings.
fn str_eq(a: &str, b: &str) -> (r: bool)
    ensures
        r == (a@ == b@),
{
    let la = a.unicode_len();
    let lb = b.unicode_len();
    if la != lb {
        return false;
    }
    let mut i: usize = 0;
    while i < la
        invariant
            la == a@.len(),
            la == b@.len(),
            0 <= i <= la,
            forall|k: int| 0 <= k < i ==> a@[k] == b@[k],
        decreases la - i,
    {
        if a.get_char(i) != b.get_char(i) {
            return false;
        }
        i += 1;
    }
    proof {
        assert(a@ =~= b@);
    }
    true
}

/// Whether `needle` matches `hay` at offset `i`.
fn match_at(hay: &str, needle: &str, i: usize, n: usize, m: usize) -> (r: bool)
    requires
        n == hay@.len(),
        m == needle@.len(),
        i + m <= n,
    ensures
        r == (hay@.subrange(i as int, i as int + m as int) == needle@),
{
    let mut j: usize = 0;
    while j < m
        invariant
            n == hay@.len(),
            m == needle@.len(),
            i + m <= n,
            0 <= j <= m,
            forall|k: int| 0 <= k < j ==> hay@[i + k] == needle@[k],
        decreases m - j,
    {
        if hay.get_char(i + j) != needle.get_char(j) {
            proof {
                assert(hay@.subrange(i as int, i as int + m as int)[j as int] == hay@[i + j]);
            }
            return false;
        }
        j += 1;
    }
    proof {
        assert(hay@.subrange(i as int, i as int + m as int) =~= needle@);
    }
    true
}

/// Substring search over characters.
fn str_contains(hay: &str, needle: &str) -> (r: bool)
    ensures
        r == contains_seq(hay@, needle@),
{
    let n = hay.unicode_len();
    let m = needle.unicode_len();
    if m > n {
        return false;
    }
    if m == 0 {
        proof {
            assert(hay@.subrange(0, 0 + needle@.len() as int) =~= needle@);
            assert(contains_seq(hay@, needle@)) by {
                assert(0 <= 0 && 0 + needle@.len() <= hay@.len() && hay@.subrange(
                    0,
                    0 + needle@.len() as int,
                ) == needle@);
            }
        }
        return true;
    }
    let mut i: usize = 0;
    while i <= n - m
        invariant
            n == hay@.len(),
            m == needle@.len(),
            0 < m <= n,
            0 <= i <= n - m + 1,
            forall|k: int| 0 <= k < i ==> #[trigger] hay@.subrange(k, k + m as int) != needle@,
        decreases n - i,
    {
        if match_at(hay, needle, i, n, m) {
            return true;
        }
        i += 1;
    }
    false
}

/// The match score of a (lowercased) candidate `n` against a (lowercased)
/// query `q`: 0 for an exact match, 1 for a substring match, otherwise the
/// edit distance plus a tenth of the candidate's length.
pub open spec fn spec_score(n: Seq<char>, q: Seq<char>) -> nat {
    if n == q {
        0
    } else if contains_seq(n, q) {
        1
    } else {
        lev(n, q) + n.len() / 10
    }
}

/// The score of a stored name against an already-lowercased query: the
/// name is lowercased first.
pub open spec fn scored(n: Seq<char>, q: Seq<char>) -> nat {
    spec_score(lower_of(n), q)
}

/// The score, on strings already lowercased.
fn score_of(n_low: &str, q_low: &str) -> (r: u128)
    ensures
        r as nat == spec_score(n_low@, q_low@),
{
    if str_eq(n_low, q_low) {
        0
    } else if str_contains(n_low, q_low) {
        1
    } else {
        let d = levenshtein_dist(n_low, q_low);
        let l = n_low.unicode_len() / 10;
        (d as u128) + (l as u128)
    }
}

/// The first index with the minimum score: later candidates replace the
/// champion only by scoring strictly lower.
pub open spec fn best_idx(names: Seq<Seq<char>>, q: Seq<char>) -> int
    decreases names.len(),
{
    if names.len() <= 1 {
        0
    } else {
        let b = best_idx(names.drop_last(), q);
        if scored(names.last(), q) < scored(names[b], q) {
            names.len() - 1
        } else {
            b
        }
    }
}

pub proof fn lemma_best_idx_props(names: Seq<Seq<char>>, q: Seq<char>)
    requires
        names.len() > 0,
    ensures
        0 <= best_idx(names, q) < names.len(),
        forall|i: int| 0 <= i < names.len() ==> scored(names[best_idx(names, q)], q) <= scored(
            #[trigger] names[i],
            q,
        ),
        forall|i: int| 0 <= i < best_idx(names, q) ==> scored(#[trigger] names[i], q) > scored(
            names[best_idx(names, q)],
            q,
        ),
    decreases names.len(),
{
    if names.len() > 1 {
        lemma_best_idx_props(names.drop_last(), q);
        assert(forall|i: int| 0 <= i < names.len() - 1 ==> names.drop_last()[i] == #[trigger] names[i]);
    }
}

/// The first minimum-scoring index, on vectors of names, with its score.
fn best_in(names: &Vec<String>, q_low: &str) -> (r: (usize, u128))
    requires
        names@.len() > 0,
    ensures
        r.0 as int == best_idx(views_of(names@), q_low@),
        r.1 as nat == scored(views_of(names@)[r.0 as int], q_low@),
        r.0 < names@.len(),
{
    let ghost vv = views_of(names@);
    proof {
        assert(vv[0] == names@[0]@);
    }
    let nl0 = lowercase(names[0].as_str());
    let mut best: usize = 0;
    let mut best_score: u128 = score_of(nl0.as_str(), q_low);
    let mut i: usize = 1;
    while i < names.len()
        invariant
            vv == views_of(names@),
            names@.len() > 0,
            0 < i <= names@.len(),
            best < i,
            best as int == best_idx(vv.take(i as int), q_low@),
            best_score as nat == scored(vv[best as int], q_low@),
        decreases names@.len() - i,
    {
        proof {
            assert(vv[i as int] == names@[i as int]@);
        }
        let nl = lowercase(names[i].as_str());
        let sc = score_of(nl.as_str(), q_low);
        proof {
            assert(vv.take(i as int + 1).drop_last() =~= vv.take(i as int));
            assert(vv.take(i as int + 1).last() == vv[i as int]);
            assert(forall|k: int| 0 <= k < i + 1 ==> vv.take(i as int + 1)[k] == vv[k]);
        }
        if sc < best_score {
            best = i;
            best_score = sc;
        }
        i += 1;
    }
    proof {
        assert(vv.take(names@.len() as int) =~= vv);
    }
    (best, best_score)
}

/// A distance of zero means the strings are the same.
pub proof fn lemma_lev_zero(a: Seq<char>, b: Seq<char>)
    ensures
        (lev(a, b) == 0) <==> (a == b),
    decreases a.len() + b.len(),
{
    if a.len() == 0 {
        if b.len() == 0 {
            assert(a =~= b);
        } else {
            assert(a != b);
        }
    } else if b.len() == 0 {
        assert(a != b);
    } else {
        lemma_lev_zero(a.skip(1), b.skip(1));
        if a[0] == b[0] && a.skip(1) == b.skip(1) {
            assert(a.len() == b.len());
            assert forall|k: int| 0 <= k < a.len() implies a[k] == b[k] by {
                if k >= 1 {
                    assert(a[k] == a.skip(1)[k - 1]);
                    assert(b[k] == b.skip(1)[k - 1]);
                }
            }
            assert(a =~= b);
        }
        if a == b {
            assert(forall|k: int| 0 <= k < a.len() - 1 ==> #[trigger] a.skip(1)[k] == a[k + 1]);
            assert(forall|k: int| 0 <= k < b.len() - 1 ==> #[trigger] b.skip(1)[k] == b[k + 1]);
            assert(a.skip(1) =~= b.skip(1));
        }
    }
}

/// A pool holding a name whose lowercase form is exactly the lowered
/// query makes the winner's score zero, and the winner's lowercase form
/// is that query: an exact match always wins.
pub proof fn lemma_exact_match_wins(names: Seq<Seq<char>>, q: Seq<char>, i: int)
    requires
        0 <= i < names.len(),
        lower_of(names[i]) == q,
    ensures
        scored(names[best_idx(names, q)], q) == 0,
        lower_of(names[best_idx(names, q)]) == q,
{
    lemma_best_idx_props(names, q);
    assert(scored(names[i], q) == 0);
    let b = best_idx(names, q);
    assert(scored(names[b], q) == 0);
    let nb = lower_of(names[b]);
    if nb != q {
        if contains_seq(nb, q) {
            assert(spec_score(nb, q) == 1);
        } else {
            lemma_lev_zero(nb, q);
        }
    }
}


/// The names of every theme in the catalog, dark and light together.
pub open spec fn list_names_spec() -> Seq<Seq<char>> {
    seq![
        "ashes_dark"@,
        "ashes_light"@,
        "autumn"@,
        "base16_dark"@,
        "chicago95"@,
        "dayfox"@,
        "duskfox"@,
        "github_dark"@,
        "github_dark_tritanopia"@,
        "github_light"@,
        "google"@,
        "gotham"@,
        "gruber_darker"@,
        "gruvbox_dark"@,
        "gruvbox_light"@,
        "gruvbox_material_hard_dark"@,
        "gruvbox_material_hard_light"@,
        "gruvbox_material_medium_dark"@,
        "gruvbox_material_medium_light"@,
        "hardhacker"@,
        "high_contrast"@,
        "horizon_dark"@,
        "hyper"@,
        "iceberg"@,
        "iris"@,
        "iterm2"@,
        "kanagawa_dragon"@,
        "kanagawa_wave"@,
        "kimbie_dark"@,
        "kimbie_light"@,
        "kitty"@,
        "konsole_port"@,
        "low_contrast"@,
        "marine_dark"@,
        "meliora"@,
        "miasma"@,
        "midnight_haze"@,
        "monokai"@,
        "monokai_charcoal"@,
        "monokai_pro"@,
        "moonfly"@,
        "neobones_dark"@,
        "neobones_light"@,
        "night_owl"@,
        "nightfox"@,
        "nordfox"@,
        "paper"@,
        "rose_pine"@,
        "rose_pine_dawn"@,
        "terafox"@,
        "tokyo_night"@,
        "ubuntu"@,
        "vesper"@,
        "vscode_dark_plus"@,
        "xcode_dark"@,
        "xcode_light"@,
    ]
}

/// The names of the dark themes.
pub open spec fn dark_names_spec() -> Seq<Seq<char>> {
    seq![
        "ashes_dark"@,
        "autumn"@,
        "base16_dark"@,
        "chicago95"@,
        "duskfox"@,
        "github_dark"@,
        "github_dark_tritanopia"@,
        "google"@,
        "gotham"@,
        "gruber_darker"@,
        "gruvbox_dark"@,
        "gruvbox_material_hard_dark"@,
        "gruvbox_material_medium_dark"@,
        "hardhacker"@,
        "high_contrast"@,
        "horizon_dark"@,
        "hyper"@,
        "iceberg"@,
        "iris"@,
        "iterm2"@,
        "kanagawa_dragon"@,
        "kanagawa_wave"@,
        "kimbie_dark"@,
        "kitty"@,
        "konsole_port"@,
        "low_contrast"@,
        "marine_dark"@,
        "meliora"@,
        "miasma"@,
        "midnight_haze"@,
        "monokai"@,
        "monokai_charcoal"@,
        "monokai_pro"@,
        "moonfly"@,
        "neobones_dark"@,
        "night_owl"@,
        "nightfox"@,
        "nordfox"@,
        "rose_pine"@,
        "terafox"@,
        "tokyo_night"@,
        "vesper"@,
        "vscode_dark_plus"@,
        "xcode_dark"@,
    ]
}

/// The names of the light themes.
pub open spec fn light_names_spec() -> Seq<Seq<char>> {
    seq![
        "ashes_light"@,
        "dayfox"@,
        "github_light"@,
        "gruvbox_light"@,
        "gruvbox_material_hard_light"@,
        "gruvbox_material_medium_light"@,
        "kimbie_light"@,
        "neobones_light"@,
        "paper"@,
        "rose_pine_dawn"@,
        "xcode_light"@,
    ]
}

/// The full name universe, as strings.
#[verifier::rlimit(100)]
pub fn list_names() -> (r: Vec<String>)
    ensures
        views_of(r@) == list_names_spec(),
        r@.len() == 56,
{
    let mut v: Vec<String> = Vec::new();
    v.push(String::from_str("ashes_dark"));
    v.push(String::from_str("ashes_light"));
    v.push(String::from_str("autumn"));
    v.push(String::from_str("base16_dark"));
    v.push(String::from_str("chicago95"));
    v.push(String::from_str("dayfox"));
    v.push(String::from_str("duskfox"));
    v.push(String::from_str("github_dark"));
    v.push(String::from_str("github_dark_tritanopia"));
    v.push(String::from_str("github_light"));
    v.push(String::from_str("google"));
    v.push(String::from_str("gotham"));
    v.push(String::from_str("gruber_darker"));
    v.push(String::from_str("gruvbox_dark"));
    v.push(String::from_str("gruvbox_light"));
    v.push(String::from_str("gruvbox_material_hard_dark"));
    v.push(String::from_str("gruvbox_material_hard_light"));
    v.push(String::from_str("gruvbox_material_medium_dark"));
    v.push(String::from_str("gruvbox_material_medium_light"));
    v.push(String::from_str("hardhacker"));
    v.push(String::from_str("high_contrast"));
    v.push(String::from_str("horizon_dark"));
    v.push(String::from_str("hyper"));
    v.push(String::from_str("iceberg"));
    v.push(String::from_str("iris"));
    v.push(String::from_str("iterm2"));
    v.push(String::from_str("kanagawa_dragon"));
    v.push(String::from_str("kanagawa_wave"));
    v.push(String::from_str("kimbie_dark"));
    v.push(String::from_str("kimbie_light"));
    v.push(String::from_str("kitty"));
    v.push(String::from_str("konsole_port"));
    v.push(String::from_str("low_contrast"));
    v.push(String::from_str("marine_dark"));
    v.push(String::from_str("meliora"));
    v.push(String::from_str("miasma"));
    v.push(String::from_str("midnight_haze"));
    v.push(String::from_str("monokai"));
    v.push(String::from_str("monokai_charcoal"));
    v.push(String::from_str("monokai_pro"));
    v.push(String::from_str("moonfly"));
    v.push(String::from_str("neobones_dark"));
    v.push(String::from_str("neobones_light"));
    v.push(String::from_str("night_owl"));
    v.push(String::from_str("nightfox"));
    v.push(String::from_str("nordfox"));
    v.push(String::from_str("paper"));
    v.push(String::from_str("rose_pine"));
    v.push(String::from_str("rose_pine_dawn"));
    v.push(String::from_str("terafox"));
    v.push(String::from_str("tokyo_night"));
    v.push(String::from_str("ubuntu"));
    v.push(String::from_str("vesper"));
    v.push(String::from_str("vscode_dark_plus"));
    v.push(String::from_str("xcode_dark"));
    v.push(String::from_str("xcode_light"));
    proof {
        assert(views_of(v@) =~= list_names_spec());
    }
    v
}

/// The dark name universe, as strings.
#[verifier::rlimit(100)]
pub fn dark_names() -> (r: Vec<String>)
    ensures
        views_of(r@) == dark_names_spec(),
        r@.len() == 44,
{
    let mut v: Vec<String> = Vec::new();
    v.push(String::from_str("ashes_dark"));
    v.push(String::from_str("autumn"));
    v.push(String::from_str("base16_dark"));
    v.push(String::from_str("chicago95"));
    v.push(String::from_str("duskfox"));
    v.push(String::from_str("github_dark"));
    v.push(String::from_str("github_dark_tritanopia"));
    v.push(String::from_str("google"));
    v.push(String::from_str("gotham"));
    v.push(String::from_str("gruber_darker"));
    v.push(String::from_str("gruvbox_dark"));
    v.push(String::from_str("gruvbox_material_hard_dark"));
    v.push(String::from_str("gruvbox_material_medium_dark"));
    v.push(String::from_str("hardhacker"));
    v.push(String::from_str("high_contrast"));
    v.push(String::from_str("horizon_dark"));
    v.push(String::from_str("hyper"));
    v.push(String::from_str("iceberg"));
    v.push(String::from_str("iris"));
    v.push(String::from_str("iterm2"));
    v.push(String::from_str("kanagawa_dragon"));
    v.push(String::from_str("kanagawa_wave"));
    v.push(String::from_str("kimbie_dark"));
    v.push(String::from_str("kitty"));
    v.push(String::from_str("konsole_port"));
    v.push(String::from_str("low_contrast"));
    v.push(String::from_str("marine_dark"));
    v.push(String::from_str("meliora"));
    v.push(String::from_str("miasma"));
    v.push(String::from_str("midnight_haze"));
    v.push(String::from_str("monokai"));
    v.push(String::from_str("monokai_charcoal"));
    v.push(String::from_str("monokai_pro"));
    v.push(String::from_str("moonfly"));
    v.push(String::from_str("neobones_dark"));
    v.push(String::from_str("night_owl"));
    v.push(String::from_str("nightfox"));
    v.push(String::from_str("nordfox"));
    v.push(String::from_str("rose_pine"));
    v.push(String::from_str("terafox"));
    v.push(String::from_str("tokyo_night"));
    v.push(String::from_str("vesper"));
    v.push(String::from_str("vscode_dark_plus"));
    v.push(String::from_str("xcode_dark"));
    proof {
        assert(views_of(v@) =~= dark_names_spec());
    }
    v
}

/// The light name universe, as strings.
#[verifier::rlimit(100)]
pub fn light_names() -> (r: Vec<String>)
    ensures
        views_of(r@) == light_names_spec(),
        r@.len() == 11,
{
    let mut v: Vec<String> = Vec::new();
    v.push(String::from_str("ashes_light"));
    v.push(String::from_str("dayfox"));
    v.push(String::from_str("github_light"));
    v.push(String::from_str("gruvbox_light"));
    v.push(String::from_str("gruvbox_material_hard_light"));
    v.push(String::from_str("gruvbox_material_medium_light"));
    v.push(String::from_str("kimbie_light"));
    v.push(String::from_str("neobones_light"));
    v.push(String::from_str("paper"));
    v.push(String::from_str("rose_pine_dawn"));
    v.push(String::from_str("xcode_light"));
    proof {
        assert(views_of(v@) =~= light_names_spec());
    }
    v
}

/// The name that a free-text query resolves to, and whether it names a
/// light theme. Each universe is scored case-insensitively and its first
/// minimum taken; the dark universe's winner is returned unless the light
/// universe scored strictly lower.
pub fn search(query: &str) -> (r: (String, bool))
    ensures
        ({
            let ql = lower_of(query@);
            let db = best_idx(dark_names_spec(), ql);
            let lb = best_idx(light_names_spec(), ql);
            if scored(dark_names_spec()[db], ql) <= scored(light_names_spec()[lb], ql) {
                r.0@ == dark_names_spec()[db] && r.1 == false
            } else {
                r.0@ == light_names_spec()[lb] && r.1 == true
            }
        }),
{
    let ql = lowercase(query);
    let dark = dark_names();
    let light = light_names();
    let (di, ds) = best_in(&dark, ql.as_str());
    let (li, ls) = best_in(&light, ql.as_str());
    proof {
        assert(views_of(dark@)[di as int] == dark@[di as int]@);
        assert(views_of(light@)[li as int] == light@[li as int]@);
    }
    if ds <= ls {
        (dark[di].clone(), false)
    } else {
        (light[li].clone(), true)
    }
}

/// The catalog entry at `i` of the full name universe, `None` past its
/// end. Selection is separated from the draw, so a caller with its own
/// source of indices gets the exact entry.
pub fn name_at(i: usize) -> (r: Option<String>)
    ensures
        match r {
            Some(s) => i < list_names_spec().len() && s@ == list_names_spec()[i as int],
            None => i >= list_names_spec().len(),
        },
{
    let names = list_names();
    if i < names.len() {
        proof {
            assert(views_of(names@)[i as int] == names@[i as int]@);
        }
        Some(names[i].clone())
    } else {
        None
    }
}

/// The entry at `i` of the dark name universe, `None` past its end.
pub fn dark_name_at(i: usize) -> (r: Option<String>)
    ensures
        match r {
            Some(s) => i < dark_names_spec().len() && s@ == dark_names_spec()[i as int],
            None => i >= dark_names_spec().len(),
        },
{
    let names = dark_names();
    if i < names.len() {
        proof {
            assert(views_of(names@)[i as int] == names@[i as int]@);
        }
        Some(names[i].clone())
    } else {
        None
    }
}

/// The entry at `i` of the light name universe, `None` past its end.
pub fn light_name_at(i: usize) -> (r: Option<String>)
    ensures
        match r {
            Some(s) => i < light_names_spec().len() && s@ == light_names_spec()[i as int],
            None => i >= light_names_spec().len(),
        },
{
    let names = light_names();
    if i < names.len() {
        proof {
            assert(views_of(names@)[i as int] == names@[i as int]@);
        }
        Some(names[i].clone())
    } else {
        None
    }
}

/// A name drawn uniformly from the whole catalog: one random index, fed
/// to the verified selector.
pub fn rand() -> (r: String)
    ensures
        exists|i: int| 0 <= i < list_names_spec().len() && r@ == #[trigger] list_names_spec()[i],
{
    let i = pick_index(56);
    match name_at(i) {
        Some(s) => s,
        None => {
            proof {
                assert(false);
            }
            String::new()
        },
    }
}

/// A name drawn uniformly from the dark themes.
pub fn rand_dark() -> (r: String)
    ensures
        exists|i: int| 0 <= i < dark_names_spec().len() && r@ == #[trigger] dark_names_spec()[i],
{
    let i = pick_index(44);
    match dark_name_at(i) {
        Some(s) => s,
        None => {
            proof {
                assert(false);
            }
            String::new()
        },
    }
}

/// A name drawn uniformly from the light themes.
pub fn rand_light() -> (r: String)
    ensures
        exists|i: int| 0 <= i < light_names_spec().len() && r@ == #[trigger] light_names_spec()[i],
{
    let i = pick_index(11);
    match light_name_at(i) {
        Some(s) => s,
        None => {
            proof {
                assert(false);
            }
            String::new()
        },
    }
}

} // verus!
