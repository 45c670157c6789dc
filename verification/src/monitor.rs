//! Real display geometry: identity, position, resolution and the supported
//! mode list, together with the pure list computations the mode pickers
//! need. Refresh rates are held in millihertz so that the model stays on
//! plain integers.

use vstd::prelude::*;

use crate::numfmt::spec_parse_i32;
use crate::numfmt::parse_i32;
use crate::setting::find_char_spec;
use crate::setting::find_char_from;
use crate::setting::lemma_find_char_spec_from;

verus! {

/// One supported (resolution, refresh rate) pair of a display.
pub struct MonitorMode {
    /// Resolution as the host reports it, e.g. `2560x1440`.
    pub resolution: String,
    /// Refresh rate in millihertz.
    pub refresh_mhz: u32,
}

/// Real-world attributes of one display, read-only input to the layout
/// model. The primary display sits at position `(0, 0)`.
pub struct MonitorInfo {
    pub name: String,
    pub id: i64,
    /// Position in compositor coordinate space; may be negative.
    pub position: (i32, i32),
    pub current_resolution: String,
    /// Current refresh rate in millihertz.
    pub current_refresh_mhz: u32,
    pub available_modes: Vec<MonitorMode>,
}

/// The parse of `spec_parse_i32`, or a fallback.
pub open spec fn spec_parse_or(s: Seq<char>, fallback: int) -> int {
    match spec_parse_i32(s) {
        Some(v) => v,
        None => fallback,
    }
}

/// Width and height read from a `<width>x<height>` string, split at the
/// first `x`; either side that fails to parse falls back to 1920 resp.
/// 1080, as does a string with no `x` at all.
pub open spec fn spec_parse_resolution(s: Seq<char>) -> (int, int) {
    match find_char_spec(s, 'x') {
        Some(i) => (
            spec_parse_or(s.take(i), 1920),
            spec_parse_or(s.skip(i + 1), 1080),
        ),
        None => (1920, 1080),
    }
}

/// Reads the width and height out of a resolution string.
pub fn parse_resolution(resolution: &str) -> (r: (i32, i32))
    ensures
        (r.0 as int, r.1 as int) == spec_parse_resolution(resolution@),
{
    let len = resolution.unicode_len();
    match find_char_from(resolution, 0, 'x') {
        Some(i) => {
            proof {
                lemma_find_char_spec_from(resolution@, 0, 'x', Some(i as int));
                assert(resolution@.skip(0) =~= resolution@);
            }
            let w_str = resolution.substring_char(0, i);
            let h_str = resolution.substring_char(i + 1, len);
            proof {
                assert(w_str@ =~= resolution@.take(i as int));
                assert(h_str@ =~= resolution@.skip(i + 1));
            }
            let w = match parse_i32(w_str) {
                Some(v) => v,
                None => 1920,
            };
            let h = match parse_i32(h_str) {
                Some(v) => v,
                None => 1080,
            };
            (w, h)
        },
        None => {
            proof {
                lemma_find_char_spec_from(resolution@, 0, 'x', None);
                assert(resolution@.skip(0) =~= resolution@);
            }
            (1920, 1080)
        },
    }
}

/// Strict lexicographic order on character sequences by code point, the
/// order in which resolution strings are listed.
pub open spec fn lex_lt(a: Seq<char>, b: Seq<char>) -> bool
    decreases a.len(),
{
    if b.len() == 0 {
        false
    } else if a.len() == 0 {
        true
    } else if a[0] != b[0] {
        (a[0] as int) < (b[0] as int)
    } else {
        lex_lt(a.drop_first(), b.drop_first())
    }
}

/// Of two distinct sequences, exactly one precedes the other.
pub proof fn lemma_lex_trichotomy(a: Seq<char>, b: Seq<char>)
    ensures
        lex_lt(a, b) || lex_lt(b, a) || a =~= b,
        !(lex_lt(a, b) && lex_lt(b, a)),
        !(lex_lt(a, b) && a =~= b),
    decreases a.len(),
{
    if a.len() > 0 && b.len() > 0 && a[0] == b[0] {
        lemma_lex_trichotomy(a.drop_first(), b.drop_first());
        assert(forall|i: int|
            1 <= i < a.len() ==> a[i] == #[trigger] a.drop_first()[i - 1]);
        assert(forall|i: int|
            1 <= i < b.len() ==> b[i] == #[trigger] b.drop_first()[i - 1]);
        if a.drop_first() =~= b.drop_first() {
            assert forall|i: int| 0 <= i < a.len() implies a[i] == b[i] by {
                if i > 0 {
                    assert(a.drop_first()[i - 1] == b.drop_first()[i - 1]);
                }
            }
            assert(a =~= b);
        }
        if a =~= b {
            assert(a.drop_first() =~= b.drop_first());
        }
    }
}

/// The order is transitive.
pub proof fn lemma_lex_transitive(a: Seq<char>, b: Seq<char>, c: Seq<char>)
    requires
        lex_lt(a, b),
        lex_lt(b, c),
    ensures
        lex_lt(a, c),
    decreases a.len(),
{
    if a.len() > 0 && b.len() > 0 && c.len() > 0 {
        if a[0] == b[0] && b[0] == c[0] {
            lemma_lex_transitive(a.drop_first(), b.drop_first(), c.drop_first());
        }
    }
}

/// Compares two strings in code-point order.
pub fn str_lt(a: &str, b: &str) -> (r: bool)
    ensures
        r == lex_lt(a@, b@),
{
    let alen = a.unicode_len();
    let blen = b.unicode_len();
    let mut i: usize = 0;
    proof {
        assert(a@.skip(0) =~= a@);
        assert(b@.skip(0) =~= b@);
    }
    loop
        invariant
            alen == a@.len(),
            blen == b@.len(),
            i <= alen,
            i <= blen,
            lex_lt(a@, b@) == lex_lt(a@.skip(i as int), b@.skip(i as int)),
        decreases alen - i,
    {
        if i >= blen {
            proof {
                assert(b@.skip(i as int).len() == 0);
            }
            return false;
        }
        if i >= alen {
            proof {
                assert(a@.skip(i as int).len() == 0);
                assert(b@.skip(i as int).len() > 0);
            }
            return true;
        }
        let ca = a.get_char(i);
        let cb = b.get_char(i);
        if ca != cb {
            proof {
                assert(a@.skip(i as int)[0] == ca);
                assert(b@.skip(i as int)[0] == cb);
            }
            return (ca as u32) < (cb as u32);
        }
        proof {
            assert(a@.skip(i as int)[0] == ca);
            assert(b@.skip(i as int)[0] == cb);
            assert(a@.skip(i as int).drop_first() =~= a@.skip(i + 1));
            assert(b@.skip(i as int).drop_first() =~= b@.skip(i + 1));
        }
        i = i + 1;
    }
}

/// Tests two strings for equal contents.
pub fn str_eq(a: &str, b: &str) -> (r: bool)
    ensures
        r == (a@ == b@),
{
    let alen = a.unicode_len();
    let blen = b.unicode_len();
    if alen != blen {
        return false;
    }
    let mut i: usize = 0;
    while i < alen
        invariant
            alen == a@.len(),
            blen == b@.len(),
            alen == blen,
            i <= alen,
            forall|j: int| 0 <= j < i ==> a@[j] == b@[j],
        decreases alen - i,
    {
        if a.get_char(i) != b.get_char(i) {
            return false;
        }
        i = i + 1;
    }
    proof {
        assert(a@ =~= b@);
    }
    true
}

/// Every listed entry is the resolution of some mode, and the resolution of
/// every mode before `upto` is listed.
pub open spec fn resolutions_cover(r: Seq<String>, modes: Seq<MonitorMode>, upto: int) -> bool {
    &&& forall|k: int| #![trigger r[k]]
        0 <= k < r.len() ==> exists|m: int|
            0 <= m < modes.len() && #[trigger] modes[m].resolution@ == r[k]@
    &&& forall|m: int| #![trigger modes[m]]
        0 <= m < upto ==> exists|k: int| 0 <= k < r.len() && #[trigger] r[k]@ == modes[m].resolution@
}

/// The distinct resolutions named by the modes, listed in code-point order:
/// strictly sorted, nothing invented, nothing forgotten.
pub fn unique_resolutions(modes: &Vec<MonitorMode>) -> (r: Vec<String>)
    ensures
        forall|k: int, l: int| 0 <= k < l < r@.len() ==> lex_lt(r@[k]@, r@[l]@),
        resolutions_cover(r@, modes@, modes@.len() as int),
{
    let mut r: Vec<String> = Vec::new();
    let mut i: usize = 0;
    while i < modes.len()
        invariant
            i <= modes@.len(),
            forall|k: int, l: int| 0 <= k < l < r@.len() ==> lex_lt(r@[k]@, r@[l]@),
            resolutions_cover(r@, modes@, i as int),
        decreases modes@.len() - i,
    {
        let res = &modes[i].resolution;
        let mut j: usize = 0;
        while j < r.len() && str_lt(r[j].as_str(), res.as_str())
            invariant
                i < modes@.len(),
                res == modes@[i as int].resolution,
                j <= r@.len(),
                forall|k: int| 0 <= k < j ==> lex_lt(r@[k]@, res@),
            decreases r@.len() - j,
        {
            j = j + 1;
        }
        let duplicate = if j < r.len() {
            str_eq(r[j].as_str(), res.as_str())
        } else {
            false
        };
        if !duplicate {
            let ghost old_r = r@;
            r.insert(j, res.clone());
            proof {
                assert(forall|k: int| 0 <= k < j ==> r@[k] == old_r[k]);
                assert(r@[j as int]@ == res@);
                assert(forall|l: int| j < l < r@.len() ==> r@[l] == old_r[l - 1]);
                if j < old_r.len() {
                    lemma_lex_trichotomy(old_r[j as int]@, res@);
                    assert(lex_lt(res@, old_r[j as int]@));
                }
                assert forall|k: int, l: int| 0 <= k < l < r@.len() implies lex_lt(
                    r@[k]@,
                    r@[l]@,
                ) by {
                    if k < j && l > j {
                        assert(r@[k]@ == old_r[k]@);
                        assert(r@[l]@ == old_r[l - 1]@);
                        assert(lex_lt(old_r[k]@, old_r[l - 1]@));
                    } else if k == j && l > j {
                        assert(r@[l]@ == old_r[l - 1]@);
                        if l - 1 > j {
                            lemma_lex_transitive(res@, old_r[j as int]@, old_r[l - 1]@);
                        }
                    }
                }
                assert forall|m: int| #![trigger modes@[m]] 0 <= m < i + 1 implies exists|k: int|
                    0 <= k < r@.len() && #[trigger] r@[k]@ == modes@[m].resolution@ by {
                    assert(resolutions_cover(old_r, modes@, i as int));
                    if m < i {
                        let k0 = choose|k0: int|
                            0 <= k0 < old_r.len() && old_r[k0]@ == modes@[m].resolution@;
                        if k0 < j {
                            assert(r@[k0]@ == modes@[m].resolution@);
                        } else {
                            assert(r@[k0 + 1]@ == modes@[m].resolution@);
                        }
                    } else {
                        assert(r@[j as int]@ == modes@[m].resolution@);
                    }
                }
                assert forall|k: int| #![trigger r@[k]] 0 <= k < r@.len() implies exists|m: int|
                    0 <= m < modes@.len() && #[trigger] modes@[m].resolution@ == r@[k]@ by {
                    assert(resolutions_cover(old_r, modes@, i as int));
                    if k < j {
                        let m0 = choose|m0: int|
                            0 <= m0 < modes@.len() && modes@[m0].resolution@ == old_r[k]@;
                        assert(modes@[m0].resolution@ == r@[k]@);
                    } else if k == j {
                        assert(modes@[i as int].resolution@ == r@[k]@);
                    } else {
                        let m0 = choose|m0: int|
                            0 <= m0 < modes@.len() && modes@[m0].resolution@ == old_r[k - 1]@;
                        assert(modes@[m0].resolution@ == r@[k]@);
                    }
                }
            }
        } else {
            proof {
                assert(r@[j as int]@ == modes@[i as int].resolution@);
            }
        }
        i = i + 1;
    }
    r
}

/// The refresh rates of the modes that carry resolution `res`, in mode-list
/// order.
pub open spec fn spec_refresh_list(modes: Seq<MonitorMode>, res: Seq<char>) -> Seq<u32>
    decreases modes.len(),
{
    if modes.len() == 0 {
        Seq::empty()
    } else {
        let front = spec_refresh_list(modes.drop_last(), res);
        if modes.last().resolution@ == res {
            front.push(modes.last().refresh_mhz)
        } else {
            front
        }
    }
}

/// Lists the refresh rates offered at resolution `res`.
pub fn refresh_rates_for(modes: &Vec<MonitorMode>, res: &str) -> (r: Vec<u32>)
    ensures
        r@ == spec_refresh_list(modes@, res@),
{
    let mut r: Vec<u32> = Vec::new();
    let mut i: usize = 0;
    proof {
        assert(modes@.take(0) =~= Seq::<MonitorMode>::empty());
    }
    while i < modes.len()
        invariant
            i <= modes@.len(),
            r@ == spec_refresh_list(modes@.take(i as int), res@),
        decreases modes@.len() - i,
    {
        proof {
            assert(modes@.take(i + 1).drop_last() =~= modes@.take(i as int));
            assert(modes@.take(i + 1).last() == modes@[i as int]);
        }
        if str_eq(modes[i].resolution.as_str(), res) {
            r.push(modes[i].refresh_mhz);
        }
        i = i + 1;
    }
    proof {
        assert(modes@.take(modes@.len() as int) =~= modes@);
    }
    r
}

/// First position in `list` whose contents equal `target`, if any.
pub fn position_of_str(list: &Vec<String>, target: &str) -> (r: Option<usize>)
    ensures
        match r {
            Some(i) => i < list@.len() && list@[i as int]@ == target@ && forall|j: int|
                0 <= j < i ==> list@[j]@ != target@,
            None => forall|j: int| 0 <= j < list@.len() ==> list@[j]@ != target@,
        },
{
    let mut i: usize = 0;
    while i < list.len()
        invariant
            i <= list@.len(),
            forall|j: int| 0 <= j < i ==> list@[j]@ != target@,
        decreases list@.len() - i,
    {
        if str_eq(list[i].as_str(), target) {
            return Some(i);
        }
        i = i + 1;
    }
    None
}

/// First position in `list` equal to `target`, if any.
pub fn position_of_u32(list: &Vec<u32>, target: u32) -> (r: Option<usize>)
    ensures
        match r {
            Some(i) => i < list@.len() && list@[i as int] == target && forall|j: int|
                0 <= j < i ==> list@[j] != target,
            None => forall|j: int| 0 <= j < list@.len() ==> list@[j] != target,
        },
{
    let mut i: usize = 0;
    while i < list.len()
        invariant
            i <= list@.len(),
            forall|j: int| 0 <= j < i ==> list@[j] != target,
        decreases list@.len() - i,
    {
        if list[i] == target {
            return Some(i);
        }
        i = i + 1;
    }
    None
}

} // verus!
