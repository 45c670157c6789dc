//! Keyboard locale bookkeeping: the label shown for a locale and the code
//! read back out of a selected label.

use vstd::prelude::*;

use crate::setting::trim_spec;
use crate::setting::trim_str;
use vstd::string::StringExecFns;

verus! {

/// One selectable keyboard locale.
pub struct LocaleInfo {
    /// The layout code, e.g. `us`.
    pub code: String,
    /// The human-readable name, e.g. `English (US)`.
    pub label: String,
}

/// Index of the last occurrence of `c` in `s`, if any.
pub open spec fn rfind_char_spec(s: Seq<char>, c: char) -> Option<int>
    decreases s.len(),
{
    if s.len() == 0 {
        None
    } else if s.last() == c {
        Some(s.len() - 1)
    } else {
        rfind_char_spec(s.drop_last(), c)
    }
}

/// Exec search for the last occurrence of `c` in `s`.
pub fn rfind_char(s: &str, c: char) -> (r: Option<usize>)
    ensures
        rfind_char_spec(s@, c) == match r {
            Some(i) => Some(i as int),
            None => None::<int>,
        },
{
    let len = s.unicode_len();
    let mut i: usize = len;
    proof {
        assert(s@.take(len as int) =~= s@);
    }
    while i > 0
        invariant
            len == s@.len(),
            i <= len,
            rfind_char_spec(s@, c) == rfind_char_spec(s@.take(i as int), c),
        decreases i,
    {
        if s.get_char(i - 1) == c {
            proof {
                assert(s@.take(i as int).last() == s@[i - 1]);
            }
            return Some(i - 1);
        }
        proof {
            assert(s@.take(i as int).last() == s@[i - 1]);
            assert(s@.take(i as int).drop_last() =~= s@.take(i - 1));
        }
        i = i - 1;
    }
    None
}

/// The code inside the last parenthesised group of a dropdown label in
/// `Label (code)` form, trimmed; nothing when the parentheses are missing
/// or inverted.
pub open spec fn spec_code_of_label(label: Seq<char>) -> Option<Seq<char>> {
    match (rfind_char_spec(label, '('), rfind_char_spec(label, ')')) {
        (Some(s), Some(e)) => if s + 1 <= e {
            Some(trim_spec(label.subrange(s + 1, e)))
        } else {
            None
        },
        _ => None,
    }
}

/// Extracts the locale code from a `Label (code)` dropdown label.
pub fn extract_code_from_label(label: &str) -> (r: Option<String>)
    ensures
        match r {
            Some(code) => spec_code_of_label(label@) == Some(code@),
            None => spec_code_of_label(label@) is None,
        },
{
    let open = rfind_char(label, '(');
    let close = rfind_char(label, ')');
    match (open, close) {
        (Some(s), Some(e)) => {
            proof {
                lemma_rfind_in_range(label@, '(', s as int);
                lemma_rfind_in_range(label@, ')', e as int);
            }
            if s < e {
                let inner = label.substring_char(s + 1, e);
                let trimmed = trim_str(inner);
                Some(trimmed.to_owned())
            } else {
                None
            }
        },
        _ => None,
    }
}

/// A found index lies within the sequence.
proof fn lemma_rfind_in_range(s: Seq<char>, c: char, i: int)
    requires
        rfind_char_spec(s, c) == Some(i),
    ensures
        0 <= i < s.len(),
    decreases s.len(),
{
    if s.len() > 0 && s.last() != c {
        lemma_rfind_in_range(s.drop_last(), c, i);
    }
}

/// The dropdown label for a locale: `Label (code)`.
pub fn locale_label(l: &LocaleInfo) -> (r: String)
    ensures
        r@ == l.label@ + " ("@ + l.code@ + ")"@,
{
    let mut s = String::new();
    s.append(l.label.as_str());
    s.append(" (");
    s.append(l.code.as_str());
    s.append(")");
    proof {
        assert(s@ =~= l.label@ + " ("@ + l.code@ + ")"@);
    }
    s
}

/// The label of the first locale carrying `code`, or the code itself when
/// none is known.
pub open spec fn spec_label_for(locales: Seq<LocaleInfo>, code: Seq<char>) -> Seq<char>
    decreases locales.len(),
{
    if locales.len() == 0 {
        code
    } else if locales[0].code@ == code {
        locales[0].label@
    } else {
        spec_label_for(locales.drop_first(), code)
    }
}

/// Looks up the label shown for a locale code.
pub fn get_label_for_code(locales: &Vec<LocaleInfo>, code: &str) -> (r: String)
    ensures
        r@ == spec_label_for(locales@, code@),
{
    let mut i: usize = 0;
    proof {
        assert(locales@.skip(0) =~= locales@);
    }
    while i < locales.len()
        invariant
            i <= locales@.len(),
            spec_label_for(locales@, code@) == spec_label_for(locales@.skip(i as int), code@),
        decreases locales@.len() - i,
    {
        proof {
            assert(locales@.skip(i as int)[0] == locales@[i as int]);
            assert(locales@.skip(i as int).drop_first() =~= locales@.skip(i + 1));
        }
        if crate::monitor::str_eq(locales[i].code.as_str(), code) {
            return locales[i].label.clone();
        }
        i = i + 1;
    }
    code.to_owned()
}

} // verus!
