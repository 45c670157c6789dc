//! Line matchers: each category of configuration line is recognised by a
//! fixed textual prefix, and yields a stable identity key used by the
//! override store to decide replacement.

use vstd::prelude::*;

verus! {

/// Whitespace characters stripped from the ends of a line before the prefix
/// comparison (lines may be indented in hand-edited files).
pub open spec fn is_space_char(c: char) -> bool {
    c == ' ' || c == '\t' || c == '\r' || c == '\n'
}

/// The line with its leading whitespace removed.
pub open spec fn trim_start_spec(s: Seq<char>) -> Seq<char>
    decreases s.len(),
{
    if s.len() > 0 && is_space_char(s[0]) {
        trim_start_spec(s.drop_first())
    } else {
        s
    }
}

/// The line with its trailing whitespace removed.
pub open spec fn trim_end_spec(s: Seq<char>) -> Seq<char>
    decreases s.len(),
{
    if s.len() > 0 && is_space_char(s.last()) {
        trim_end_spec(s.drop_last())
    } else {
        s
    }
}

/// The line with whitespace removed from both ends.
pub open spec fn trim_spec(s: Seq<char>) -> Seq<char> {
    trim_end_spec(trim_start_spec(s))
}

/// Returns the trimmed slice of `s`, equal to `trim_spec(s@)`.
pub fn trim_str(s: &str) -> (r: &str)
    ensures
        r@ == trim_spec(s@),
{
    let len = s.unicode_len();
    let mut start: usize = 0;
    proof {
        assert(s@.skip(0) =~= s@);
    }
    while start < len && is_space(s.get_char(start))
        invariant
            len == s@.len(),
            start <= len,
            trim_start_spec(s@) == trim_start_spec(s@.skip(start as int)),
            forall|j: int| 0 <= j < start ==> is_space_char(s@[j]),
        decreases len - start,
    {
        proof {
            assert(s@.skip(start as int).drop_first() =~= s@.skip(start + 1));
        }
        start = start + 1;
    }
    proof {
        assert(trim_start_spec(s@.skip(start as int)) == s@.skip(start as int));
    }
    let mut end: usize = len;
    proof {
        assert(s@.skip(start as int).take(len - start as int) =~= s@.skip(start as int));
    }
    while end > start && is_space(s.get_char(end - 1))
        invariant
            len == s@.len(),
            start <= end <= len,
            trim_start_spec(s@) == s@.skip(start as int),
            trim_spec(s@) == trim_end_spec(s@.skip(start as int).take(end - start as int)),
        decreases end,
    {
        proof {
            let t = s@.skip(start as int).take(end - start as int);
            assert(t.last() == s@[end - 1]);
            assert(t.drop_last() =~= s@.skip(start as int).take(end - 1 - start as int));
        }
        end = end - 1;
    }
    proof {
        let t = s@.skip(start as int).take(end - start as int);
        if t.len() > 0 {
            assert(t.last() == s@[end - 1]);
        }
        assert(trim_end_spec(t) == t);
    }
    let r = s.substring_char(start, end);
    proof {
        assert(r@ =~= s@.skip(start as int).take(end - start as int));
    }
    r
}

/// Exec test for [`is_space_char`].
pub fn is_space(c: char) -> (r: bool)
    ensures
        r == is_space_char(c),
{
    c == ' ' || c == '\t' || c == '\r' || c == '\n'
}

/// `p` is a prefix of `s`.
pub open spec fn has_prefix(s: Seq<char>, p: Seq<char>) -> bool {
    p.len() <= s.len() && s.take(p.len() as int) == p
}

/// Exec prefix test, equal to [`has_prefix`] on the views.
pub fn starts_with_str(s: &str, p: &str) -> (r: bool)
    ensures
        r == has_prefix(s@, p@),
{
    let slen = s.unicode_len();
    let plen = p.unicode_len();
    if plen > slen {
        proof {
            assert(!has_prefix(s@, p@));
        }
        return false;
    }
    let mut i: usize = 0;
    while i < plen
        invariant
            slen == s@.len(),
            plen == p@.len(),
            plen <= slen,
            i <= plen,
            forall|j: int| 0 <= j < i ==> s@[j] == p@[j],
        decreases plen - i,
    {
        if s.get_char(i) != p.get_char(i) {
            proof {
                assert(s@.take(p@.len() as int)[i as int] != p@[i as int]);
            }
            return false;
        }
        i = i + 1;
    }
    proof {
        assert(s@.take(p@.len() as int) =~= p@);
    }
    true
}

/// Index of the first occurrence of `c` in `s`, if any.
pub open spec fn find_char_spec(s: Seq<char>, c: char) -> Option<int>
    decreases s.len(),
{
    if s.len() == 0 {
        None
    } else if s[0] == c {
        Some(0)
    } else {
        match find_char_spec(s.drop_first(), c) {
            Some(i) => Some(i + 1),
            None => None,
        }
    }
}

/// What [`find_char_spec`] returns: the least index holding `c`, or nothing.
pub proof fn lemma_find_char_spec(s: Seq<char>, c: char)
    ensures
        match find_char_spec(s, c) {
            Some(i) => 0 <= i < s.len() && s[i] == c && forall|j: int| 0 <= j < i ==> s[j] != c,
            None => forall|j: int| 0 <= j < s.len() ==> s[j] != c,
        },
    decreases s.len(),
{
    if s.len() > 0 && s[0] != c {
        lemma_find_char_spec(s.drop_first(), c);
        match find_char_spec(s.drop_first(), c) {
            Some(i) => {
                assert(forall|j: int| 1 <= j < i + 1 ==> s[j] == s.drop_first()[j - 1]);
            },
            None => {
                assert(forall|j: int| 1 <= j < s.len() ==> s[j] == s.drop_first()[j - 1]);
            },
        }
    }
}

/// Exec search for the first occurrence of `c` in `s`, at or after `from`.
pub fn find_char_from(s: &str, from: usize, c: char) -> (r: Option<usize>)
    requires
        from <= s@.len(),
    ensures
        match r {
            Some(i) => from <= i < s@.len() && s@[i as int] == c && forall|j: int|
                from <= j < i ==> s@[j] != c,
            None => forall|j: int| from <= j < s@.len() ==> s@[j] != c,
        },
{
    let len = s.unicode_len();
    let mut i: usize = from;
    while i < len
        invariant
            len == s@.len(),
            from <= i <= len,
            forall|j: int| from <= j < i ==> s@[j] != c,
        decreases len - i,
    {
        if s.get_char(i) == c {
            return Some(i);
        }
        i = i + 1;
    }
    None
}

/// The closed set of recognised configuration-line categories, in the fixed
/// priority order in which a line is matched: the first category whose
/// prefix (and, for display-mode lines, comma) matches claims the line, and
/// no later category is consulted.
#[derive(Debug, Clone, Copy, PartialEq, Eq, Structural)]
pub enum LineCategory {
    /// `monitor=<name>,...`: keyed by the display name before the comma.
    DisplayMode,
    /// `input:kb_layout=...`: a single global setting with a fixed key.
    KeyboardLayout,
    /// `input:sensitivity=...`: a single global setting with a fixed key.
    PointerSensitivity,
    /// `input:force_no_accel=...`: a single global setting with a fixed key.
    PointerNoAccel,
}

/// The fixed prefix that identifies each category.
pub open spec fn spec_prefix_of(cat: LineCategory) -> Seq<char> {
    match cat {
        LineCategory::DisplayMode => "monitor="@,
        LineCategory::KeyboardLayout => "input:kb_layout="@,
        LineCategory::PointerSensitivity => "input:sensitivity="@,
        LineCategory::PointerNoAccel => "input:force_no_accel="@,
    }
}

/// The identity key a category extracts from a line, after trimming.
///
/// A display-mode line is keyed by the display name between the prefix and
/// the next comma; one lacking a comma yields no key and is treated as an
/// opaque line. The other categories are single global settings keyed by a
/// fixed sentinel.
pub open spec fn spec_extract_key(cat: LineCategory, line: Seq<char>) -> Option<Seq<char>> {
    let t = trim_spec(line);
    if !has_prefix(t, spec_prefix_of(cat)) {
        None
    } else {
        match cat {
            LineCategory::DisplayMode => {
                let rest = t.skip(spec_prefix_of(cat).len() as int);
                match find_char_spec(rest, ',') {
                    Some(i) => Some(rest.take(i)),
                    None => None,
                }
            },
            LineCategory::KeyboardLayout => Some("kb_layout"@),
            LineCategory::PointerSensitivity => Some("sensitivity"@),
            LineCategory::PointerNoAccel => Some("force_no_accel"@),
        }
    }
}

/// All current categories replace an existing line with the same key; the
/// model supports categories whose duplicates are intentionally appended.
pub open spec fn spec_should_replace(cat: LineCategory) -> bool {
    true
}

/// A matcher for one category of configuration line.
pub trait SettingLine: Sized {
    /// The prefix that identifies this matcher's lines.
    spec fn spec_prefix(&self) -> Seq<char>;

    /// The key this matcher extracts from a line, if the line is its kind.
    spec fn spec_key(&self, line: Seq<char>) -> Option<Seq<char>>;

    /// Whether a new line replaces an existing line with the same key.
    spec fn spec_replace(&self) -> bool;

    /// The prefix that identifies this type of setting line.
    fn prefix(&self) -> (r: &str)
        ensures
            r@ == self.spec_prefix(),
    ;

    /// Extract the identity key from a setting line, or nothing if the line
    /// does not match this setting type.
    fn extract_key(&self, line: &str) -> (r: Option<String>)
        ensures
            match r {
                Some(k) => self.spec_key(line@) == Some(k@),
                None => self.spec_key(line@) is None,
            },
    ;

    /// Whether this line should replace an existing line with the same key.
    fn should_replace(&self) -> (r: bool)
        ensures
            r == self.spec_replace(),
    ;
}

impl SettingLine for LineCategory {
    open spec fn spec_prefix(&self) -> Seq<char> {
        spec_prefix_of(*self)
    }

    open spec fn spec_key(&self, line: Seq<char>) -> Option<Seq<char>> {
        spec_extract_key(*self, line)
    }

    open spec fn spec_replace(&self) -> bool {
        spec_should_replace(*self)
    }

    fn prefix(&self) -> (r: &str) {
        match self {
            LineCategory::DisplayMode => "monitor=",
            LineCategory::KeyboardLayout => "input:kb_layout=",
            LineCategory::PointerSensitivity => "input:sensitivity=",
            LineCategory::PointerNoAccel => "input:force_no_accel=",
        }
    }

    fn extract_key(&self, line: &str) -> (r: Option<String>) {
        let t = trim_str(line);
        let pre = self.prefix();
        if !starts_with_str(t, pre) {
            return None;
        }
        match self {
            LineCategory::DisplayMode => {
                let plen = pre.unicode_len();
                match find_char_from(t, plen, ',') {
                    Some(i) => {
                        let k = t.substring_char(plen, i);
                        proof {
                            lemma_find_char_spec_from(t@, plen as int, ',', Some(i as int));
                            assert(t@.skip(plen as int).take(i - plen) =~= t@.subrange(
                                plen as int,
                                i as int,
                            ));
                        }
                        Some(k.to_owned())
                    },
                    None => {
                        proof {
                            lemma_find_char_spec_from(t@, plen as int, ',', None);
                        }
                        None
                    },
                }
            },
            LineCategory::KeyboardLayout => Some("kb_layout".to_owned()),
            LineCategory::PointerSensitivity => Some("sensitivity".to_owned()),
            LineCategory::PointerNoAccel => Some("force_no_accel".to_owned()),
        }
    }

    fn should_replace(&self) -> (r: bool) {
        true
    }
}

/// Registry of all known setting line categories, in matching priority
/// order.
pub fn get_setting_handlers() -> (r: Vec<LineCategory>)
    ensures
        r@ =~= seq![
            LineCategory::DisplayMode,
            LineCategory::KeyboardLayout,
            LineCategory::PointerSensitivity,
            LineCategory::PointerNoAccel,
        ],
{
    let mut v: Vec<LineCategory> = Vec::new();
    v.push(LineCategory::DisplayMode);
    v.push(LineCategory::KeyboardLayout);
    v.push(LineCategory::PointerSensitivity);
    v.push(LineCategory::PointerNoAccel);
    v
}

/// The first category, in priority order, that extracts a key from `line`.
pub open spec fn spec_match_category(line: Seq<char>) -> Option<LineCategory> {
    if spec_extract_key(LineCategory::DisplayMode, line) is Some {
        Some(LineCategory::DisplayMode)
    } else if spec_extract_key(LineCategory::KeyboardLayout, line) is Some {
        Some(LineCategory::KeyboardLayout)
    } else if spec_extract_key(LineCategory::PointerSensitivity, line) is Some {
        Some(LineCategory::PointerSensitivity)
    } else if spec_extract_key(LineCategory::PointerNoAccel, line) is Some {
        Some(LineCategory::PointerNoAccel)
    } else {
        None
    }
}

/// Runs the matchers in priority order and stops at the first match.
pub fn match_category(line: &str) -> (r: Option<LineCategory>)
    ensures
        r == spec_match_category(line@),
{
    let handlers = get_setting_handlers();
    let mut idx: usize = 0;
    while idx < handlers.len()
        invariant
            handlers@ =~= seq![
                LineCategory::DisplayMode,
                LineCategory::KeyboardLayout,
                LineCategory::PointerSensitivity,
                LineCategory::PointerNoAccel,
            ],
            idx <= handlers@.len(),
            forall|j: int| 0 <= j < idx ==> spec_extract_key(handlers@[j], line@) is None,
        decreases handlers@.len() - idx,
    {
        let cat = handlers[idx];
        if cat.extract_key(line).is_some() {
            return Some(cat);
        }
        idx = idx + 1;
    }
    None
}

/// Relates [`find_char_spec`] on a suffix to the quantifier form that
/// [`find_char_from`] establishes.
pub proof fn lemma_find_char_spec_from(s: Seq<char>, from: int, c: char, r: Option<int>)
    requires
        0 <= from <= s.len(),
        match r {
            Some(i) => from <= i < s.len() && s[i] == c && forall|j: int| from <= j < i ==> s[j] != c,
            None => forall|j: int| from <= j < s.len() ==> s[j] != c,
        },
    ensures
        find_char_spec(s.skip(from), c) == match r {
            Some(i) => Some(i - from),
            None => None::<int>,
        },
{
    lemma_find_char_spec(s.skip(from), c);
    match find_char_spec(s.skip(from), c) {
        Some(k) => {
            assert(s.skip(from)[k] == s[k + from]);
            match r {
                Some(i) => {
                    if i - from < k {
                        assert(s.skip(from)[i - from] == s[i]);
                    }
                    if i - from > k {
                        assert(s[k + from] != c);
                    }
                },
                None => {
                    assert(s[k + from] != c);
                },
            }
        },
        None => {
            match r {
                Some(i) => {
                    assert(s.skip(from)[i - from] == s[i]);
                },
                None => {},
            }
        },
    }
}

} // verus!
