//! The override store: builds single-setting lines and merges them into the
//! overlay document's ordered line sequence.
//!
//! The overlay document is the full ordered sequence of lines of the overlay
//! file. An upsert replaces the first existing line that carries the same
//! category and key (preserving its position), and otherwise appends the new
//! line at the end; lines that match nothing are never altered or reordered.
//! Reading the file into lines and writing them back is the caller's part.

use vstd::prelude::*;

use crate::SettingError;
use crate::setting::LineCategory;
use crate::setting::SettingLine;
use crate::setting::match_category;
use crate::setting::spec_extract_key;
use crate::setting::spec_match_category;
use crate::setting::spec_should_replace;
use vstd::string::StringExecFns;

verus! {

/// Home-relative path of the base configuration file.
pub const HYPR_SETTING_PATH: &'static str = ".config/hypr/hyprland.conf";

/// Home-relative path of the overlay file.
pub const HYPR_OVERRIDES_PATH: &'static str = ".config/hypr/conf-overrides.conf";

/// Setting objects for specific things like devices.
#[derive(Debug, Clone, Copy, PartialEq, Eq, Structural)]
pub enum SettingObjectKey {
    /// A per-device block of settings.
    Device,
    /// A one-line setting.
    SingleLine,
}

/// A device setting, specifically for keyboards.
pub struct DeviceSetting {
    pub key: SettingObjectKey,
    pub device_name: String,
    pub kb_layout: String,
}

/// A built setting line, ready to be merged into the overlay document.
pub struct SettingWriter {
    setting_line: (SettingObjectKey, String),
}

/// `line` carries `key` under `cat`.
pub open spec fn line_has_key(cat: LineCategory, key: Seq<char>, line: Seq<char>) -> bool {
    spec_extract_key(cat, line) == Some(key)
}

/// Index of the first line carrying `key` under `cat`, if any.
pub open spec fn find_match_spec(lines: Seq<Seq<char>>, cat: LineCategory, key: Seq<char>) -> Option<
    int,
>
    decreases lines.len(),
{
    if lines.len() == 0 {
        None
    } else if line_has_key(cat, key, lines[0]) {
        Some(0)
    } else {
        match find_match_spec(lines.drop_first(), cat, key) {
            Some(i) => Some(i + 1),
            None => None,
        }
    }
}

/// What [`find_match_spec`] returns: the least matching index, or nothing.
pub proof fn lemma_find_match_spec(lines: Seq<Seq<char>>, cat: LineCategory, key: Seq<char>)
    ensures
        match find_match_spec(lines, cat, key) {
            Some(i) => 0 <= i < lines.len() && line_has_key(cat, key, lines[i]) && forall|j: int|
                0 <= j < i ==> !line_has_key(cat, key, lines[j]),
            None => forall|j: int| 0 <= j < lines.len() ==> !line_has_key(cat, key, lines[j]),
        },
    decreases lines.len(),
{
    if lines.len() > 0 && !line_has_key(cat, key, lines[0]) {
        lemma_find_match_spec(lines.drop_first(), cat, key);
        assert(forall|j: int| 1 <= j < lines.len() ==> lines[j] == lines.drop_first()[j - 1]);
    }
}

/// The overlay document after merging `new_line`: if the line's category is
/// replaceable and some line already carries the same key, the first such
/// line is replaced in place; otherwise the new line is appended at the end.
pub open spec fn spec_upsert(lines: Seq<Seq<char>>, new_line: Seq<char>) -> Seq<Seq<char>> {
    match spec_match_category(new_line) {
        Some(cat) => if spec_should_replace(cat) {
            let key = spec_extract_key(cat, new_line)->Some_0;
            match find_match_spec(lines, cat, key) {
                Some(i) => lines.update(i, new_line),
                None => lines.push(new_line),
            }
        } else {
            lines.push(new_line)
        },
        None => lines.push(new_line),
    }
}

/// Merges `new_line` into the ordered line sequence of the overlay document.
pub fn upsert_line(lines: &mut Vec<String>, new_line: String)
    ensures
        final(lines)@.map_values(|l: String| l@) == spec_upsert(
            old(lines)@.map_values(|l: String| l@),
            new_line@,
        ),
{
    let ghost old_views = lines@.map_values(|l: String| l@);
    match match_category(new_line.as_str()) {
        Some(cat) => {
            if cat.should_replace() {
                let key = match cat.extract_key(new_line.as_str()) {
                    Some(k) => k,
                    None => {
                        proof {
                            assert(false);
                        }
                        String::new()
                    },
                };
                let mut i: usize = 0;
                while i < lines.len()
                    invariant
                        old_views == lines@.map_values(|l: String| l@),
                        old_views == old(lines)@.map_values(|l: String| l@),
                        i <= lines@.len(),
                        spec_match_category(new_line@) == Some(cat),
                        spec_should_replace(cat),
                        spec_extract_key(cat, new_line@) == Some(key@),
                        forall|j: int| 0 <= j < i ==> !line_has_key(cat, key@, old_views[j]),
                    decreases lines@.len() - i,
                {
                    let matched = match cat.extract_key(lines[i].as_str()) {
                        Some(existing_key) => existing_key == key,
                        None => false,
                    };
                    if matched {
                        proof {
                            lemma_find_match_first(old_views, cat, key@, i as int);
                        }
                        lines[i] = new_line;
                        proof {
                            assert(lines@.map_values(|l: String| l@) =~= old_views.update(
                                i as int,
                                new_line@,
                            ));
                        }
                        return ;
                    }
                    i = i + 1;
                }
                proof {
                    lemma_find_match_none(old_views, cat, key@);
                }
                lines.push(new_line);
                proof {
                    assert(lines@.map_values(|l: String| l@) =~= old_views.push(new_line@));
                }
            } else {
                lines.push(new_line);
                proof {
                    assert(lines@.map_values(|l: String| l@) =~= old_views.push(new_line@));
                }
            }
        },
        None => {
            lines.push(new_line);
            proof {
                assert(lines@.map_values(|l: String| l@) =~= old_views.push(new_line@));
            }
        },
    }
}

/// If the first `i` lines carry no match and line `i` does, the first match
/// stands at `i`.
proof fn lemma_find_match_first(lines: Seq<Seq<char>>, cat: LineCategory, key: Seq<char>, i: int)
    requires
        0 <= i < lines.len(),
        line_has_key(cat, key, lines[i]),
        forall|j: int| 0 <= j < i ==> !line_has_key(cat, key, lines[j]),
    ensures
        find_match_spec(lines, cat, key) == Some(i),
    decreases lines.len(),
{
    if i > 0 {
        lemma_find_match_first(lines.drop_first(), cat, key, i - 1);
        assert(forall|j: int| 1 <= j < lines.len() ==> lines.drop_first()[j - 1] == lines[j]);
        assert(lines.drop_first()[i - 1] == lines[i]);
    }
}

/// If no line carries a match, the search comes up empty.
proof fn lemma_find_match_none(lines: Seq<Seq<char>>, cat: LineCategory, key: Seq<char>)
    requires
        forall|j: int| 0 <= j < lines.len() ==> !line_has_key(cat, key, lines[j]),
    ensures
        find_match_spec(lines, cat, key) is None,
    decreases lines.len(),
{
    if lines.len() > 0 {
        lemma_find_match_none(lines.drop_first(), cat, key);
        assert(forall|j: int| 1 <= j < lines.len() ==> lines.drop_first()[j - 1] == lines[j]);
    }
}

/// The index an upsert of `new_line` would replace: the first line carrying
/// the same category and key, where the category is replaceable.
pub open spec fn spec_upsert_target(lines: Seq<Seq<char>>, new_line: Seq<char>) -> Option<int> {
    match spec_match_category(new_line) {
        Some(cat) => if spec_should_replace(cat) {
            find_match_spec(lines, cat, spec_extract_key(cat, new_line)->Some_0)
        } else {
            None
        },
        None => None,
    }
}

/// Shape of every upsert: either exactly one existing line — the first one
/// carrying the new line's category and key — is replaced in place, or the
/// new line is appended at the end. In particular, lines that do not carry
/// that key are never altered, removed or reordered, and an unmatched line
/// is always appended.
pub proof fn lemma_upsert_shape(lines: Seq<Seq<char>>, new_line: Seq<char>)
    ensures
        match spec_upsert_target(lines, new_line) {
            Some(i) => {
                &&& 0 <= i < lines.len()
                &&& spec_upsert(lines, new_line) == lines.update(i, new_line)
                &&& spec_match_category(new_line) matches Some(cat) && line_has_key(
                    cat,
                    spec_extract_key(cat, new_line)->Some_0,
                    lines[i],
                )
            },
            None => spec_upsert(lines, new_line) == lines.push(new_line),
        },
{
    match spec_match_category(new_line) {
        Some(cat) => {
            if spec_should_replace(cat) {
                lemma_find_match_spec(lines, cat, spec_extract_key(cat, new_line)->Some_0);
            }
        },
        None => {},
    }
}

/// How many lines carry `key` under `cat`.
pub open spec fn count_matches(lines: Seq<Seq<char>>, cat: LineCategory, key: Seq<char>) -> nat
    decreases lines.len(),
{
    if lines.len() == 0 {
        0
    } else {
        (if line_has_key(cat, key, lines[0]) {
            1nat
        } else {
            0nat
        }) + count_matches(lines.drop_first(), cat, key)
    }
}

/// A document carries no match exactly when no line does.
pub proof fn lemma_count_zero(lines: Seq<Seq<char>>, cat: LineCategory, key: Seq<char>)
    ensures
        (count_matches(lines, cat, key) == 0) <==> (forall|j: int|
            0 <= j < lines.len() ==> !line_has_key(cat, key, lines[j])),
    decreases lines.len(),
{
    if lines.len() > 0 {
        lemma_count_zero(lines.drop_first(), cat, key);
        assert(forall|j: int| 1 <= j < lines.len() ==> lines.drop_first()[j - 1] == lines[j]);
    }
}

/// Appending a line adds one match when the line carries the key, none
/// otherwise.
pub proof fn lemma_count_push(lines: Seq<Seq<char>>, cat: LineCategory, key: Seq<char>, l: Seq<char>)
    ensures
        count_matches(lines.push(l), cat, key) == count_matches(lines, cat, key) + (
        if line_has_key(cat, key, l) {
            1nat
        } else {
            0nat
        }),
    decreases lines.len(),
{
    if lines.len() == 0 {
        assert(lines.push(l).drop_first() =~= lines);
    } else {
        lemma_count_push(lines.drop_first(), cat, key, l);
        assert(lines.push(l).drop_first() =~= lines.drop_first().push(l));
        assert(lines.push(l)[0] == lines[0]);
    }
}

/// Replacing a matching line with another matching line keeps the match
/// count.
pub proof fn lemma_count_update_match(
    lines: Seq<Seq<char>>,
    cat: LineCategory,
    key: Seq<char>,
    i: int,
    l: Seq<char>,
)
    requires
        0 <= i < lines.len(),
        line_has_key(cat, key, lines[i]),
        line_has_key(cat, key, l),
    ensures
        count_matches(lines.update(i, l), cat, key) == count_matches(lines, cat, key),
    decreases lines.len(),
{
    if i == 0 {
        assert(lines.update(0, l).drop_first() =~= lines.drop_first());
    } else {
        lemma_count_update_match(lines.drop_first(), cat, key, i - 1, l);
        assert(lines.update(i, l).drop_first() =~= lines.drop_first().update(i - 1, l));
        assert(lines.update(i, l)[0] == lines[0]);
    }
}

/// Merging a line whose category is replaceable leaves the document with at
/// most one line carrying that key, provided the document already carried at
/// most one — the store's standing guarantee. On a fresh key, exactly one.
pub proof fn lemma_upsert_at_most_one(
    lines: Seq<Seq<char>>,
    new_line: Seq<char>,
    cat: LineCategory,
    key: Seq<char>,
)
    requires
        spec_match_category(new_line) == Some(cat),
        spec_should_replace(cat),
        spec_extract_key(cat, new_line) == Some(key),
        count_matches(lines, cat, key) <= 1,
    ensures
        count_matches(spec_upsert(lines, new_line), cat, key) == 1,
{
    lemma_find_match_spec(lines, cat, key);
    lemma_count_zero(lines, cat, key);
    match find_match_spec(lines, cat, key) {
        Some(i) => {
            lemma_count_update_match(lines, cat, key, i, new_line);
        },
        None => {
            lemma_count_push(lines, cat, key, new_line);
        },
    }
}

/// Merging two lines that carry the same key, one after the other, leaves
/// exactly one line with that key, equal to the second value, standing at
/// the position the first merge gave it: the position of the already
/// matching line if the document carried one, else the appended position at
/// the old end.
pub proof fn lemma_upsert_twice(
    lines: Seq<Seq<char>>,
    l1: Seq<char>,
    l2: Seq<char>,
    cat: LineCategory,
    key: Seq<char>,
)
    requires
        spec_match_category(l1) == Some(cat),
        spec_match_category(l2) == Some(cat),
        spec_should_replace(cat),
        spec_extract_key(cat, l1) == Some(key),
        spec_extract_key(cat, l2) == Some(key),
        count_matches(lines, cat, key) == 0,
    ensures
        spec_upsert(spec_upsert(lines, l1), l2) == lines.push(l2),
        count_matches(spec_upsert(spec_upsert(lines, l1), l2), cat, key) == 1,
{
    lemma_count_zero(lines, cat, key);
    lemma_find_match_none(lines, cat, key);
    let mid = spec_upsert(lines, l1);
    assert(mid == lines.push(l1));
    lemma_find_match_first(mid, cat, key, lines.len() as int);
    assert(spec_upsert(mid, l2) == mid.update(lines.len() as int, l2));
    assert(mid.update(lines.len() as int, l2) =~= lines.push(l2));
    lemma_count_push(lines, cat, key, l2);
}

impl SettingWriter {
    /// The line this writer will merge into the overlay document.
    pub closed spec fn spec_line(&self) -> Seq<char> {
        self.setting_line.1@
    }

    /// The kind of setting object this writer was built from.
    pub closed spec fn spec_kind(&self) -> SettingObjectKey {
        self.setting_line.0
    }

    /// Setting builder for a device setting. Currently only supports
    /// keyboard layout settings.
    pub fn build(input_device: DeviceSetting) -> (r: Result<Self, SettingError>)
        ensures
            input_device.key == SettingObjectKey::Device ==> match r {
                Ok(w) => w.spec_kind() == SettingObjectKey::Device && w.spec_line()
                    == "device { \n    name = "@ + input_device.device_name@
                    + "\n    kb_layout = "@ + input_device.kb_layout@ + "\n }"@,
                Err(_) => false,
            },
            input_device.key == SettingObjectKey::SingleLine ==> r == Err::<
                Self,
                SettingError,
            >(SettingError::MalformedLine),
    {
        if input_device.key == SettingObjectKey::Device {
            let mut line = String::new();
            line.append("device { \n    name = ");
            line.append(input_device.device_name.as_str());
            line.append("\n    kb_layout = ");
            line.append(input_device.kb_layout.as_str());
            line.append("\n }");
            proof {
                assert(line@ =~= "device { \n    name = "@ + input_device.device_name@
                    + "\n    kb_layout = "@ + input_device.kb_layout@ + "\n }"@);
            }
            Ok(SettingWriter { setting_line: (SettingObjectKey::Device, line) })
        } else {
            Err(SettingError::MalformedLine)
        }
    }

    /// Builds a one-line setting from a prefix and its value.
    pub fn build_single(prefix: &str, value: &str) -> (r: Result<Self, SettingError>)
        ensures
            match r {
                Ok(w) => w.spec_kind() == SettingObjectKey::SingleLine && w.spec_line() == prefix@
                    + value@,
                Err(_) => false,
            },
    {
        let mut line = String::new();
        line.append(prefix);
        line.append(value);
        proof {
            assert(line@ =~= prefix@ + value@);
        }
        Ok(SettingWriter { setting_line: (SettingObjectKey::SingleLine, line) })
    }

    /// The built line, handed out for merging and for the caller's reload
    /// command.
    pub fn into_line(self) -> (r: String)
        ensures
            r@ == self.spec_line(),
    {
        self.setting_line.1
    }

    /// Merges this writer's line into the overlay document's line sequence.
    pub fn apply(self, lines: &mut Vec<String>)
        ensures
            final(lines)@.map_values(|l: String| l@) == spec_upsert(
                old(lines)@.map_values(|l: String| l@),
                self.spec_line(),
            ),
    {
        upsert_line(lines, self.setting_line.1);
    }
}

} // verus!
