//! Plugin identifiers.

use vstd::prelude::*;

use crate::text;
use crate::text::chars_of;
use crate::text::concat3;
use crate::text::debug_of;

verus! {

/// Identifier of a plugin, e.g. `aoe.status` or `someuser.review-helper`.
///
/// Lowercase ASCII segments separated by dots; segments may contain digits and
/// hyphens but must start with a letter. The id namespaces everything the
/// plugin touches: its config table (`[plugins."<id>"]`), its `plugin_meta`
/// slot on sessions, its event topics (`plugin.<id>.*`), and its canonical
/// action names (`plugin.<id>.<action>`).
#[derive(Debug, PartialEq, Eq, PartialOrd, Ord, Hash)]
pub struct PluginId(String);

/// Rejection reason for a malformed plugin id.
#[derive(Debug, Clone, PartialEq, Eq)]
pub struct InvalidPluginId {
    pub id: String,
    pub reason: &'static str,
}

/// An ASCII lowercase letter.
pub open spec fn lowercase(c: char) -> bool {
    'a' <= c <= 'z'
}

/// A character that may follow the first one of a segment.
pub open spec fn segment_char(c: char) -> bool {
    lowercase(c) || '0' <= c <= '9' || c == '-'
}

/// The position of the first dot, or the length where there is none.
pub open spec fn first_dot(s: Seq<char>) -> nat
    decreases s.len(),
{
    if s.len() == 0 || s[0] == '.' {
        0
    } else {
        1 + first_dot(s.drop_first())
    }
}

/// Why a segment is refused.
pub open spec fn segment_problem(segment: Seq<char>) -> Option<Seq<char>> {
    if segment.len() == 0 || !lowercase(segment[0]) {
        Some("each dot-separated segment must start with a lowercase letter"@)
    } else if exists|i: int| 1 <= i < segment.len() && !segment_char(#[trigger] segment[i]) {
        Some("segments may only contain lowercase letters, digits, and hyphens"@)
    } else {
        None
    }
}

/// Why the first refused segment of `s` is refused.
pub open spec fn segments_problem(s: Seq<char>) -> Option<Seq<char>>
    decreases s.len(),
{
    let dot = first_dot(s) as int;
    match segment_problem(s.take(dot)) {
        Some(reason) => Some(reason),
        None => if dot >= s.len() {
            None
        } else {
            segments_problem(s.skip(dot + 1))
        },
    }
}

/// Why `id` is no plugin id, or `None` where it is one.
pub open spec fn id_problem(id: Seq<char>) -> Option<Seq<char>> {
    if id.len() == 0 {
        Some("empty"@)
    } else if vstd::utf8::encode_utf8(id).len() > 64 {
        Some("longer than 64 bytes"@)
    } else {
        segments_problem(id)
    }
}

impl View for PluginId {
    type V = Seq<char>;

    closed spec fn view(&self) -> Seq<char> {
        self.0@
    }
}

proof fn first_dot_is(s: Seq<char>, n: nat)
    requires
        n <= s.len(),
        forall|j: int| 0 <= j < n ==> #[trigger] s[j] != '.',
        n < s.len() ==> s[n as int] == '.',
    ensures
        first_dot(s) == n,
    decreases n,
{
    if n > 0 {
        assert(s[0] != '.');
        assert forall|j: int| 0 <= j < n - 1 implies #[trigger] s.drop_first()[j] != '.' by {
            assert(s[j + 1] != '.');
        }
        first_dot_is(s.drop_first(), (n - 1) as nat);
    }
}

proof fn first_dot_bounds(s: Seq<char>)
    ensures
        first_dot(s) <= s.len(),
        forall|j: int| 0 <= j < first_dot(s) ==> #[trigger] s[j] != '.',
        first_dot(s) < s.len() ==> s[first_dot(s) as int] == '.',
    decreases s.len(),
{
    if s.len() > 0 && s[0] != '.' {
        let rest = s.drop_first();
        first_dot_bounds(rest);
        assert forall|j: int| 0 <= j < first_dot(s) implies #[trigger] s[j] != '.' by {
            if j > 0 {
                assert(rest[j - 1] == s[j]);
            }
        }
    }
}

impl PluginId {
    #[verifier::type_invariant]
    spec fn well_formed(self) -> bool {
        id_problem(self.0@) is None
    }

    /// Take `id` as a plugin id, or say why it is none.
    pub fn new(id: &str) -> (r: Result<PluginId, InvalidPluginId>)
        ensures
            match r {
                Ok(plugin_id) => id_problem(id@) is None && plugin_id@ == id@,
                Err(e) => id_problem(id@) == Some(e.reason@) && e.id@ == id@,
            },
    {
        if id.is_empty() {
            return Err(InvalidPluginId { id: id.to_owned(), reason: "empty" });
        }
        if id.as_bytes().len() > 64 {
            return Err(InvalidPluginId { id: id.to_owned(), reason: "longer than 64 bytes" });
        }
        let chars = chars_of(id);
        let mut start: usize = 0;
        assert(id@.skip(0) =~= id@);
        loop
            invariant
                chars@ == id@,
                id@.len() > 0,
                vstd::utf8::encode_utf8(id@).len() <= 64,
                start <= chars.len(),
                segments_problem(id@) == segments_problem(id@.skip(start as int)),
            decreases chars.len() - start,
        {
            let ghost rest = id@.skip(start as int);
            let mut end: usize = start;
            while end < chars.len() && chars[end] != '.'
                invariant
                    chars@ == id@,
                    start <= end <= chars.len(),
                    forall|j: int| start <= j < end ==> #[trigger] chars@[j] != '.',
                decreases chars.len() - end,
            {
                end += 1;
            }
            let ghost segment = rest.take(end - start);
            proof {
                assert forall|j: int| 0 <= j < end - start implies #[trigger] rest[j] != '.' by {
                    assert(chars@[start + j] != '.');
                }
                first_dot_is(rest, (end - start) as nat);
            }
            if end == start || !(chars[start] >= 'a' && chars[start] <= 'z') {
                return Err(
                    InvalidPluginId {
                        id: id.to_owned(),
                        reason: "each dot-separated segment must start with a lowercase letter",
                    },
                );
            }
            let mut i: usize = start + 1;
            while i < end
                invariant
                    chars@ == id@,
                    id@.len() > 0,
                    vstd::utf8::encode_utf8(id@).len() <= 64,
                    start < i <= end <= chars.len(),
                    rest == id@.skip(start as int),
                    segment == rest.take(end - start),
                    first_dot(rest) == end - start,
                    segments_problem(id@) == segments_problem(rest),
                    lowercase(segment[0]),
                    forall|j: int| 1 <= j < i - start ==> segment_char(#[trigger] segment[j]),
                decreases end - i,
            {
                let c = chars[i];
                assert(segment[i - start] == c);
                if !((c >= 'a' && c <= 'z') || (c >= '0' && c <= '9') || c == '-') {
                    assert(!segment_char(segment[i - start]));
                    return Err(
                        InvalidPluginId {
                            id: id.to_owned(),
                            reason: "segments may only contain lowercase letters, digits, and hyphens",
                        },
                    );
                }
                i += 1;
            }
            assert(segment_problem(segment) is None);
            if end == chars.len() {
                return Ok(PluginId(id.to_owned()));
            }
            assert(rest.skip(end - start + 1) =~= id@.skip(end + 1));
            start = end + 1;
        }
    }

    /// The id as text.
    pub fn as_str(&self) -> (r: &str)
        ensures
            r@ == self@,
            id_problem(r@) is None,
    {
        proof {
            use_type_invariant(self);
        }
        self.0.as_str()
    }
}

impl Clone for PluginId {
    fn clone(&self) -> (r: Self)
        ensures
            r@ == self@,
    {
        proof {
            use_type_invariant(self);
        }
        PluginId(self.0.clone())
    }
}

impl TryFrom<String> for PluginId {
    type Error = InvalidPluginId;

    fn try_from(value: String) -> (r: Result<PluginId, InvalidPluginId>)
        ensures
            match r {
                Ok(plugin_id) => id_problem(value@) is None && plugin_id@ == value@,
                Err(e) => id_problem(value@) == Some(e.reason@) && e.id@ == value@,
            },
    {
        PluginId::new(value.as_str())
    }
}

impl vstd::std_specs::convert::TryFromSpecImpl<String> for PluginId {
    open spec fn obeys_try_from_spec() -> bool {
        false
    }

    open spec fn try_from_spec(v: String) -> Result<PluginId, InvalidPluginId> {
        arbitrary()
    }
}

impl From<PluginId> for String {
    fn from(value: PluginId) -> (r: String)
        ensures
            r@ == value@,
    {
        value.0
    }
}

impl vstd::std_specs::convert::FromSpecImpl<PluginId> for String {
    open spec fn obeys_from_spec() -> bool {
        false
    }

    open spec fn from_spec(v: PluginId) -> String {
        arbitrary()
    }
}

impl InvalidPluginId {
    /// The rejection as one line for a user.
    pub fn message(&self) -> (r: String)
        ensures
            r@ == "invalid plugin id "@ + text::debug_text(self.id@) + ": "@ + self.reason@,
    {
        let mut out = concat3("invalid plugin id ", debug_of(self.id.as_str()).as_str(), ": ");
        out.append(self.reason);
        out
    }
}

/// Position `i` starts a segment.
pub open spec fn starts_segment(s: Seq<char>, i: int) -> bool {
    i == 0 || s[i - 1] == '.'
}

/// Dotted lowercase segments: every segment starts with a lowercase letter
/// and goes on with letters, digits and hyphens.
pub open spec fn dotted_lowercase(s: Seq<char>) -> bool {
    &&& s.len() > 0
    &&& s.last() != '.'
    &&& forall|i: int|
        0 <= i < s.len() ==> if starts_segment(s, i) {
            lowercase(#[trigger] s[i])
        } else {
            segment_char(s[i]) || s[i] == '.'
        }
}

proof fn segments_are_dotted(s: Seq<char>)
    ensures
        segments_problem(s) is None <==> dotted_lowercase(s),
    decreases s.len(),
{
    first_dot_bounds(s);
    let dot = first_dot(s) as int;
    let segment = s.take(dot);
    let rest = s.skip(dot + 1);
    if dot < s.len() {
        segments_are_dotted(rest);
    }
    if segments_problem(s) is None {
        assert forall|i: int| 0 <= i < s.len() implies if starts_segment(s, i) {
            lowercase(#[trigger] s[i])
        } else {
            segment_char(s[i]) || s[i] == '.'
        } by {
            if i < dot {
                assert(segment[i] == s[i]);
                if i > 0 {
                    assert(s[i - 1] != '.');
                }
            } else if i == dot {
                assert(s[i - 1] != '.');
            } else {
                assert(rest[i - dot - 1] == s[i]);
                if i > dot + 1 {
                    assert(rest[i - dot - 2] == s[i - 1]);
                }
                assert(starts_segment(s, i) == starts_segment(rest, i - dot - 1));
            }
        }
        if dot < s.len() {
            assert(rest.last() == s.last());
        }
    }
    if dotted_lowercase(s) {
        assert(lowercase(s[0]));
        assert(dot > 0);
        assert(segment[0] == s[0]);
        assert forall|i: int| 1 <= i < segment.len() implies segment_char(#[trigger] segment[i]) by {
            assert(s[i] == segment[i]);
            assert(s[i - 1] != '.');
        }
        if dot < s.len() {
            if rest.len() == 0 {
                assert(s.last() == s[dot]);
            }
            assert(rest.last() == s.last());
            assert forall|i: int| 0 <= i < rest.len() implies if starts_segment(rest, i) {
                lowercase(#[trigger] rest[i])
            } else {
                segment_char(rest[i]) || rest[i] == '.'
            } by {
                assert(rest[i] == s[dot + 1 + i]);
                if i > 0 {
                    assert(rest[i - 1] == s[dot + i]);
                }
            }
        }
    }
}

/// The accepted ids are the dotted lowercase names of at most 64 bytes.
pub proof fn accepted_ids_are_dotted_lowercase(id: Seq<char>)
    ensures
        id_problem(id) is None <==> dotted_lowercase(id) && vstd::utf8::encode_utf8(id).len() <= 64,
{
    segments_are_dotted(id);
}

/// An accepted id is made of lowercase letters, digits, hyphens and dots alone;
/// it starts with a letter, a letter follows every dot, and it does not end
/// with a dot.
pub proof fn accepted_ids_are_plain(id: Seq<char>, i: int)
    requires
        id_problem(id) is None,
    ensures
        id.len() > 0,
        'a' <= id[0] <= 'z',
        id[id.len() - 1] != '.',
        0 <= i < id.len() ==> 'a' <= id[i] <= 'z' || '0' <= id[i] <= '9' || id[i] == '-' || id[i]
            == '.',
        0 < i < id.len() && id[i - 1] == '.' ==> 'a' <= id[i] <= 'z',
        vstd::utf8::encode_utf8(id).len() <= 64,
{
    accepted_ids_are_dotted_lowercase(id);
    assert(lowercase(id[0]));
    if 0 < i < id.len() {
        assert(if starts_segment(id, i) {
            lowercase(id[i])
        } else {
            segment_char(id[i]) || id[i] == '.'
        });
    }
}

/// Every name of at most sixty-four bytes is accepted that starts with a
/// lowercase letter, does not end with a dot, and goes on with letters, digits,
/// hyphens and dots, a letter behind each dot.
pub proof fn plain_ids_are_accepted(id: Seq<char>)
    requires
        id.len() > 0,
        vstd::utf8::encode_utf8(id).len() <= 64,
        'a' <= id[0] <= 'z',
        id[id.len() - 1] != '.',
        forall|i: int|
            0 < i < id.len() ==> 'a' <= #[trigger] id[i] <= 'z' || (id[i - 1] != '.' && ('0'
                <= id[i] <= '9' || id[i] == '-' || id[i] == '.')),
    ensures
        id_problem(id) is None,
{
    assert(dotted_lowercase(id)) by {
        assert forall|i: int| 0 <= i < id.len() implies if starts_segment(id, i) {
            lowercase(#[trigger] id[i])
        } else {
            segment_char(id[i]) || id[i] == '.'
        } by {
            if i > 0 {
                assert('a' <= id[i] <= 'z' || (id[i - 1] != '.' && ('0' <= id[i] <= '9' || id[i]
                    == '-' || id[i] == '.')));
            }
        }
    }
    accepted_ids_are_dotted_lowercase(id);
}

/// A refusal says what is wrong: that the id is empty, that it is too long, how
/// its segment starts, or what its segment holds.
pub proof fn refused_ids_are_told_why(id: Seq<char>)
    ensures
        id.len() == 0 ==> id_problem(id) == Some("empty"@),
        id.len() > 0 && vstd::utf8::encode_utf8(id).len() > 64 ==> id_problem(id) == Some(
            "longer than 64 bytes"@,
        ),
        id.len() > 0 && vstd::utf8::encode_utf8(id).len() <= 64 && !('a' <= id[0] <= 'z')
            ==> id_problem(id) == Some(
            "each dot-separated segment must start with a lowercase letter"@,
        ),
        id.len() > 0 && vstd::utf8::encode_utf8(id).len() <= 64 && 'a' <= id[0] <= 'z' && (forall|
            i: int,
        |
            0 <= i < id.len() ==> #[trigger] id[i] != '.') && (exists|i: int|
            0 < i < id.len() && !('a' <= #[trigger] id[i] <= 'z' || '0' <= id[i] <= '9' || id[i]
                == '-')) ==> id_problem(id) == Some(
            "segments may only contain lowercase letters, digits, and hyphens"@,
        ),
{
    first_dot_bounds(id);
    let dot = first_dot(id) as int;
    let segment = id.take(dot);
    if id.len() > 0 && dot > 0 {
        assert(segment[0] == id[0]);
    }
    if id.len() > 0 && (forall|i: int| 0 <= i < id.len() ==> #[trigger] id[i] != '.') {
        if dot < id.len() {
            assert(id[dot] != '.');
        }
        assert(segment =~= id);
    }
}

/// The segments of an id are checked one by one, the first one refused deciding:
/// one that starts with anything but a lowercase letter, or one that holds
/// anything but lowercase letters, digits and hyphens.
pub proof fn segments_are_checked_in_order(segment: Seq<char>, rest: Seq<char>)
    requires
        forall|i: int| 0 <= i < segment.len() ==> #[trigger] segment[i] != '.',
    ensures
        ({
            let starts = segment.len() > 0 && 'a' <= segment[0] <= 'z';
            let plain = forall|i: int|
                1 <= i < segment.len() ==> ('a' <= #[trigger] segment[i] <= 'z' || '0' <= segment[i]
                    <= '9' || segment[i] == '-');
            let own = if !starts {
                Some("each dot-separated segment must start with a lowercase letter"@)
            } else if !plain {
                Some("segments may only contain lowercase letters, digits, and hyphens"@)
            } else {
                None
            };
            &&& segments_problem(segment) == own
            &&& own is Some ==> segments_problem(segment + seq!['.'] + rest) == own
            &&& own is None ==> segments_problem(segment + seq!['.'] + rest) == segments_problem(
                rest,
            )
        }),
{
    let whole = segment + seq!['.'] + rest;
    first_dot_is(segment, segment.len());
    first_dot_is(whole, segment.len());
    assert(segment.take(segment.len() as int) =~= segment);
    assert(whole.take(segment.len() as int) =~= segment);
    assert(whole.skip(segment.len() as int + 1) =~= rest);
    if exists|i: int| 1 <= i < segment.len() && !segment_char(#[trigger] segment[i]) {
        let i = choose|i: int| 1 <= i < segment.len() && !segment_char(#[trigger] segment[i]);
        assert(!('a' <= segment[i] <= 'z' || '0' <= segment[i] <= '9' || segment[i] == '-'));
    } else {
        assert forall|i: int| 1 <= i < segment.len() implies ('a' <= #[trigger] segment[i] <= 'z'
            || '0' <= segment[i] <= '9' || segment[i] == '-') by {
            assert(segment_char(segment[i]));
        }
    }
}

} // verus!
