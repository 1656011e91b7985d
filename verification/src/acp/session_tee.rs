//! Per-session tracing tee: mirrors session-scoped events into each
//! session's own log, so a session's log surfaces the daemon's
//! watchdog/cancel breadcrumbs, not just the startup marker plus agent
//! stderr. Additive: events still flow to the shared log.
//!
//! Capture. Events are routed by their `session` (or rare `session_id`)
//! field. A span named [`SESSION_SPAN`] wraps each daemon per-session
//! connection task, so events that do not set the field explicitly still
//! inherit it through the span scope. The event's own fields come first, then
//! the span scope.
//!
//! Writers are bounded by count and the least-recently-used one is evicted,
//! so a long-lived daemon does not leak file handles. This module keeps the
//! books; the caller holds the writers.
//!
//! Re-entrancy. Events with target [`TEE_TARGET`] are skipped so any
//! self-reporting cannot loop.

use vstd::prelude::*;

use crate::text;
use crate::text::chars_of;
use crate::text::concat2;
use crate::text::concat3;
use crate::text::contains_text;
use crate::text::copy_optional;
use crate::text::same_text;
use crate::text::text_of;

verus! {

/// Span name carrying the session id for scope-based capture. Entered at
/// the daemon per-session connection task so nested events inherit the
/// `session` field even when they do not set it explicitly.
pub const SESSION_SPAN: &'static str = "acp_session";

/// Target reserved for the tee's own diagnostics; skipped on the event
/// path to prevent re-entrancy.
pub const TEE_TARGET: &'static str = "acp.tee";

/// Cap on simultaneously-open per-session log files. Realistic concurrent
/// session counts sit well under this; the bound only matters for a
/// daemon that churns through many sessions over days.
pub const MAX_OPEN_SESSION_LOGS: usize = 64;

/// Size at which a session's log is rotated.
pub const PER_SESSION_MAX_BYTES: u64 = 10 * 1024 * 1024;

/// How many rotated logs of a session are kept.
pub const PER_SESSION_KEEP: u8 = 2;

/// `s` from its first character on that is no quote.
pub open spec fn after_quotes(s: Seq<char>) -> Seq<char>
    decreases s.len(),
{
    if s.len() > 0 && s[0] == '"' {
        after_quotes(s.drop_first())
    } else {
        s
    }
}

/// `s` up to its last character that is no quote.
pub open spec fn before_quotes(s: Seq<char>) -> Seq<char>
    decreases s.len(),
{
    if s.len() > 0 && s.last() == '"' {
        before_quotes(s.drop_last())
    } else {
        s
    }
}

/// `s` without the quotes around it.
pub open spec fn unquoted(s: Seq<char>) -> Seq<char> {
    before_quotes(after_quotes(s))
}

/// Debug-formatted values arrive quoted (`"abc"`); strip surrounding
/// quotes so `session` values are valid file names and the rendered line
/// reads cleanly.
pub fn unquote(s: &str) -> (r: String)
    ensures
        r@ == unquoted(s@),
{
    let chars = chars_of(s);
    let ghost all = chars@;
    let mut from: usize = 0;
    assert(all.skip(0) =~= all);
    while from < chars.len() && chars[from] == '"'
        invariant
            from <= chars.len(),
            all == chars@,
            after_quotes(all) == after_quotes(all.skip(from as int)),
        decreases chars.len() - from,
    {
        assert(all.skip(from as int).drop_first() =~= all.skip(from + 1));
        from += 1;
    }
    let ghost tail = all.skip(from as int);
    let mut to: usize = chars.len();
    assert(all.subrange(from as int, to as int) =~= tail);
    while to > from && chars[to - 1] == '"'
        invariant
            from <= to <= chars.len(),
            all == chars@,
            before_quotes(tail) == before_quotes(all.subrange(from as int, to as int)),
        decreases to,
    {
        let ghost part = all.subrange(from as int, to as int);
        assert(part.drop_last() =~= all.subrange(from as int, to - 1));
        to -= 1;
    }
    text_of(&chars, from, to)
}

/// The session that fields name so far, after one more field. `session`
/// counts always, `session_id` only where no session is known yet.
pub open spec fn session_after(
    session: Option<Seq<char>>,
    name: Seq<char>,
    value: Seq<char>,
) -> Option<Seq<char>> {
    if name == "session"@ {
        Some(value)
    } else if name == "session_id"@ && session is None {
        Some(value)
    } else {
        session
    }
}

/// Finds the session id among the fields of a span.
#[derive(Debug)]
pub struct SessionVisitor {
    pub session: Option<String>,
}

impl Default for SessionVisitor {
    fn default() -> (r: Self)
        ensures
            r.session is None,
    {
        SessionVisitor { session: None }
    }
}

impl SessionVisitor {
    /// Take in one field.
    pub fn capture(&mut self, name: &str, value: String)
        ensures
            text::optional_text(final(self).session) == session_after(
                text::optional_text(old(self).session),
                name@,
                value@,
            ),
    {
        if same_text(name, "session") {
            self.session = Some(value);
        } else if same_text(name, "session_id") && self.session.is_none() {
            self.session = Some(value);
        }
    }
}

/// The session tag of a new span: only a session span carries one.
pub fn span_tag(span_name: &str, visitor: SessionVisitor) -> (r: Option<String>)
    ensures
        text::optional_text(r) == (if span_name@ == "acp_session"@ {
            text::optional_text(visitor.session)
        } else {
            None
        }),
{
    if same_text(span_name, SESSION_SPAN) {
        visitor.session
    } else {
        None
    }
}

/// Visitor that both finds the session id and collects the renderable
/// message plus remaining fields for the per-session line. The session
/// field itself is not echoed into the line: the file is already
/// per-session, so repeating it would be noise.
#[derive(Debug)]
pub struct LineVisitor {
    pub session: Option<String>,
    pub message: Option<String>,
    pub kv: String,
}

/// What contracts say of the fields of an event so far.
pub struct LineModel {
    pub session: Option<Seq<char>>,
    pub message: Option<Seq<char>>,
    pub kv: Seq<char>,
}

impl View for LineVisitor {
    type V = LineModel;

    open spec fn view(&self) -> LineModel {
        LineModel {
            session: text::optional_text(self.session),
            message: text::optional_text(self.message),
            kv: self.kv@,
        }
    }
}

impl Default for LineVisitor {
    fn default() -> (r: Self)
        ensures
            r@ == (LineModel { session: None, message: None, kv: seq![] }),
    {
        let r = LineVisitor { session: None, message: None, kv: String::new() };
        assert(r@.kv =~= seq![]);
        r
    }
}

/// The fields after one more: the message and the session stand for
/// themselves, any other field is appended as ` name=value`.
pub open spec fn line_after(line: LineModel, name: Seq<char>, value: Seq<char>) -> LineModel {
    if name == "message"@ {
        LineModel { message: Some(value), ..line }
    } else if name == "session"@ || name == "session_id"@ {
        LineModel { session: session_after(line.session, name, value), ..line }
    } else {
        LineModel { kv: line.kv + (" "@ + name + ("="@ + value)), ..line }
    }
}

/// The fields of an event after some fields, from none on.
pub open spec fn line_of(fields: Seq<(Seq<char>, Seq<char>)>) -> LineModel
    decreases fields.len(),
{
    if fields.len() == 0 {
        LineModel { session: None, message: None, kv: seq![] }
    } else {
        line_after(line_of(fields.drop_last()), fields.last().0, fields.last().1)
    }
}

/// The last value under a name.
pub open spec fn last_value(fields: Seq<(Seq<char>, Seq<char>)>, name: Seq<char>) -> Option<
    Seq<char>,
>
    decreases fields.len(),
{
    if fields.len() == 0 {
        None
    } else if fields.last().0 == name {
        Some(fields.last().1)
    } else {
        last_value(fields.drop_last(), name)
    }
}

/// The first value under a name.
pub open spec fn first_value(fields: Seq<(Seq<char>, Seq<char>)>, name: Seq<char>) -> Option<
    Seq<char>,
>
    decreases fields.len(),
{
    if fields.len() == 0 {
        None
    } else {
        match first_value(fields.drop_last(), name) {
            Some(value) => Some(value),
            None => if fields.last().0 == name {
                Some(fields.last().1)
            } else {
                None
            },
        }
    }
}

/// ` name=value` of every field that is neither the message nor a session, in
/// order.
pub open spec fn other_fields(fields: Seq<(Seq<char>, Seq<char>)>) -> Seq<char>
    decreases fields.len(),
{
    if fields.len() == 0 {
        seq![]
    } else {
        let head = other_fields(fields.drop_last());
        let (name, value) = fields.last();
        if name == "message"@ || name == "session"@ || name == "session_id"@ {
            head
        } else {
            head + (" "@ + name + ("="@ + value))
        }
    }
}

/// After any fields, in any order: the session is the last `session`, or else
/// the first `session_id`; the message is the last one; and every other field
/// is listed in order, these three never among them.
pub proof fn fields_are_told_apart(fields: Seq<(Seq<char>, Seq<char>)>)
    ensures
        line_of(fields).session == (match last_value(fields, "session"@) {
            Some(session) => Some(session),
            None => first_value(fields, "session_id"@),
        }),
        line_of(fields).message == last_value(fields, "message"@),
        line_of(fields).kv == other_fields(fields),
    decreases fields.len(),
{
    reveal_strlit("session");
    reveal_strlit("session_id");
    reveal_strlit("message");
    assert("session"@.len() == 7 && "session_id"@.len() == 10 && "message"@.len() == 7);
    assert("session"@[0] == 's' && "message"@[0] == 'm');
    if fields.len() > 0 {
        fields_are_told_apart(fields.drop_last());
    }
}

/// The line that is written for an event.
pub open spec fn event_line(
    line: LineModel,
    stamp: Seq<char>,
    level: Seq<char>,
    target: Seq<char>,
) -> Seq<char> {
    stamp + "  "@ + (level + " "@ + (target + ": "@ + (match line.message {
        Some(message) => message,
        None => seq![],
    } + line.kv + "\n"@)))
}

/// The text that `chrono` gives for a moment in UTC with microseconds, `None`
/// where the moment is out of its range.
pub uninterp spec fn rfc3339_text(secs: i64, nanos: u32) -> Option<Seq<char>>;

/// The `chrono::DateTime::<Utc>` of a Unix time, by its `to_rfc3339_opts`
/// with microseconds and a `Z`. The contract names the text.
#[verifier::external_body]
fn stamp_of(secs: i64, nanos: u32) -> (r: Option<String>)
    ensures
        text::optional_text(r) == rfc3339_text(secs, nanos),
{
    chrono::DateTime::<chrono::Utc>::from_timestamp(secs, nanos).map(
        |moment| moment.to_rfc3339_opts(chrono::SecondsFormat::Micros, true),
    )
}

impl LineVisitor {
    /// Take in one field.
    pub fn push(&mut self, name: &str, value: String)
        ensures
            final(self)@ == line_after(old(self)@, name@, value@),
    {
        if same_text(name, "message") {
            self.message = Some(value);
        } else if same_text(name, "session") {
            self.session = Some(value);
        } else if same_text(name, "session_id") {
            if self.session.is_none() {
                self.session = Some(value);
            }
        } else {
            let pair = concat2("=", value.as_str());
            let field = concat3(" ", name, pair.as_str());
            self.kv.append(field.as_str());
        }
    }

    /// The line of an event that happened at the moment that `stamp` shows.
    pub fn format(&self, stamp: &str, level: &str, target: &str) -> (r: String)
        ensures
            r@ == event_line(self@, stamp@, level@, target@),
    {
        let message = match &self.message {
            Some(message) => concat3(message.as_str(), self.kv.as_str(), "\n"),
            None => {
                proof {
                    reveal_strlit("");
                    assert(""@ =~= seq![]);
                }
                concat3("", self.kv.as_str(), "\n")
            },
        };
        let tail = concat3(target, ": ", message.as_str());
        let head = concat3(level, " ", tail.as_str());
        concat3(stamp, "  ", head.as_str())
    }

    /// The line of an event that happened at a Unix time, `None` where the
    /// time cannot be shown.
    pub fn format_at(&self, secs: i64, nanos: u32, level: &str, target: &str) -> (r: Option<String>)
        ensures
            text::optional_text(r) == (match rfc3339_text(secs, nanos) {
                Some(stamp) => Some(event_line(self@, stamp, level@, target@)),
                None => None,
            }),
    {
        match stamp_of(secs, nanos) {
            Some(stamp) => Some(self.format(stamp.as_str(), level, target)),
            None => None,
        }
    }
}

/// The first tag of a list.
pub open spec fn first_tag(tags: Seq<Option<Seq<char>>>) -> Option<Seq<char>>
    decreases tags.len(),
{
    if tags.len() == 0 {
        None
    } else if tags[0] is Some {
        tags[0]
    } else {
        first_tag(tags.drop_first())
    }
}

/// The models of the tags of some spans.
pub open spec fn tag_models(tags: Seq<Option<String>>) -> Seq<Option<Seq<char>>> {
    tags.map_values(|t: Option<String>| text::optional_text(t))
}

/// The session of an event: its own field, or else the tag of the outermost
/// span that has one. The tee's own events have none.
pub open spec fn event_session(
    target: Seq<char>,
    own: Option<Seq<char>>,
    scope: Seq<Option<Seq<char>>>,
) -> Option<Seq<char>> {
    if target == "acp.tee"@ {
        None
    } else if own is Some {
        own
    } else {
        first_tag(scope)
    }
}

fn session_from_scope(scope: &Vec<Option<String>>) -> (r: Option<String>)
    ensures
        text::optional_text(r) == first_tag(tag_models(scope@)),
{
    let ghost all = tag_models(scope@);
    let mut i: usize = 0;
    assert(all.skip(0) =~= all);
    while i < scope.len()
        invariant
            i <= scope.len(),
            all == tag_models(scope@),
            first_tag(all) == first_tag(all.skip(i as int)),
        decreases scope.len() - i,
    {
        assert(all.skip(i as int)[0] == text::optional_text(scope@[i as int]));
        if scope[i].is_some() {
            return copy_optional(&scope[i]);
        }
        assert(all.skip(i as int).drop_first() =~= all.skip(i + 1));
        i += 1;
    }
    None
}

/// Find the session that an event is routed to. `scope` holds the tags of the
/// spans around the event, from the root on.
pub fn route_event(target: &str, visitor: &LineVisitor, scope: &Vec<Option<String>>) -> (r: Option<
    String,
>)
    ensures
        text::optional_text(r) == event_session(target@, visitor@.session, tag_models(scope@)),
{
    if same_text(target, TEE_TARGET) {
        return None;
    }
    if visitor.session.is_some() {
        return copy_optional(&visitor.session);
    }
    session_from_scope(scope)
}

/// An event that names its session goes there, whatever spans are around it;
/// it reaches no other session.
pub proof fn own_field_wins(
    target: Seq<char>,
    own: Seq<char>,
    scope: Seq<Option<Seq<char>>>,
)
    requires
        target != "acp.tee"@,
    ensures
        event_session(target, Some(own), scope) == Some(own),
{
}

/// An event without a session of its own and outside of any tagged span is
/// dropped.
pub proof fn sessionless_events_are_dropped(target: Seq<char>, scope: Seq<Option<Seq<char>>>)
    requires
        forall|i: int| 0 <= i < scope.len() ==> #[trigger] scope[i] is None,
    ensures
        event_session(target, None, scope) is None,
    decreases scope.len(),
{
    if scope.len() > 0 {
        let rest = scope.drop_first();
        assert forall|i: int| 0 <= i < rest.len() implies #[trigger] rest[i] is None by {
            assert(rest[i] == scope[i + 1]);
        }
        sessionless_events_are_dropped(target, rest);
    }
}

/// An open writer: its session and when it was last used.
#[derive(Debug)]
struct OpenLog {
    session: String,
    last_used: u64,
}

/// What contracts say of an open writer.
pub struct OpenModel {
    pub session: Seq<char>,
    pub last_used: u64,
}

/// The books of the per-session writers.
#[derive(Debug)]
pub struct SessionTeeLayer {
    open: Vec<OpenLog>,
    /// Monotonic counter stamping each access; the smallest stamp is the
    /// least-recently-used entry to evict when the cap is reached.
    tick: u64,
}

/// What contracts say of the books.
pub struct TeeModel {
    pub open: Seq<OpenModel>,
    pub tick: u64,
}

spec fn open_models(open: Seq<OpenLog>) -> Seq<OpenModel> {
    open.map_values(|e: OpenLog| OpenModel { session: e.session@, last_used: e.last_used })
}

impl View for SessionTeeLayer {
    type V = TeeModel;

    closed spec fn view(&self) -> TeeModel {
        TeeModel { open: open_models(self.open@), tick: self.tick }
    }
}

/// No session has two writers, no two were used at the same time, none later
/// than now, and there are no more than the cap.
pub open spec fn tee_ok(tee: TeeModel) -> bool {
    &&& tee.open.len() <= MAX_OPEN_SESSION_LOGS
    &&& forall|i: int, j: int|
        0 <= i < j < tee.open.len() ==> (#[trigger] tee.open[i]).session != (
        #[trigger] tee.open[j]).session && tee.open[i].last_used != tee.open[j].last_used
    &&& forall|i: int| 0 <= i < tee.open.len() ==> (#[trigger] tee.open[i]).last_used <= tee.tick
}

/// What to do for a line of a session.
#[derive(Debug)]
pub enum WriterChoice {
    /// Its writer is open.
    Cached,
    /// Close the writer of `evict`, if any, open one for the session, and
    /// report that with [`SessionTeeLayer::opened`].
    Open { evict: Option<String> },
    /// Drop the line.
    Drop,
}

/// What contracts say of a choice.
pub enum ChoiceModel {
    Cached,
    Open { evict: Option<Seq<char>> },
    Drop,
}

impl View for WriterChoice {
    type V = ChoiceModel;

    open spec fn view(&self) -> ChoiceModel {
        match *self {
            WriterChoice::Cached => ChoiceModel::Cached,
            WriterChoice::Open { evict } => ChoiceModel::Open { evict: text::optional_text(evict) },
            WriterChoice::Drop => ChoiceModel::Drop,
        }
    }
}

/// The place of the writer of a session, or their number.
pub open spec fn open_place(open: Seq<OpenModel>, session: Seq<char>) -> nat
    decreases open.len(),
{
    if open.len() == 0 || open[0].session == session {
        0
    } else {
        1 + open_place(open.drop_first(), session)
    }
}

/// Whether `i` is the place of the idle writer that was not used for longest.
pub open spec fn is_oldest_idle(open: Seq<OpenModel>, idle: Seq<Seq<char>>, i: int) -> bool {
    &&& 0 <= i < open.len()
    &&& idle.contains(open[i].session)
    &&& forall|j: int|
        0 <= j < open.len() && idle.contains((#[trigger] open[j]).session) ==> open[i].last_used
            <= open[j].last_used
}

/// Whether a writer is idle.
pub open spec fn any_idle(open: Seq<OpenModel>, idle: Seq<Seq<char>>) -> bool {
    exists|i: int| 0 <= i < open.len() && idle.contains((#[trigger] open[i]).session)
}

/// What is done for a line of a session, and the books then. `path_ok` says
/// whether the session has a log path, `idle` which writers nobody is
/// writing with. Evicting a writer in flight would let two writers race on
/// one file, so where none is idle the line is dropped.
pub open spec fn writer_choice(
    tee: TeeModel,
    session: Seq<char>,
    path_ok: bool,
    idle: Seq<Seq<char>>,
    after: TeeModel,
    choice: ChoiceModel,
) -> bool {
    let now = (tee.tick + 1) as u64;
    let at = open_place(tee.open, session) as int;
    &&& after.tick == now
    &&& if at < tee.open.len() {
        &&& choice is Cached
        &&& after.open == tee.open.update(at, OpenModel { session, last_used: now })
    } else if !path_ok {
        &&& choice is Drop
        &&& after.open == tee.open
    } else if tee.open.len() < MAX_OPEN_SESSION_LOGS {
        &&& choice == (ChoiceModel::Open { evict: None })
        &&& after.open == tee.open
    } else if !any_idle(tee.open, idle) {
        &&& choice is Drop
        &&& after.open == tee.open
    } else {
        exists|i: int|
            {
                &&& #[trigger] is_oldest_idle(tee.open, idle, i)
                &&& choice == (ChoiceModel::Open { evict: Some(tee.open[i].session) })
                &&& after.open == tee.open.remove(i)
            }
    }
}

proof fn open_place_bounds(open: Seq<OpenModel>, session: Seq<char>)
    ensures
        open_place(open, session) <= open.len(),
        open_place(open, session) < open.len() ==> open[open_place(open, session) as int].session
            == session,
        forall|j: int|
            0 <= j < open_place(open, session) ==> (#[trigger] open[j]).session != session,
    decreases open.len(),
{
    if open.len() > 0 && open[0].session != session {
        let tail = open.drop_first();
        open_place_bounds(tail, session);
        assert forall|j: int| 0 <= j < open_place(open, session) implies (
        #[trigger] open[j]).session != session by {
            if j > 0 {
                assert(open[j] == tail[j - 1]);
            }
        }
    }
}

fn find_open(open: &Vec<OpenLog>, session: &str) -> (r: usize)
    ensures
        r == open_place(open_models(open@), session@),
        r <= open.len(),
{
    let ghost all = open_models(open@);
    let mut i: usize = 0;
    assert(all.skip(0) =~= all);
    while i < open.len() && !same_text(open[i].session.as_str(), session)
        invariant
            i <= open.len(),
            all == open_models(open@),
            open_place(all, session@) == i + open_place(all.skip(i as int), session@),
        decreases open.len() - i,
    {
        assert(all.skip(i as int).drop_first() =~= all.skip(i + 1));
        i += 1;
    }
    i
}

fn find_oldest_idle(open: &Vec<OpenLog>, idle: &Vec<String>) -> (r: Option<usize>)
    ensures
        match r {
            Some(i) => is_oldest_idle(open_models(open@), text::texts(idle@), i as int),
            None => !any_idle(open_models(open@), text::texts(idle@)),
        },
{
    let ghost all = open_models(open@);
    let ghost names = text::texts(idle@);
    let mut best: Option<usize> = None;
    let mut i: usize = 0;
    while i < open.len()
        invariant
            i <= open.len(),
            all == open_models(open@),
            names == text::texts(idle@),
            match best {
                Some(b) => b < i && names.contains(all[b as int].session) && forall|j: int|
                    0 <= j < i && names.contains((#[trigger] all[j]).session)
                        ==> all[b as int].last_used <= all[j].last_used,
                None => forall|j: int|
                    0 <= j < i ==> !names.contains((#[trigger] all[j]).session),
            },
        decreases open.len() - i,
    {
        if contains_text(idle, open[i].session.as_str()) {
            let better = match best {
                Some(b) => open[i].last_used < open[b].last_used,
                None => true,
            };
            if better {
                best = Some(i);
            }
        }
        i += 1;
    }
    best
}

impl SessionTeeLayer {
    #[verifier::type_invariant]
    spec fn well_formed(self) -> bool {
        tee_ok(self@)
    }

    /// The books without any writer.
    pub fn new() -> (r: Self)
        ensures
            r@ == (TeeModel { open: seq![], tick: 0 }),
            tee_ok(r@),
    {
        let r = SessionTeeLayer { open: Vec::new(), tick: 0 };
        assert(r@.open =~= seq![]);
        r
    }

    /// The counter of accesses.
    pub fn tick(&self) -> (r: u64)
        ensures
            r == self@.tick,
    {
        self.tick
    }

    /// Resolve the per-session writer, updating LRU bookkeeping.
    pub fn writer_for(&mut self, session: &str, path_ok: bool, idle: &Vec<String>) -> (r:
        WriterChoice)
        requires
            old(self)@.tick < u64::MAX,
        ensures
            writer_choice(
                old(self)@,
                session@,
                path_ok,
                text::texts(idle@),
                final(self)@,
                r@,
            ),
            tee_ok(final(self)@),
    {
        proof {
            use_type_invariant(&*self);
        }
        let ghost before = self@;
        let mut taken = SessionTeeLayer::new();
        std::mem::swap(self, &mut taken);
        let SessionTeeLayer { open, tick } = taken;
        let mut open = open;
        let now = tick + 1;
        let at = find_open(&open, session);
        proof {
            open_place_bounds(before.open, session@);
        }
        if at < open.len() {
            let entry = OpenLog { session: session.to_owned(), last_used: now };
            open.set(at, entry);
            assert(open_models(open@) =~= before.open.update(
                at as int,
                OpenModel { session: session@, last_used: now },
            ));
            *self = SessionTeeLayer { open, tick: now };
            return WriterChoice::Cached;
        }
        if !path_ok {
            *self = SessionTeeLayer { open, tick: now };
            return WriterChoice::Drop;
        }
        if open.len() < MAX_OPEN_SESSION_LOGS {
            *self = SessionTeeLayer { open, tick: now };
            return WriterChoice::Open { evict: None };
        }
        // At capacity: evict the oldest entry whose writer is idle. If every
        // cached writer is in flight, drop this event rather than open a
        // racing writer.
        match find_oldest_idle(&open, idle) {
            None => {
                *self = SessionTeeLayer { open, tick: now };
                WriterChoice::Drop
            },
            Some(i) => {
                let gone = open.remove(i);
                assert(open_models(open@) =~= before.open.remove(i as int));
                assert(is_oldest_idle(before.open, text::texts(idle@), i as int));
                *self = SessionTeeLayer { open, tick: now };
                WriterChoice::Open { evict: Some(gone.session) }
            },
        }
    }

    /// A writer was opened for the session that [`SessionTeeLayer::writer_for`]
    /// was just asked for. Without room, or where the session has one
    /// already, nothing changes and `false` comes back.
    pub fn opened(&mut self, session: &str) -> (r: bool)
        ensures
            r == (open_place(old(self)@.open, session@) >= old(self)@.open.len()
                && old(self)@.open.len() < MAX_OPEN_SESSION_LOGS && forall|i: int|
                0 <= i < old(self)@.open.len() ==> (#[trigger] old(self)@.open[i]).last_used
                    != old(self)@.tick),
            final(self)@ == (if r {
                TeeModel {
                    open: old(self)@.open.push(
                        OpenModel { session: session@, last_used: old(self)@.tick },
                    ),
                    ..old(self)@
                }
            } else {
                old(self)@
            }),
            tee_ok(final(self)@),
    {
        proof {
            use_type_invariant(&*self);
        }
        let ghost before = self@;
        let mut taken = SessionTeeLayer::new();
        std::mem::swap(self, &mut taken);
        let SessionTeeLayer { open, tick } = taken;
        let mut open = open;
        proof {
            open_place_bounds(before.open, session@);
        }
        let at = find_open(&open, session);
        let mut fresh = true;
        let mut i: usize = 0;
        while i < open.len()
            invariant
                i <= open.len(),
                before.open == open_models(open@),
                fresh <==> forall|j: int|
                    0 <= j < i ==> (#[trigger] before.open[j]).last_used != tick,
            decreases open.len() - i,
        {
            assert(before.open[i as int].last_used == open@[i as int].last_used);
            if open[i].last_used == tick {
                fresh = false;
            }
            i += 1;
        }
        if at < open.len() || open.len() >= MAX_OPEN_SESSION_LOGS || !fresh {
            *self = SessionTeeLayer { open, tick };
            return false;
        }
        open.push(OpenLog { session: session.to_owned(), last_used: tick });
        assert(open_models(open@) =~= before.open.push(
            OpenModel { session: session@, last_used: tick },
        ));
        *self = SessionTeeLayer { open, tick };
        true
    }
}

impl Default for SessionTeeLayer {
    fn default() -> (r: Self)
        ensures
            r@ == (TeeModel { open: seq![], tick: 0 }),
    {
        SessionTeeLayer::new()
    }
}

/// A writer that was just asked for can always be entered in the books.
pub proof fn opened_after_choice(
    tee: TeeModel,
    session: Seq<char>,
    path_ok: bool,
    idle: Seq<Seq<char>>,
    after: TeeModel,
    choice: ChoiceModel,
)
    requires
        tee_ok(tee),
        tee.tick < u64::MAX,
        writer_choice(tee, session, path_ok, idle, after, choice),
        choice is Open,
    ensures
        after.open.len() < MAX_OPEN_SESSION_LOGS,
        open_place(after.open, session) >= after.open.len(),
        forall|i: int|
            0 <= i < after.open.len() ==> (#[trigger] after.open[i]).last_used != after.tick,
{
    open_place_bounds(tee.open, session);
    open_place_bounds(after.open, session);
    let at = open_place(after.open, session) as int;
    assert forall|i: int| 0 <= i < after.open.len() implies (#[trigger] after.open[i]).last_used
        != after.tick by {
        if tee.open.len() < MAX_OPEN_SESSION_LOGS {
            assert(tee.open[i].last_used <= tee.tick);
        } else {
            let k = choose|k: int|
                {
                    &&& #[trigger] is_oldest_idle(tee.open, idle, k)
                    &&& choice == (ChoiceModel::Open { evict: Some(tee.open[k].session) })
                    &&& after.open == tee.open.remove(k)
                };
            let j = if i < k { i } else { i + 1 };
            assert(after.open[i] == tee.open[j]);
            assert(tee.open[j].last_used <= tee.tick);
        }
    }
    if at < after.open.len() {
        if tee.open.len() < MAX_OPEN_SESSION_LOGS {
            assert(tee.open[at].session != session);
        } else {
            let k = choose|k: int|
                {
                    &&& #[trigger] is_oldest_idle(tee.open, idle, k)
                    &&& choice == (ChoiceModel::Open { evict: Some(tee.open[k].session) })
                    &&& after.open == tee.open.remove(k)
                };
            let j = if at < k { at } else { at + 1 };
            assert(after.open[at] == tee.open[j]);
            assert(tee.open[j].session != session);
        }
    }
}

/// A writer in flight is never evicted, nor one that was used later than
/// another idle one.
pub proof fn eviction_is_least_recent_idle(
    tee: TeeModel,
    session: Seq<char>,
    path_ok: bool,
    idle: Seq<Seq<char>>,
    after: TeeModel,
    choice: ChoiceModel,
    i: int,
    j: int,
)
    requires
        tee_ok(tee),
        writer_choice(tee, session, path_ok, idle, after, choice),
        choice matches ChoiceModel::Open { evict: Some(gone) } && 0 <= i < tee.open.len()
            && tee.open[i].session == gone,
        0 <= j < tee.open.len(),
        idle.contains(tee.open[j].session),
    ensures
        idle.contains(tee.open[i].session),
        tee.open[i].last_used <= tee.open[j].last_used,
{
    let k = choose|k: int|
        {
            &&& #[trigger] is_oldest_idle(tee.open, idle, k)
            &&& choice == (ChoiceModel::Open { evict: Some(tee.open[k].session) })
            &&& after.open == tee.open.remove(k)
        };
    open_place_bounds(tee.open, session);
    if i < k {
        assert(tee.open[i].session != tee.open[k].session);
    } else if k < i {
        assert(tee.open[k].session != tee.open[i].session);
    }
}

proof fn choice_keeps_the_books(
    tee: TeeModel,
    session: Seq<char>,
    path_ok: bool,
    idle: Seq<Seq<char>>,
    after: TeeModel,
    choice: ChoiceModel,
)
    requires
        tee_ok(tee),
        tee.tick < u64::MAX,
        writer_choice(tee, session, path_ok, idle, after, choice),
    ensures
        tee_ok(after),
{
    open_place_bounds(tee.open, session);
    let at = open_place(tee.open, session) as int;
    if at < tee.open.len() {
        assert forall|i: int, j: int| 0 <= i < j < after.open.len() implies (
        #[trigger] after.open[i]).session != (#[trigger] after.open[j]).session
            && after.open[i].last_used != after.open[j].last_used by {
            assert(tee.open[i].session != tee.open[j].session);
            assert(tee.open[i].last_used <= tee.tick && tee.open[j].last_used <= tee.tick);
        }
    } else if choice is Open && tee.open.len() >= MAX_OPEN_SESSION_LOGS {
        let k = choose|k: int|
            {
                &&& #[trigger] is_oldest_idle(tee.open, idle, k)
                &&& choice == (ChoiceModel::Open { evict: Some(tee.open[k].session) })
                &&& after.open == tee.open.remove(k)
            };
        assert forall|i: int, j: int| 0 <= i < j < after.open.len() implies (
        #[trigger] after.open[i]).session != (#[trigger] after.open[j]).session
            && after.open[i].last_used != after.open[j].last_used by {
            let a = if i < k { i } else { i + 1 };
            let b = if j < k { j } else { j + 1 };
            assert(after.open[i] == tee.open[a] && after.open[j] == tee.open[b]);
            assert(tee.open[a].session != tee.open[b].session);
        }
        assert forall|i: int| 0 <= i < after.open.len() implies (#[trigger] after.open[i]).last_used
            <= after.tick by {
            let a = if i < k { i } else { i + 1 };
            assert(tee.open[a].last_used <= tee.tick);
        }
    }
}

/// One line that was asked a writer for: what was asked, the books before,
/// what was decided with which books, and whether a writer that was to be
/// opened could be.
pub struct Request {
    pub session: Seq<char>,
    pub path_ok: bool,
    pub idle: Seq<Seq<char>>,
    pub before: TeeModel,
    pub choice: ChoiceModel,
    pub decided: TeeModel,
    pub opened: bool,
}

/// The books after a request.
pub open spec fn books_after(request: Request) -> TeeModel {
    if request.choice is Open && request.opened {
        TeeModel {
            open: request.decided.open.push(
                OpenModel { session: request.session, last_used: request.decided.tick },
            ),
            ..request.decided
        }
    } else {
        request.decided
    }
}

/// Whether requests were made one after another, from empty books on.
pub open spec fn is_history(requests: Seq<Request>) -> bool {
    forall|i: int|
        0 <= i < requests.len() ==> {
            let r = #[trigger] requests[i];
            &&& r.before == books_before(requests, i)
            &&& writer_choice(r.before, r.session, r.path_ok, r.idle, r.decided, r.choice)
        }
}

/// The books before a request of a history.
pub open spec fn books_before(requests: Seq<Request>, i: int) -> TeeModel {
    if i == 0 {
        TeeModel { open: seq![], tick: 0 }
    } else {
        books_after(requests[i - 1])
    }
}

/// Whether `j` is the last of the first `i` requests that was for a session.
pub open spec fn is_last_request(
    requests: Seq<Request>,
    i: int,
    session: Seq<char>,
    j: int,
) -> bool {
    &&& 0 <= j < i
    &&& requests[j].session == session
    &&& forall|m: int| j < m < i ==> (#[trigger] requests[m]).session != session
}

/// Whether every writer is stamped with the last of the first `i` requests for
/// its session.
pub open spec fn stamped(requests: Seq<Request>, i: int, open: Seq<OpenModel>) -> bool {
    forall|k: int|
        0 <= k < open.len() ==> is_last_request(
            requests,
            i,
            (#[trigger] open[k]).session,
            open[k].last_used - 1,
        )
}

proof fn stamp_outlives(requests: Seq<Request>, i: int, session: Seq<char>, j: int)
    requires
        0 <= i < requests.len(),
        is_last_request(requests, i, session, j),
        requests[i].session != session,
    ensures
        is_last_request(requests, i + 1, session, j),
{
}

proof fn decision_keeps_stamps(requests: Seq<Request>, i: int)
    requires
        0 <= i < requests.len(),
        i < u64::MAX,
        ({
            let r = requests[i];
            &&& tee_ok(r.before)
            &&& r.before.tick == i
            &&& stamped(requests, i, r.before.open)
            &&& writer_choice(r.before, r.session, r.path_ok, r.idle, r.decided, r.choice)
        }),
    ensures
        stamped(requests, i + 1, requests[i].decided.open),
{
    let r = requests[i];
    let open = r.before.open;
    let decided = r.decided.open;
    open_place_bounds(open, r.session);
    let at = open_place(open, r.session) as int;
    assert forall|k: int| 0 <= k < decided.len() implies is_last_request(
        requests,
        i + 1,
        (#[trigger] decided[k]).session,
        decided[k].last_used - 1,
    ) by {
        if at < open.len() {
            if k != at {
                assert(decided[k] == open[k]);
                if k < at {
                    assert(open[k].session != open[at].session);
                } else {
                    assert(open[at].session != open[k].session);
                }
                stamp_outlives(requests, i, open[k].session, open[k].last_used - 1);
            } else {
                assert(is_last_request(requests, i + 1, r.session, i));
            }
        } else {
            let from = if r.choice is Open && open.len() >= MAX_OPEN_SESSION_LOGS {
                let gone = choose|gone: int|
                    {
                        &&& #[trigger] is_oldest_idle(open, r.idle, gone)
                        &&& r.choice == (ChoiceModel::Open { evict: Some(open[gone].session) })
                        &&& decided == open.remove(gone)
                    };
                if k < gone {
                    k
                } else {
                    k + 1
                }
            } else {
                k
            };
            assert(decided[k] == open[from]);
            assert(open[from].session != r.session);
            stamp_outlives(requests, i, open[from].session, open[from].last_used - 1);
        }
    }
}

proof fn entry_keeps_the_books(requests: Seq<Request>, i: int)
    requires
        0 <= i < requests.len(),
        i < u64::MAX,
        ({
            let r = requests[i];
            &&& r.decided.tick == i + 1
            &&& tee_ok(r.decided)
            &&& stamped(requests, i + 1, r.decided.open)
            &&& r.choice is Open ==> {
                &&& r.decided.open.len() < MAX_OPEN_SESSION_LOGS
                &&& open_place(r.decided.open, r.session) >= r.decided.open.len()
                &&& forall|k: int|
                    0 <= k < r.decided.open.len() ==> (#[trigger] r.decided.open[k]).last_used
                        != r.decided.tick
            }
        }),
    ensures
        tee_ok(books_after(requests[i])),
        stamped(requests, i + 1, books_after(requests[i]).open),
{
    let r = requests[i];
    let decided = r.decided.open;
    let after = books_after(r).open;
    if r.choice is Open && r.opened {
        open_place_bounds(decided, r.session);
        assert forall|k: int, m: int| 0 <= k < m < after.len() implies (
        #[trigger] after[k]).session != (#[trigger] after[m]).session && after[k].last_used
            != after[m].last_used by {
            assert(after[k] == decided[k]);
            if m < decided.len() {
                assert(after[m] == decided[m]);
            }
        }
        assert forall|k: int| 0 <= k < after.len() implies is_last_request(
            requests,
            i + 1,
            (#[trigger] after[k]).session,
            after[k].last_used - 1,
        ) && after[k].last_used <= r.decided.tick by {
            if k < decided.len() {
                assert(after[k] == decided[k]);
            } else {
                assert(is_last_request(requests, i + 1, r.session, i));
            }
        }
    }
}

proof fn books_reflect_requests(requests: Seq<Request>, i: int)
    requires
        is_history(requests),
        requests.len() < u64::MAX,
        0 <= i <= requests.len(),
    ensures
        tee_ok(books_before(requests, i)),
        books_before(requests, i).tick == i,
        stamped(requests, i, books_before(requests, i).open),
    decreases i,
{
    if i > 0 {
        let r = requests[i - 1];
        books_reflect_requests(requests, i - 1);
        choice_keeps_the_books(r.before, r.session, r.path_ok, r.idle, r.decided, r.choice);
        if r.choice is Open {
            opened_after_choice(r.before, r.session, r.path_ok, r.idle, r.decided, r.choice);
        }
        decision_keeps_stamps(requests, i - 1);
        entry_keeps_the_books(requests, i - 1);
    }
}

/// Whether a request closes the writer at a place: it is idle, and no idle
/// writer's session was last asked for before it.
pub open spec fn evicts(requests: Seq<Request>, i: int, k: int) -> bool {
    let r = requests[i];
    let open = r.before.open;
    &&& 0 <= k < open.len()
    &&& r.choice == (ChoiceModel::Open { evict: Some(open[k].session) })
    &&& r.decided.open == open.remove(k)
    &&& r.idle.contains(open[k].session)
    &&& forall|m: int, a: int, b: int|
        0 <= m < open.len() && r.idle.contains((#[trigger] open[m]).session) && #[trigger]
            is_last_request(requests, i, open[k].session, a) && #[trigger] is_last_request(
            requests,
            i,
            open[m].session,
            b,
        ) ==> a <= b
}

/// Over any sequence of requests: never more writers are open than the cap
/// allows and never two for one session; a session whose writer is open gets
/// that writer again; a session without a log path gets none and costs no
/// other its writer; at the cap the writer goes that is idle and whose last
/// request is the longest ago, and where none is idle the line is dropped and
/// every writer stays.
pub proof fn writers_over_time(requests: Seq<Request>, i: int)
    requires
        is_history(requests),
        requests.len() < u64::MAX,
        0 <= i < requests.len(),
    ensures
        ({
            let r = requests[i];
            let open = r.before.open;
            let known = exists|k: int| 0 <= k < open.len() && (#[trigger] open[k]).session
                == r.session;
            let full = open.len() >= MAX_OPEN_SESSION_LOGS;
            &&& tee_ok(r.before) && tee_ok(books_after(r))
            &&& stamped(requests, i, open)
            &&& known ==> r.choice is Cached
            &&& !known && !r.path_ok ==> r.choice is Drop
            &&& !known && r.path_ok && full && !any_idle(open, r.idle) ==> r.choice is Drop
            &&& r.choice is Drop ==> books_after(r).open == open
            &&& !known && r.path_ok && !full ==> r.choice == (ChoiceModel::Open { evict: None })
            &&& !known && r.path_ok && full && any_idle(open, r.idle) ==> exists|k: int|
                #[trigger] evicts(requests, i, k)
        }),
{
    books_reflect_requests(requests, i);
    books_reflect_requests(requests, i + 1);
    let r = requests[i];
    let open = r.before.open;
    open_place_bounds(open, r.session);
    if exists|k: int| 0 <= k < open.len() && (#[trigger] open[k]).session == r.session {
        let k = choose|k: int| 0 <= k < open.len() && (#[trigger] open[k]).session == r.session;
        assert(open_place(open, r.session) <= k);
    } else if open_place(open, r.session) < open.len() {
        assert(open[open_place(open, r.session) as int].session == r.session);
    } else if r.path_ok && open.len() >= MAX_OPEN_SESSION_LOGS && any_idle(open, r.idle) {
        let k = choose|k: int|
            {
                &&& #[trigger] is_oldest_idle(open, r.idle, k)
                &&& r.choice == (ChoiceModel::Open { evict: Some(open[k].session) })
                &&& r.decided.open == open.remove(k)
            };
        assert(evicts(requests, i, k));
    }
}

/// Quotes come off both ends of a text and nothing else does: what is left
/// neither starts nor ends with one.
pub proof fn unquoting_takes_quotes_alone(
    left: Seq<char>,
    middle: Seq<char>,
    right: Seq<char>,
)
    requires
        forall|i: int| 0 <= i < left.len() ==> #[trigger] left[i] == '"',
        forall|i: int| 0 <= i < right.len() ==> #[trigger] right[i] == '"',
        middle.len() > 0 ==> middle[0] != '"' && middle[middle.len() - 1] != '"',
    ensures
        unquoted(left + middle + right) == middle,
{
    quotes_off_the_start(left, middle + right);
    assert(left + middle + right =~= left + (middle + right));
    if middle.len() == 0 {
        assert(middle + right =~= right);
        assert(right + Seq::<char>::empty() =~= right);
        quotes_off_the_start(right, Seq::empty());
        assert(after_quotes(right) =~= Seq::<char>::empty());
        assert(after_quotes(left + right) =~= Seq::<char>::empty());
        assert(unquoted(left + middle + right) =~= middle);
    } else {
        assert((middle + right)[0] == middle[0]);
        assert(after_quotes(middle + right) == middle + right);
        quotes_off_the_end(middle, right);
    }
}

proof fn quotes_off_the_start(quotes: Seq<char>, rest: Seq<char>)
    requires
        forall|i: int| 0 <= i < quotes.len() ==> #[trigger] quotes[i] == '"',
    ensures
        after_quotes(quotes + rest) == after_quotes(rest),
    decreases quotes.len(),
{
    if quotes.len() == 0 {
        assert(quotes + rest =~= rest);
    } else {
        assert((quotes + rest)[0] == quotes[0]);
        let tail = quotes.drop_first();
        assert((quotes + rest).drop_first() =~= tail + rest);
        assert forall|i: int| 0 <= i < tail.len() implies #[trigger] tail[i] == '"' by {
            assert(tail[i] == quotes[i + 1]);
        }
        quotes_off_the_start(tail, rest);
    }
}

proof fn quotes_off_the_end(rest: Seq<char>, quotes: Seq<char>)
    requires
        forall|i: int| 0 <= i < quotes.len() ==> #[trigger] quotes[i] == '"',
        rest.len() > 0,
        rest[rest.len() - 1] != '"',
    ensures
        before_quotes(rest + quotes) == rest,
    decreases quotes.len(),
{
    if quotes.len() == 0 {
        assert(rest + quotes =~= rest);
    } else {
        let whole = rest + quotes;
        assert(whole.last() == quotes[quotes.len() - 1]);
        let head = quotes.drop_last();
        assert(whole.drop_last() =~= rest + head);
        assert forall|i: int| 0 <= i < head.len() implies #[trigger] head[i] == '"' by {
            assert(head[i] == quotes[i]);
        }
        quotes_off_the_end(rest, head);
    }
}

/// A field `session` always names the session, a field `session_id` only where
/// none is known yet, and no other field names one.
pub proof fn session_fields_name_the_session(
    session: Option<Seq<char>>,
    name: Seq<char>,
    value: Seq<char>,
)
    ensures
        session_after(session, "session"@, value) == Some(value),
        session is None ==> session_after(session, "session_id"@, value) == Some(value),
        session is Some ==> session_after(session, "session_id"@, value) == session,
        name != "session"@ && name != "session_id"@ ==> session_after(session, name, value)
            == session,
{
    reveal_strlit("session");
    reveal_strlit("session_id");
    assert("session"@.len() == 7 && "session_id"@.len() == 10);
}

/// The fields of an event that are neither its message nor its session are
/// listed one after another, each as a blank, its name, an equals sign and its
/// value; the message and the session are never among them.
pub proof fn other_fields_are_listed(
    a: Seq<(Seq<char>, Seq<char>)>,
    b: Seq<(Seq<char>, Seq<char>)>,
    name: Seq<char>,
    value: Seq<char>,
)
    ensures
        other_fields(a + b) == other_fields(a) + other_fields(b),
        name == "message"@ || name == "session"@ || name == "session_id"@ ==> other_fields(
            seq![(name, value)],
        ).len() == 0,
        name != "message"@ && name != "session"@ && name != "session_id"@ ==> other_fields(
            seq![(name, value)],
        ) == " "@ + name + "="@ + value,
    decreases b.len(),
{
    reveal_with_fuel(other_fields, 2);
    let one = seq![(name, value)];
    assert(one.drop_last() =~= Seq::<(Seq<char>, Seq<char>)>::empty());
    if name != "message"@ && name != "session"@ && name != "session_id"@ {
        assert(other_fields(one) =~= " "@ + name + "="@ + value);
    }
    if b.len() == 0 {
        assert(a + b =~= a);
        assert(other_fields(a) + other_fields(b) =~= other_fields(a));
    } else {
        assert((a + b).drop_last() =~= a + b.drop_last());
        other_fields_are_listed(a, b.drop_last(), name, value);
        assert(other_fields(a + b) =~= other_fields(a) + other_fields(b));
    }
}

/// The value under a name is that of the last field of that name, or of the
/// first, whichever is asked for.
pub proof fn values_are_found_by_name(
    before: Seq<(Seq<char>, Seq<char>)>,
    after: Seq<(Seq<char>, Seq<char>)>,
    name: Seq<char>,
    value: Seq<char>,
)
    ensures
        (forall|i: int| 0 <= i < after.len() ==> (#[trigger] after[i]).0 != name) ==> last_value(
            before + seq![(name, value)] + after,
            name,
        ) == Some(value),
        (forall|i: int| 0 <= i < before.len() ==> (#[trigger] before[i]).0 != name) ==> first_value(
            before + seq![(name, value)] + after,
            name,
        ) == Some(value),
        (forall|i: int| 0 <= i < before.len() ==> (#[trigger] before[i]).0 != name) ==> last_value(
            before,
            name,
        ) is None && first_value(before, name) is None,
    decreases before.len() + after.len(),
{
    let whole = before + seq![(name, value)] + after;
    if after.len() > 0 {
        assert(whole.drop_last() =~= before + seq![(name, value)] + after.drop_last());
        assert(whole.last() == after[after.len() - 1]);
        values_are_found_by_name(before, after.drop_last(), name, value);
        if forall|i: int| 0 <= i < after.len() ==> (#[trigger] after[i]).0 != name {
            assert forall|i: int| 0 <= i < after.drop_last().len() implies (
            #[trigger] after.drop_last()[i]).0 != name by {
                assert(after.drop_last()[i] == after[i]);
            }
        }
    } else {
        assert(whole =~= before.push((name, value)));
        assert(whole.drop_last() =~= before);
        assert(whole.last() == (name, value));
        if before.len() > 0 {
            let head = before.drop_last();
            values_are_found_by_name(head, after, name, value);
            if forall|i: int| 0 <= i < before.len() ==> (#[trigger] before[i]).0 != name {
                assert forall|i: int| 0 <= i < head.len() implies (#[trigger] head[i]).0 != name by {
                    assert(head[i] == before[i]);
                }
                assert(before[before.len() - 1].0 != name);
            }
        }
    }
}

/// The line of an event is the stamp, two blanks, the level, a blank, the
/// target, a colon and a blank, then the message, which may be missing, then
/// every other field, whether or not there is a message, and one line feed.
pub proof fn lines_hold_the_message_and_the_fields(
    fields: Seq<(Seq<char>, Seq<char>)>,
    stamp: Seq<char>,
    level: Seq<char>,
    target: Seq<char>,
)
    ensures
        event_line(line_of(fields), stamp, level, target) == stamp + "  "@ + level + " "@ + target
            + ": "@ + (match last_value(fields, "message"@) {
            Some(message) => message,
            None => Seq::empty(),
        }) + other_fields(fields) + "\n"@,
        last_value(fields, "message"@) matches Some(message) ==> event_line(
            line_of(fields),
            stamp,
            level,
            target,
        ) == stamp + "  "@ + level + " "@ + target + ": "@ + message + other_fields(fields) + "\n"@,
{
    fields_are_told_apart(fields);
    let message = match last_value(fields, "message"@) {
        Some(message) => message,
        None => Seq::<char>::empty(),
    };
    assert(event_line(line_of(fields), stamp, level, target) =~= stamp + "  "@ + level + " "@
        + target + ": "@ + message + other_fields(fields) + "\n"@);
}

/// Each field of an event changes its line in one way: a message becomes the
/// message, a session the session, and any other field is added behind the
/// others.
pub proof fn fields_are_taken_in_one_by_one(
    line: LineModel,
    name: Seq<char>,
    value: Seq<char>,
    stamp: Seq<char>,
    level: Seq<char>,
    target: Seq<char>,
)
    ensures
        ({
            let after = line_after(line, name, value);
            let shown = event_line(line, stamp, level, target);
            &&& name == "message"@ ==> after.message == Some(value) && after.session == line.session
                && after.kv == line.kv
            &&& name == "session"@ ==> after.session == Some(value) && after.message == line.message
                && after.kv == line.kv
            &&& name == "session_id"@ ==> after.session == (if line.session is Some {
                line.session
            } else {
                Some(value)
            }) && after.message == line.message && after.kv == line.kv
            &&& name != "message"@ && name != "session"@ && name != "session_id"@ ==> after.session
                == line.session && after.message == line.message && event_line(
                after,
                stamp,
                level,
                target,
            ) == shown.drop_last() + " "@ + name + "="@ + value + "\n"@
        }),
{
    reveal_strlit("session");
    reveal_strlit("session_id");
    reveal_strlit("message");
    reveal_strlit("\n");
    assert("session"@.len() == 7 && "session_id"@.len() == 10 && "message"@.len() == 7);
    assert("session"@[0] == 's' && "message"@[0] == 'm');
    assert("\n"@.len() == 1);
    let after = line_after(line, name, value);
    if name != "message"@ && name != "session"@ && name != "session_id"@ {
        assert(event_line(after, stamp, level, target) =~= event_line(
            line,
            stamp,
            level,
            target,
        ).drop_last() + " "@ + name + "="@ + value + "\n"@);
    }
}

/// An event that names no session goes to that of the outermost tagged span
/// around it; one of the tee itself goes nowhere.
pub proof fn the_outermost_tag_counts(
    target: Seq<char>,
    own: Option<Seq<char>>,
    scope: Seq<Option<Seq<char>>>,
    i: int,
)
    ensures
        event_session("acp.tee"@, own, scope) is None,
        target != "acp.tee"@ && own is Some ==> event_session(target, own, scope) == own,
        target != "acp.tee"@ && own is None && 0 <= i < scope.len() && scope[i] is Some && (forall|
            j: int,
        |
            0 <= j < i ==> #[trigger] scope[j] is None) ==> event_session(target, own, scope)
            == scope[i],
    decreases scope.len(),
{
    if 0 < i < scope.len() && (forall|j: int| 0 <= j < i ==> #[trigger] scope[j] is None) {
        let rest = scope.drop_first();
        assert(scope[0] is None);
        assert forall|j: int| 0 <= j < i - 1 implies #[trigger] rest[j] is None by {
            assert(rest[j] == scope[j + 1]);
        }
        assert(rest[i - 1] == scope[i]);
        the_outermost_tag_counts(target, own, rest, i - 1);
    }
}

/// What a line of a session does to the writers: one that is open is used again
/// and stamped anew, every other one staying as it was; without a log path, and
/// where sixty-four are open and none is idle, the line is dropped and nothing
/// changes; a new one is opened without a loss below sixty-four, and at
/// sixty-four in place of the idle one that was not used for longest.
pub proof fn writers_are_chosen_by_use(
    tee: TeeModel,
    session: Seq<char>,
    path_ok: bool,
    idle: Seq<Seq<char>>,
    after: TeeModel,
    choice: ChoiceModel,
    at: int,
)
    requires
        tee.tick < u64::MAX,
        writer_choice(tee, session, path_ok, idle, after, choice),
    ensures
        after.tick == tee.tick + 1,
        0 <= at < tee.open.len() && tee.open[at].session == session && (forall|j: int|
            0 <= j < at ==> (#[trigger] tee.open[j]).session != session) ==> choice is Cached
            && after.open.len() == tee.open.len() && after.open[at].session == session
            && after.open[at].last_used == after.tick && (forall|j: int|
            0 <= j < tee.open.len() && j != at ==> #[trigger] after.open[j] == tee.open[j]),
        (forall|j: int| 0 <= j < tee.open.len() ==> (#[trigger] tee.open[j]).session != session)
            ==> ({
            let idles = exists|j: int|
                0 <= j < tee.open.len() && idle.contains((#[trigger] tee.open[j]).session);
            &&& !path_ok ==> choice is Drop && after.open == tee.open
            &&& path_ok && tee.open.len() < 64 ==> choice == (ChoiceModel::Open { evict: None })
                && after.open == tee.open
            &&& path_ok && tee.open.len() >= 64 && !idles ==> choice is Drop && after.open
                == tee.open
            &&& path_ok && tee.open.len() >= 64 && idles ==> exists|i: int|
                0 <= i < tee.open.len() && idle.contains((#[trigger] tee.open[i]).session) && choice
                    == (ChoiceModel::Open { evict: Some(tee.open[i].session) }) && after.open
                    == tee.open.remove(i) && forall|j: int|
                    0 <= j < tee.open.len() && idle.contains((#[trigger] tee.open[j]).session)
                        ==> tee.open[i].last_used <= tee.open[j].last_used
        }),
{
    open_place_bounds(tee.open, session);
    let place = open_place(tee.open, session) as int;
    if 0 <= at < tee.open.len() && tee.open[at].session == session && (forall|j: int|
        0 <= j < at ==> (#[trigger] tee.open[j]).session != session) {
        if place < at {
            assert(tee.open[place].session != session);
        }
        if at < place {
            assert(tee.open[at].session != session);
        }
    }
    if forall|j: int| 0 <= j < tee.open.len() ==> (#[trigger] tee.open[j]).session != session {
        if place < tee.open.len() {
            assert(tee.open[place].session != session);
        }
        if path_ok && tee.open.len() >= 64 && any_idle(tee.open, idle) {
            let i = choose|i: int|
                {
                    &&& #[trigger] is_oldest_idle(tee.open, idle, i)
                    &&& choice == (ChoiceModel::Open { evict: Some(tee.open[i].session) })
                    &&& after.open == tee.open.remove(i)
                };
            assert(idle.contains(tee.open[i].session));
        }
    }
}

/// At most sixty-four writers are open, no two for one session and no two used
/// at the same time, and none was used later than now.
pub proof fn books_keep_their_promises(tee: TeeModel, i: int, j: int)
    requires
        tee_ok(tee),
    ensures
        tee.open.len() <= 64,
        0 <= i < j < tee.open.len() ==> tee.open[i].session != tee.open[j].session
            && tee.open[i].last_used != tee.open[j].last_used,
        0 <= i < tee.open.len() ==> tee.open[i].last_used <= tee.tick,
{
}

/// What contracts say of tags, of the parts of a line and of what is done for it
/// is all that they hold.
pub proof fn tee_models_are_faithful(
    tags: Seq<Option<String>>,
    i: int,
    line: LineVisitor,
    evict: Option<String>,
)
    ensures
        tag_models(tags).len() == tags.len(),
        0 <= i < tags.len() ==> tag_models(tags)[i] == text::optional_text(tags[i]),
        line@.session == text::optional_text(line.session),
        line@.message == text::optional_text(line.message),
        line@.kv == line.kv@,
        WriterChoice::Cached@ is Cached,
        (WriterChoice::Open { evict })@ == (ChoiceModel::Open { evict: text::optional_text(evict) }),
        WriterChoice::Drop@ is Drop,
{
}

} // verus!
