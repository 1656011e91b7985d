//! Client-side prompt queue for the TUI structured view composer.
//!
//! The user can keep typing while a turn is in flight, the prompts park here,
//! and they drain when the agent goes idle. This is pure local state, never
//! persisted and never round-tripped through the daemon. The view layer owns
//! the busy-detection and the actual POST; this module is the pure data
//! structure plus the drain-batching policy.

use vstd::prelude::*;

use crate::text;
use crate::text::chars_of;
use crate::text::count_leading_space;
use crate::text::has_prefix_at;
use crate::text::is_white_space;
use crate::text::join_texts;

verus! {

/// How queued prompts drain.
#[derive(Debug, Clone, Copy, PartialEq, Eq, Structural)]
pub enum QueueDrainMode {
    /// One response per entry.
    Serial,
    /// One follow-up for a run of entries.
    Combined,
}

/// FIFO of queued prompt strings awaiting a drain.
#[derive(Debug)]
pub struct PromptQueue {
    items: Vec<String>,
}

impl View for PromptQueue {
    type V = Seq<Seq<char>>;

    /// The prompts, the oldest first.
    closed spec fn view(&self) -> Seq<Seq<char>> {
        text::texts(self.items@)
    }
}

impl Default for PromptQueue {
    fn default() -> (r: Self)
        ensures
            r@ == Seq::<Seq<char>>::empty(),
    {
        let r = PromptQueue { items: Vec::new() };
        assert(r@ =~= Seq::empty());
        r
    }
}

/// The commands that clear the context.
pub open spec fn clear_aliases() -> Seq<Seq<char>> {
    seq!["/clear"@, "/new"@]
}

/// Whether a text is a command, alone or with an argument.
pub open spec fn is_command(text: Seq<char>, command: Seq<char>) -> bool {
    command.is_prefix_of(text) && (text.len() == command.len() || text::white_space(
        text[command.len() as int],
    ))
}

/// Whether an entry clears the context: behind leading white space stands one
/// of the clear commands, alone or with an argument.
pub open spec fn clear_boundary(text: Seq<char>) -> bool {
    exists|i: int|
        0 <= i < clear_aliases().len() && is_command(
            text::trimmed_start(text),
            #[trigger] clear_aliases()[i],
        )
}

/// The number of entries before the first one that clears the context.
pub open spec fn run_length(items: Seq<Seq<char>>) -> nat
    decreases items.len(),
{
    if items.len() == 0 || clear_boundary(items[0]) {
        0
    } else {
        1 + run_length(items.drop_first())
    }
}

/// The next batch: the text to send, and how many entries it consumes.
pub open spec fn batch_of(items: Seq<Seq<char>>, mode: QueueDrainMode) -> Option<
    (Seq<char>, nat),
> {
    if items.len() == 0 {
        None
    } else if mode is Serial || clear_boundary(items[0]) {
        Some((items[0], 1))
    } else {
        Some((text::joined(items.take(run_length(items) as int), "\n\n"@), run_length(items)))
    }
}

/// Whether a queued entry is a context-clearing command that must drain
/// alone rather than be joined into a combined batch. The TUI structured view
/// can attach to any agent, so this is the union of the per-agent clear
/// aliases. Leading whitespace is tolerated and a trailing argument
/// (`/clear --hard`) still counts.
pub fn is_clear_boundary(text: &str) -> (r: bool)
    ensures
        r == clear_boundary(text@),
{
    let chars = chars_of(text);
    let start = count_leading_space(&chars);
    let ghost trimmed = text::trimmed_start(text@);
    assert(trimmed =~= chars@.skip(start as int));
    let clear = is_command_at(&chars, start, "/clear");
    let new = is_command_at(&chars, start, "/new");
    proof {
        assert(clear_aliases()[0] == "/clear"@);
        assert(clear_aliases()[1] == "/new"@);
        if clear_boundary(text@) {
            let i = choose|i: int|
                0 <= i < clear_aliases().len() && is_command(
                    trimmed,
                    #[trigger] clear_aliases()[i],
                );
            assert(i == 0 || i == 1);
        }
    }
    clear || new
}

fn is_command_at(chars: &Vec<char>, at: usize, command: &str) -> (r: bool)
    requires
        at <= chars.len(),
    ensures
        r == is_command(chars@.skip(at as int), command@),
{
    if !has_prefix_at(chars, at, command) {
        return false;
    }
    let ghost rest = chars@.skip(at as int);
    let n = command.unicode_len();
    assert(command@.is_prefix_of(rest));
    if chars.len() - at == n {
        return true;
    }
    assert(rest[n as int] == chars@[at + n]);
    is_white_space(chars[at + n])
}

impl PromptQueue {
    pub fn is_empty(&self) -> (r: bool)
        ensures
            r == (self@.len() == 0),
    {
        self.items.len() == 0
    }

    pub fn len(&self) -> (r: usize)
        ensures
            r == self@.len(),
    {
        self.items.len()
    }

    /// The queued prompts, the oldest first.
    pub fn iter(&self) -> (r: std::slice::Iter<'_, String>)
        ensures
            text::texts(vstd::std_specs::slice::into_iter_elts(r)) == self@,
    {
        self.items.iter()
    }

    /// Append a prompt to the back of the queue.
    pub fn push(&mut self, text: String)
        ensures
            final(self)@ == old(self)@.push(text@),
    {
        let ghost before = self@;
        self.items.push(text);
        assert(self@ =~= before.push(text@));
    }

    /// Borrow the queued entry at `index` (0 = oldest / front), or `None`
    /// when out of range. Used by the composer's ArrowUp/ArrowDown recall
    /// to load a queued prompt back for editing.
    pub fn get(&self, index: usize) -> (r: Option<&String>)
        ensures
            match r {
                Some(s) => index < self@.len() && s@ == self@[index as int],
                None => index >= self@.len(),
            },
    {
        if index < self.items.len() {
            Some(&self.items[index])
        } else {
            None
        }
    }

    /// Replace the entry at `index` in place, preserving its queue
    /// position. Returns `false` when the index is out of range, e.g. the
    /// browsed entry drained between recall and submit; the caller then
    /// treats the edited text as a fresh prompt.
    pub fn replace(&mut self, index: usize, text: String) -> (r: bool)
        ensures
            r == (index < old(self)@.len()),
            final(self)@ == (if r {
                old(self)@.update(index as int, text@)
            } else {
                old(self)@
            }),
    {
        let ghost before = self@;
        if index < self.items.len() {
            let ghost model = text@;
            self.items.set(index, text);
            assert(self@ =~= before.update(index as int, model));
            true
        } else {
            false
        }
    }

    /// Drop the whole queue (the user hit the clear-queue hotkey).
    pub fn clear(&mut self)
        ensures
            final(self)@ == Seq::<Seq<char>>::empty(),
    {
        self.items.clear();
        assert(self@ =~= Seq::empty());
    }

    /// Remove the first `n` entries. Called only after the drain POST for
    /// those entries succeeds, so a failed send leaves the queue intact.
    pub fn drop_front(&mut self, n: usize)
        ensures
            final(self)@ == (if n <= old(self)@.len() {
                old(self)@.skip(n as int)
            } else {
                Seq::empty()
            }),
    {
        let ghost before = self.items@;
        let n = if n < self.items.len() {
            n
        } else {
            self.items.len()
        };
        let tail = self.items.split_off(n);
        self.items = tail;
        assert(self@ =~= text::texts(before).skip(n as int));
    }

    /// Peek the next batch to drain for `mode`, returning the prompt text
    /// to POST and the number of queued entries it consumes. Does NOT
    /// mutate the queue: the caller removes the consumed entries via
    /// [`PromptQueue::drop_front`] only once the POST succeeds, so a network
    /// failure never silently drops prompts. `None` when the queue is empty.
    ///
    /// - `Serial`: the head fires alone, one response per entry.
    /// - `Combined`: the leading run of non-boundary entries is joined
    ///   with a blank line into one follow-up. A leading clear-command
    ///   entry (`/clear` / `/new`) fires alone so it is never glued to
    ///   adjacent prose, which would corrupt slash-command parsing.
    pub fn next_batch(&self, mode: QueueDrainMode) -> (r: Option<(String, usize)>)
        ensures
            (match r {
                Some((text, count)) => Some((text@, count as nat)),
                None => None,
            }) == batch_of(self@, mode),
    {
        if self.items.len() == 0 {
            return None;
        }
        let head = &self.items[0];
        assert(head@ == self@[0]);
        match mode {
            QueueDrainMode::Serial => Some((head.clone(), 1)),
            QueueDrainMode::Combined => {
                if is_clear_boundary(head.as_str()) {
                    return Some((head.clone(), 1));
                }
                let ghost all = self@;
                let mut count: usize = 0;
                assert(all.skip(0) =~= all);
                while count < self.items.len() && !is_clear_boundary(self.items[count].as_str())
                    invariant
                        count <= self.items.len(),
                        all == self@,
                        run_length(all) == count + run_length(all.skip(count as int)),
                    decreases self.items.len() - count,
                {
                    assert(all.skip(count as int)[0] == self.items@[count as int]@);
                    assert(all.skip(count as int).drop_first() =~= all.skip(count + 1));
                    count += 1;
                }
                if count < self.items.len() {
                    assert(all.skip(count as int)[0] == self.items@[count as int]@);
                }
                Some((join_texts(&self.items, count, "\n\n"), count))
            },
        }
    }
}

proof fn run_is_clear(items: Seq<Seq<char>>)
    ensures
        run_length(items) <= items.len(),
        forall|i: int| 0 <= i < run_length(items) ==> !clear_boundary(#[trigger] items[i]),
        run_length(items) < items.len() ==> clear_boundary(items[run_length(items) as int]),
    decreases items.len(),
{
    if items.len() > 0 && !clear_boundary(items[0]) {
        let rest = items.drop_first();
        run_is_clear(rest);
        assert forall|i: int| 0 <= i < run_length(items) implies !clear_boundary(
            #[trigger] items[i],
        ) by {
            if i > 0 {
                assert(items[i] == rest[i - 1]);
            }
        }
    }
}

/// A batch consumes at least one entry and no more than there are, so
/// draining batch after batch empties the queue.
pub proof fn batches_make_progress(items: Seq<Seq<char>>, mode: QueueDrainMode)
    requires
        items.len() > 0,
    ensures
        batch_of(items, mode) matches Some((text, count)) && 1 <= count <= items.len(),
{
    run_is_clear(items);
}

/// A batch is the text of the entries it consumes: joined by blank lines,
/// nothing left out and nothing added.
pub proof fn batches_hold_what_they_consume(items: Seq<Seq<char>>, mode: QueueDrainMode)
    requires
        items.len() > 0,
    ensures
        batch_of(items, mode) matches Some((text, count)) && text == text::joined(
            items.take(count as int),
            "\n\n"@,
        ),
{
    run_is_clear(items);
    assert(items.take(1).len() == 1 && items.take(1)[0] == items[0]);
}

/// An entry that clears the context drains alone: no batch of more than one
/// entry holds one.
pub proof fn clear_commands_drain_alone(items: Seq<Seq<char>>, mode: QueueDrainMode, i: int)
    requires
        batch_of(items, mode) matches Some((text, count)) && 0 <= i < count,
        clear_boundary(items[i]),
    ensures
        batch_of(items, mode) == Some((items[i], 1nat)),
{
    run_is_clear(items);
}

/// A combined batch goes up to the next entry that clears the context, or to
/// the end.
pub proof fn combined_batches_are_maximal(items: Seq<Seq<char>>)
    requires
        items.len() > 0,
        !clear_boundary(items[0]),
    ensures
        batch_of(items, QueueDrainMode::Combined) matches Some((text, count)) && (count
            == items.len() || clear_boundary(items[count as int])),
{
    run_is_clear(items);
}

/// The batches that drain a queue, one after another.
pub open spec fn drained(items: Seq<Seq<char>>, mode: QueueDrainMode) -> Seq<(Seq<char>, nat)>
    decreases items.len(),
{
    match batch_of(items, mode) {
        Some((text, count)) => if 0 < count <= items.len() {
            seq![(text, count)] + drained(items.skip(count as int), mode)
        } else {
            seq![]
        },
        None => seq![],
    }
}

/// How many entries some batches consume.
pub open spec fn consumed(batches: Seq<(Seq<char>, nat)>) -> nat
    decreases batches.len(),
{
    if batches.len() == 0 {
        0
    } else {
        batches[0].1 + consumed(batches.drop_first())
    }
}

/// Draining consumes every entry exactly once.
pub proof fn draining_consumes_everything(items: Seq<Seq<char>>, mode: QueueDrainMode)
    ensures
        consumed(drained(items, mode)) == items.len(),
    decreases items.len(),
{
    if items.len() > 0 {
        batches_make_progress(items, mode);
        let (text, count) = batch_of(items, mode)->0;
        let rest = drained(items.skip(count as int), mode);
        draining_consumes_everything(items.skip(count as int), mode);
        assert((seq![(text, count)] + rest).drop_first() =~= rest);
    }
}

/// The entries that each round of draining consumes: a round takes the next
/// batch and drops what it consumed from the front.
pub open spec fn rounds(items: Seq<Seq<char>>, mode: QueueDrainMode) -> Seq<Seq<Seq<char>>>
    decreases items.len(),
{
    match batch_of(items, mode) {
        Some((text, count)) => if 0 < count <= items.len() {
            seq![items.take(count as int)] + rounds(items.skip(count as int), mode)
        } else {
            seq![]
        },
        None => seq![],
    }
}

/// Whether no entry clears the context.
pub open spec fn free_of_clears(items: Seq<Seq<char>>) -> bool {
    forall|i: int| 0 <= i < items.len() ==> !clear_boundary(#[trigger] items[i])
}

/// The rounds of draining, one after another, consume the queue: nothing is
/// lost, repeated or reordered. Each sends the text of what it consumes, none
/// is empty, and there are no more rounds than entries.
pub proof fn rounds_partition_the_queue(items: Seq<Seq<char>>, mode: QueueDrainMode)
    ensures
        rounds(items, mode).flatten() == items,
        rounds(items, mode).len() == drained(items, mode).len(),
        rounds(items, mode).len() <= items.len(),
        forall|i: int|
            0 <= i < rounds(items, mode).len() ==> {
                let round = #[trigger] rounds(items, mode)[i];
                &&& round.len() > 0
                &&& drained(items, mode)[i] == (text::joined(round, "\n\n"@), round.len())
            },
    decreases items.len(),
{
    if items.len() > 0 {
        batches_make_progress(items, mode);
        batches_hold_what_they_consume(items, mode);
        let (text, count) = batch_of(items, mode)->0;
        let rest = items.skip(count as int);
        rounds_partition_the_queue(rest, mode);
        let all = rounds(items, mode);
        let tail = rounds(rest, mode);
        assert(all.drop_first() =~= tail);
        assert(items.take(count as int) + rest =~= items);
        assert forall|i: int| 0 <= i < all.len() implies {
            let round = #[trigger] all[i];
            &&& round.len() > 0
            &&& drained(items, mode)[i] == (text::joined(round, "\n\n"@), round.len())
        } by {
            if i > 0 {
                assert(all[i] == tail[i - 1]);
                assert(drained(items, mode)[i] == drained(rest, mode)[i - 1]);
            }
        }
    }
}

/// A round of more than one entry holds none that clears the context.
pub proof fn longer_rounds_are_free_of_clears(
    items: Seq<Seq<char>>,
    mode: QueueDrainMode,
    i: int,
)
    requires
        0 <= i < rounds(items, mode).len(),
        rounds(items, mode)[i].len() > 1,
    ensures
        free_of_clears(rounds(items, mode)[i]),
    decreases items.len(),
{
    batches_make_progress(items, mode);
    run_is_clear(items);
    let (text, count) = batch_of(items, mode)->0;
    if i > 0 {
        assert(rounds(items, mode)[i] == rounds(items.skip(count as int), mode)[i - 1]);
        longer_rounds_are_free_of_clears(items.skip(count as int), mode, i - 1);
    }
}

/// Combined rounds are as long as they can be: of two rounds in a row, at
/// least one clears the context.
pub proof fn adjacent_combined_rounds_hold_a_clear(items: Seq<Seq<char>>, i: int)
    requires
        0 <= i,
        i + 1 < rounds(items, QueueDrainMode::Combined).len(),
    ensures
        !(free_of_clears(rounds(items, QueueDrainMode::Combined)[i]) && free_of_clears(
            rounds(items, QueueDrainMode::Combined)[i + 1],
        )),
    decreases items.len(),
{
    let mode = QueueDrainMode::Combined;
    batches_make_progress(items, mode);
    let (text, count) = batch_of(items, mode)->0;
    let rest = items.skip(count as int);
    let all = rounds(items, mode);
    let tail = rounds(rest, mode);
    if i > 0 {
        assert(all[i] == tail[i - 1] && all[i + 1] == tail[i]);
        adjacent_combined_rounds_hold_a_clear(rest, i - 1);
    } else {
        assert(all[1] == tail[0]);
        if clear_boundary(items[0]) {
            assert(clear_boundary(all[0][0]));
        } else {
            combined_batches_are_maximal(items);
            assert(rest.len() > 0);
            batches_make_progress(rest, mode);
            assert(rest[0] == items[count as int]);
            assert(clear_boundary(all[1][0]));
        }
    }
}

/// Behind white space, `/clear` and `/new` clear the context, alone or followed
/// by white space and anything; followed by anything else they do not.
pub proof fn clear_commands_stand_alone(space: Seq<char>, rest: Seq<char>)
    requires
        forall|j: int| 0 <= j < space.len() ==> text::white_space(#[trigger] space[j]),
    ensures
        clear_boundary(space + "/clear"@ + rest) <==> rest.len() == 0 || text::white_space(rest[0]),
        clear_boundary(space + "/new"@ + rest) <==> rest.len() == 0 || text::white_space(rest[0]),
{
    reveal_strlit("/clear");
    reveal_strlit("/new");
    assert("/clear"@[0] == '/' && "/new"@[0] == '/');
    assert("/clear"@[1] == 'c' && "/new"@[1] == 'n');
    assert("/clear"@.len() == 6 && "/new"@.len() == 4);
    assert(clear_aliases()[0] == "/clear"@ && clear_aliases()[1] == "/new"@);
    let clear = "/clear"@ + rest;
    let new = "/new"@ + rest;
    assert(space + "/clear"@ + rest =~= space + clear);
    assert(space + "/new"@ + rest =~= space + new);
    text::trimming_takes_white_space_alone(space + clear, space, clear);
    text::trimming_takes_white_space_alone(space + new, space, new);
    assert("/clear"@ =~= clear.subrange(0, 6));
    assert("/new"@ =~= new.subrange(0, 4));
    if rest.len() > 0 {
        assert(clear[6] == rest[0] && new[4] == rest[0]);
    }
    assert(clear[1] == 'c' && new[1] == 'n');
    if "/new"@.is_prefix_of(clear) {
        assert(clear.subrange(0, 4)[1] == clear[1]);
    }
    if "/clear"@.is_prefix_of(new) {
        assert(new.subrange(0, 6)[1] == new[1]);
    }
    assert(is_command(clear, clear_aliases()[0]) <==> rest.len() == 0 || text::white_space(
        rest[0],
    ));
    assert(!is_command(clear, clear_aliases()[1]));
    assert(is_command(new, clear_aliases()[1]) <==> rest.len() == 0 || text::white_space(rest[0]));
    assert(!is_command(new, clear_aliases()[0]));
}

/// A text that does not start with `/clear` or `/new` behind its white space
/// clears nothing.
pub proof fn other_texts_clear_nothing(space: Seq<char>, rest: Seq<char>)
    requires
        forall|j: int| 0 <= j < space.len() ==> text::white_space(#[trigger] space[j]),
        rest.len() > 0 ==> !text::white_space(rest[0]),
        !"/clear"@.is_prefix_of(rest),
        !"/new"@.is_prefix_of(rest),
    ensures
        !clear_boundary(space + rest),
{
    text::trimming_takes_white_space_alone(space + rest, space, rest);
    assert(clear_aliases()[0] == "/clear"@ && clear_aliases()[1] == "/new"@);
}

/// Drained serially, a queue sends its first entry alone; combined, it sends
/// the entries up to the first one that clears the context, joined by blank
/// lines, or that one alone where it is first. An empty queue sends nothing.
pub proof fn batches_go_by_the_mode(items: Seq<Seq<char>>, mode: QueueDrainMode, n: int)
    ensures
        items.len() == 0 <==> batch_of(items, mode) is None,
        items.len() > 0 ==> batch_of(items, QueueDrainMode::Serial) == Some((items[0], 1nat)),
        items.len() > 0 && clear_boundary(items[0]) ==> batch_of(items, QueueDrainMode::Combined)
            == Some((items[0], 1nat)),
        0 < n <= items.len() && (forall|i: int|
            0 <= i < n ==> !clear_boundary(#[trigger] items[i])) && (n < items.len()
            ==> clear_boundary(items[n])) ==> batch_of(items, QueueDrainMode::Combined) == Some(
            (text::joined(items.take(n), "\n\n"@), n as nat),
        ),
{
    run_is_clear(items);
    let run = run_length(items) as int;
    if 0 < n <= items.len() && (forall|i: int| 0 <= i < n ==> !clear_boundary(#[trigger] items[i]))
        && (n < items.len() ==> clear_boundary(items[n])) {
        assert(!clear_boundary(items[0]));
        if run < n {
            assert(!clear_boundary(items[run]));
        }
        if n < run {
            assert(!clear_boundary(items[n]));
        }
    }
}

} // verus!
