//! Whole runs of a transfer: what a sequence of events leaves in the
//! staging file, and what pausing, resuming and restarting cannot change.

use crate::transfer::{Action, DownloadControl, Event, Phase, Transfer};
use vstd::prelude::*;

verus! {

/// The transfer as [`Transfer::new`] makes it.
pub open spec fn fresh(id: u64, existing: u64) -> Transfer {
    Transfer { id, phase: Phase::Starting, existing, received: existing, total: 0, pending: None }
}

/// The transfer after `event`, as [`Transfer::step`] leaves it.
pub open spec fn after(t: Transfer, event: Event) -> Transfer {
    if t.accepts(event) {
        t.next_state(event)
    } else {
        t
    }
}

/// The bytes that `event` adds to the staging file.
pub open spec fn appended(t: Transfer, event: Event) -> Seq<u8> {
    match event {
        Event::Chunk(data) => if t.accepts(event) {
            data@
        } else {
            Seq::empty()
        },
        _ => Seq::empty(),
    }
}

/// The transfer after a run of events.
pub open spec fn run(t: Transfer, events: Seq<Event>) -> Transfer
    decreases events.len(),
{
    if events.len() == 0 {
        t
    } else {
        run(after(t, events[0]), events.skip(1))
    }
}

/// The bytes that a run of events adds to the staging file, in order.
pub open spec fn written(t: Transfer, events: Seq<Event>) -> Seq<u8>
    decreases events.len(),
{
    if events.len() == 0 {
        Seq::empty()
    } else {
        appended(t, events[0]) + written(after(t, events[0]), events.skip(1))
    }
}

/// Every event of the run is one that the transfer accepts when it comes.
pub open spec fn valid(t: Transfer, events: Seq<Event>) -> bool
    decreases events.len(),
{
    events.len() > 0 ==> t.accepts(events[0]) && valid(t.next_state(events[0]), events.skip(1))
}

/// The bytes that the response stream yields during a run, in order.
pub open spec fn streamed(events: Seq<Event>) -> Seq<u8>
    decreases events.len(),
{
    if events.len() == 0 {
        Seq::empty()
    } else {
        let rest = streamed(events.skip(1));
        match events[0] {
            Event::Chunk(data) => data@ + rest,
            _ => rest,
        }
    }
}

/// The event is a pause or a resume signal.
pub open spec fn is_pause_or_resume(event: Event) -> bool {
    event == Event::Signal(DownloadControl::Pause) || event == Event::Signal(
        DownloadControl::Resume,
    )
}

/// The run with its pause and resume signals taken out.
pub open spec fn without_pauses(events: Seq<Event>) -> Seq<Event>
    decreases events.len(),
{
    if events.len() == 0 {
        events
    } else if is_pause_or_resume(events[0]) {
        without_pauses(events.skip(1))
    } else {
        seq![events[0]] + without_pauses(events.skip(1))
    }
}

/// `quiet` is never paused: it stands where `t` stands, or where `t` would
/// stand had it not been paused.
pub open spec fn same_but_for_pause(t: Transfer, quiet: Transfer) -> bool {
    if t.phase is Paused {
        quiet == (Transfer { phase: Phase::Active, ..t })
    } else {
        quiet == t
    }
}

/// The byte offset that the peer is asked to serve from.
pub open spec fn requested_offset(t: Transfer) -> nat {
    match t.resume_offset() {
        Some(offset) => offset as nat,
        None => 0,
    }
}

/// An action is the terminal notification exactly when the event ends the
/// transfer, and a transfer that has ended accepts no event.
pub proof fn lemma_one_terminal_notification(t: Transfer, event: Event)
    ensures
        t.accepts(event) ==> (t.action_for(event).is_final() <==> t.next_state(
            event,
        ).phase.is_terminal()),
        t.phase.is_terminal() ==> !t.accepts(event),
{
}

/// The byte count never shrinks, and a chunk that holds bytes makes it
/// grow: progress reports come in increasing order.
pub proof fn lemma_progress_grows(t: Transfer, event: Event)
    requires
        t.accepts(event),
    ensures
        t.next_state(event).received >= t.received,
        event matches Event::Chunk(data) ==> t.next_state(event).received == t.received
            + data@.len(),
{
}

/// While paused a transfer takes no chunk: nothing is read or written.
pub proof fn lemma_paused_takes_no_bytes(t: Transfer, event: Event)
    requires
        t.phase is Paused,
    ensures
        appended(t, event) == Seq::<u8>::empty(),
        after(t, event).received == t.received,
        !t.reads_stream(),
{
}

/// In a valid run every byte that the stream yields is written, once and
/// in order, and counted.
pub proof fn lemma_written_is_streamed(t: Transfer, events: Seq<Event>)
    requires
        valid(t, events),
    ensures
        written(t, events) == streamed(events),
        run(t, events).received == t.received + streamed(events).len(),
        run(t, events).existing == t.existing,
        run(t, events).id == t.id,
    decreases events.len(),
{
    if events.len() > 0 {
        lemma_written_is_streamed(t.next_state(events[0]), events.skip(1));
    }
}

/// The size recorded of a completed download is the number of bytes in
/// its file: what was there when the transfer started and what it wrote.
pub proof fn lemma_recorded_size(id: u64, existing: u64, events: Seq<Event>)
    requires
        valid(fresh(id, existing), events),
        run(fresh(id, existing), events).phase is Saving,
    ensures
        existing + written(fresh(id, existing), events).len() <= u64::MAX,
        run(fresh(id, existing), events).action_for(Event::Renamed(true)) == (Action::Complete {
            size: (existing + written(fresh(id, existing), events).len()) as u64,
        }),
{
    lemma_written_is_streamed(fresh(id, existing), events);
}

proof fn lemma_quiet_run(t: Transfer, quiet: Transfer, events: Seq<Event>)
    requires
        same_but_for_pause(t, quiet),
        valid(t, events),
    ensures
        valid(quiet, without_pauses(events)),
        written(quiet, without_pauses(events)) == written(t, events),
        same_but_for_pause(run(t, events), run(quiet, without_pauses(events))),
    decreases events.len(),
{
    if events.len() > 0 {
        let first = events[0];
        let rest = events.skip(1);
        if is_pause_or_resume(first) {
            lemma_quiet_run(t.next_state(first), quiet, rest);
        } else {
            let shorter = seq![first] + without_pauses(rest);
            assert(shorter[0] == first);
            assert(shorter.skip(1) =~= without_pauses(rest));
            lemma_quiet_run(t.next_state(first), quiet.next_state(first), rest);
        }
    }
}

/// Pausing and resuming neither lose nor repeat a byte: a valid run of an
/// active transfer writes what the same run without its pause and resume
/// signals writes, and ends where that run ends unless it ends paused.
pub proof fn lemma_pause_resume_keeps_bytes(t: Transfer, events: Seq<Event>)
    requires
        t.phase is Active,
        valid(t, events),
    ensures
        valid(t, without_pauses(events)),
        written(t, events) == written(t, without_pauses(events)),
        written(t, events) == streamed(events),
        run(t, events).received == run(t, without_pauses(events)).received,
        !(run(t, events).phase is Paused) ==> run(t, events) == run(t, without_pauses(events)),
{
    lemma_quiet_run(t, t, events);
    lemma_written_is_streamed(t, events);
}

/// A cancelled download is taken up where it stopped.
///
/// The first attempt starts with no staging file and is cancelled after
/// some of the content has been written. The second attempt finds what the
/// first one wrote. Then its request names the size of the staging file
/// as the offset to serve from, and if the peer serves the content from
/// that offset and the attempt completes, the file holds the content, no
/// byte lost and none repeated.
pub proof fn lemma_resume_after_cancel(
    content: Seq<u8>,
    first_id: u64,
    first: Seq<Event>,
    second_id: u64,
    second: Seq<Event>,
)
    requires
        valid(fresh(first_id, 0), first),
        run(fresh(first_id, 0), first).phase is Cancelled,
        streamed(first).is_prefix_of(content),
        valid(fresh(second_id, written(fresh(first_id, 0), first).len() as u64), second),
        run(
            fresh(second_id, written(fresh(first_id, 0), first).len() as u64),
            second,
        ).phase is Completed,
        streamed(second) == content.skip(
            requested_offset(
                fresh(second_id, written(fresh(first_id, 0), first).len() as u64),
            ) as int,
        ),
    ensures
        written(fresh(first_id, 0), first).len() <= u64::MAX,
        requested_offset(fresh(second_id, written(fresh(first_id, 0), first).len() as u64))
            == written(fresh(first_id, 0), first).len(),
        written(fresh(first_id, 0), first) + written(
            fresh(second_id, written(fresh(first_id, 0), first).len() as u64),
            second,
        ) == content,
        run(
            fresh(second_id, written(fresh(first_id, 0), first).len() as u64),
            second,
        ).received == content.len(),
{
    let staged = written(fresh(first_id, 0), first);
    lemma_written_is_streamed(fresh(first_id, 0), first);
    let again = fresh(second_id, staged.len() as u64);
    lemma_written_is_streamed(again, second);
    assert(staged + content.skip(staged.len() as int) =~= content);
}

} // verus!
