//! What holds of every push, proved from the protocol's transition function.

use crate::adb_sync::{
    advance, connect_to_server, fail, initial, select_message, sync_message, Action, ActionView,
    Phase, PushSession, SessionView, TransportErrorView,
};
use crate::event::{Event, EventView};
use crate::wire::{data_frame, done_frame, okay, send_frame, MAX_CHUNK};
use vstd::prelude::*;
use vstd::utf8::encode_utf8;

verus! {

/// The state that a push reaches from `s` after `events`, and the actions it
/// asks for on the way, one for each event.
pub open spec fn run(s: SessionView, events: Seq<EventView>) -> (SessionView, Seq<ActionView>)
    decreases events.len(),
{
    if events.len() == 0 {
        (s, Seq::empty())
    } else {
        let before = run(s, events.drop_last());
        let step = advance(before.0, events.last());
        (step.0, before.1.push(step.1))
    }
}

/// How many `DATA` frames a file of `n` bytes takes when every read fills
/// its chunk.
pub open spec fn chunk_count(n: nat) -> nat {
    (n + 65535) / 65536
}

/// The `i`-th chunk of `content` when every read fills its chunk.
pub open spec fn chunk_at(content: Seq<u8>, i: int) -> Seq<u8> {
    content.subrange(
        i * 65536,
        if (i + 1) * 65536 <= content.len() {
            (i + 1) * 65536
        } else {
            content.len() as int
        },
    )
}

/// How many bytes the first `k` chunks of a file of `n` bytes hold.
pub open spec fn bytes_in(n: nat, k: nat) -> nat {
    if k * 65536 <= n {
        k * 65536
    } else {
        n
    }
}

/// What a driver reports while the first `k` chunks of `content` go out
/// without a failure: each chunk is read, written and reported.
pub open spec fn stream_events(content: Seq<u8>, k: nat) -> Seq<EventView>
    decreases k,
{
    if k == 0 {
        Seq::empty()
    } else {
        stream_events(content, (k - 1) as nat) + seq![
            EventView::Data(chunk_at(content, k - 1)),
            EventView::Done,
            EventView::Done,
        ]
    }
}

/// What the push asks for while the first `k` chunks of `content` go out:
/// for each chunk its `DATA` frame, a progress report and the next read.
pub open spec fn stream_actions(content: Seq<u8>, total: u64, k: nat) -> Seq<ActionView>
    decreases k,
{
    if k == 0 {
        Seq::empty()
    } else {
        stream_actions(content, total, (k - 1) as nat) + seq![
            ActionView::Send(data_frame(chunk_at(content, k - 1))),
            ActionView::Report { sent: bytes_in(content.len(), k) as u64, total },
            ActionView::ReadChunk(MAX_CHUNK),
        ]
    }
}

/// Running over one more event is one more step.
pub proof fn lemma_run_push(s: SessionView, events: Seq<EventView>, e: EventView)
    ensures
        run(s, events.push(e)) == (
            advance(run(s, events).0, e).0,
            run(s, events).1.push(advance(run(s, events).0, e).1),
        ),
{
    assert(events.push(e).drop_last() =~= events);
}

/// Running over two sequences of events in a row is running over the first
/// and then, from where that ended, over the second.
pub proof fn lemma_run_concat(s: SessionView, a: Seq<EventView>, b: Seq<EventView>)
    ensures
        run(s, a + b) == (run(run(s, a).0, b).0, run(s, a).1 + run(run(s, a).0, b).1),
    decreases b.len(),
{
    if b.len() == 0 {
        assert(a + b =~= a);
        assert(run(s, a).1 + Seq::<ActionView>::empty() =~= run(s, a).1);
    } else {
        lemma_run_concat(s, a, b.drop_last());
        assert((a + b).drop_last() =~= a + b.drop_last());
        let mid = run(s, a);
        let inner = run(mid.0, b.drop_last());
        let step = advance(inner.0, b.last());
        assert((mid.1 + inner.1).push(step.1) =~= mid.1 + inner.1.push(step.1));
    }
}

/// A push that has ended stays ended: whatever is reported afterwards, the
/// state does not change and every answer is the same final result. No
/// progress is reported and nothing is sent.
pub proof fn law_finished_is_final(s: SessionView, events: Seq<EventView>)
    requires
        s.phase == Phase::Finished,
    ensures
        run(s, events).0 == s,
        run(s, events).1.len() == events.len(),
        forall|i: int|
            0 <= i < events.len() ==> #[trigger] run(s, events).1[i] == ActionView::Finish(
                s.failure,
            ),
    decreases events.len(),
{
    if events.len() > 0 {
        law_finished_is_final(s, events.drop_last());
    }
}

/// The push is streaming the file: it waits for a chunk, for a `DATA` frame
/// to be written or for the progress sink.
pub open spec fn streaming(phase: Phase) -> bool {
    phase == Phase::Reading || phase is Writing || phase == Phase::Reporting
}

/// A failure while the file is streamed ends the push with an I/O error, and
/// no progress is reported after it: every later answer is that same error.
pub proof fn law_broken_stream_ends(s: SessionView, later: Seq<EventView>)
    requires
        streaming(s.phase),
    ensures
        advance(s, EventView::Failed) == fail(s, TransportErrorView::Io),
        forall|i: int|
            0 <= i < later.len() ==> #[trigger] run(
                advance(s, EventView::Failed).0,
                later,
            ).1[i] == ActionView::Finish(Some(TransportErrorView::Io)),
{
    law_finished_is_final(advance(s, EventView::Failed).0, later);
}

/// The length of a run's actions is the number of its events.
pub proof fn lemma_run_len(s: SessionView, events: Seq<EventView>)
    ensures
        run(s, events).1.len() == events.len(),
    decreases events.len(),
{
    if events.len() > 0 {
        lemma_run_len(s, events.drop_last());
    }
}

/// The events of a push of an empty file in which nothing fails, with the
/// clock at `mtime`.
pub open spec fn empty_push_events(mtime: u64) -> Seq<EventView> {
    seq![
        EventView::Size(0),
        EventView::Done,
        EventView::Done,
        EventView::Data(okay()),
        EventView::Done,
        EventView::Data(okay()),
        EventView::Done,
        EventView::Data(Seq::empty()),
        EventView::Time(mtime),
        EventView::Done,
        EventView::Data(okay()),
    ]
}

/// A push of an empty file sends the two control messages, the `SEND` frame
/// and the `DONE` frame and nothing else: no `DATA` frame goes out and no
/// progress is reported. It ends in success.
pub proof fn law_empty_file(serial: Option<Seq<char>>, remote_path: Seq<char>, mtime: u64)
    ensures
        run(initial(serial, remote_path), empty_push_events(mtime)).1 == seq![
            connect_to_server(),
            ActionView::Send(select_message(serial)),
            ActionView::Receive(4),
            ActionView::Send(sync_message()),
            ActionView::Receive(4),
            ActionView::Send(send_frame(encode_utf8(remote_path))),
            ActionView::ReadChunk(MAX_CHUNK),
            ActionView::ReadClock,
            ActionView::Send(done_frame(mtime)),
            ActionView::Receive(4),
            ActionView::Finish(None),
        ],
        run(initial(serial, remote_path), empty_push_events(mtime)).0.phase == Phase::Finished,
        run(initial(serial, remote_path), empty_push_events(mtime)).0.failure is None,
        run(initial(serial, remote_path), empty_push_events(mtime)).0.sent == 0,
{
    let s = initial(serial, remote_path);
    let all = empty_push_events(mtime);
    let e0 = Seq::<EventView>::empty();
    let e1 = e0.push(all[0]);
    let e2 = e1.push(all[1]);
    let e3 = e2.push(all[2]);
    let e4 = e3.push(all[3]);
    let e5 = e4.push(all[4]);
    let e6 = e5.push(all[5]);
    let e7 = e6.push(all[6]);
    let e8 = e7.push(all[7]);
    let e9 = e8.push(all[8]);
    let e10 = e9.push(all[9]);
    let e11 = e10.push(all[10]);
    assert(e11 =~= all);
    assert(okay().len() == 4);
    lemma_run_push(s, e0, all[0]);
    lemma_run_push(s, e1, all[1]);
    lemma_run_push(s, e2, all[2]);
    lemma_run_push(s, e3, all[3]);
    lemma_run_push(s, e4, all[4]);
    lemma_run_push(s, e5, all[5]);
    lemma_run_push(s, e6, all[6]);
    lemma_run_push(s, e7, all[7]);
    lemma_run_push(s, e8, all[8]);
    lemma_run_push(s, e9, all[9]);
    lemma_run_push(s, e10, all[10]);
    assert(run(s, e1).0.phase == Phase::Connecting);
    assert(run(s, e2).0.phase == Phase::Selecting);
    assert(run(s, e4).0.phase == Phase::Syncing);
    assert(run(s, e6).0.phase == Phase::Announcing);
    assert(run(s, e7).0.phase == Phase::Reading);
    assert(run(s, e8).0.phase == Phase::Timing);
    assert(run(s, e10).0.phase == Phase::Confirming);
    lemma_run_len(s, all);
    assert(run(s, all).1 =~= seq![
        connect_to_server(),
        ActionView::Send(select_message(serial)),
        ActionView::Receive(4),
        ActionView::Send(sync_message()),
        ActionView::Receive(4),
        ActionView::Send(send_frame(encode_utf8(remote_path))),
        ActionView::ReadChunk(MAX_CHUNK),
        ActionView::ReadClock,
        ActionView::Send(done_frame(mtime)),
        ActionView::Receive(4),
        ActionView::Finish(None),
    ]);
}

/// The sizes of the chunks of a file of `n` bytes: every chunk but the last
/// is full, and the last holds what is left, a full chunk where `n` is a
/// multiple of the chunk size.
pub proof fn law_chunk_sizes(content: Seq<u8>, i: int)
    requires
        0 <= i < chunk_count(content.len()),
    ensures
        chunk_at(content, i).len() == if i < chunk_count(content.len()) - 1 {
            65536
        } else if content.len() % 65536 == 0 {
            65536
        } else {
            content.len() % 65536
        },
        0 < chunk_at(content, i).len() <= MAX_CHUNK,
{
}

/// From a session that waits for a chunk, the first `k` chunks of `content`
/// go out as one `DATA` frame each, every frame followed by a report of the
/// bytes sent so far, and the session then waits for the next chunk.
pub proof fn lemma_stream(s: SessionView, content: Seq<u8>, k: nat)
    requires
        s.phase == Phase::Reading,
        s.sent == 0,
        content.len() <= u64::MAX,
        k <= chunk_count(content.len()),
    ensures
        run(s, stream_events(content, k)).0 == (SessionView {
            sent: bytes_in(content.len(), k) as u64,
            ..s
        }),
        run(s, stream_events(content, k)).1 == stream_actions(content, s.total, k),
    decreases k,
{
    if k == 0 {
    } else {
        let j = (k - 1) as nat;
        lemma_stream(s, content, j);
        let before = stream_events(content, j);
        let chunk = chunk_at(content, k - 1);
        let round = seq![EventView::Data(chunk), EventView::Done, EventView::Done];
        lemma_run_concat(s, before, round);
        let mid = run(s, before).0;
        law_chunk_sizes(content, k - 1);
        assert(mid.sent + chunk.len() == bytes_in(content.len(), k));
        let r0 = Seq::<EventView>::empty();
        let r1 = r0.push(round[0]);
        let r2 = r1.push(round[1]);
        let r3 = r2.push(round[2]);
        assert(r3 =~= round);
        lemma_run_push(mid, r0, round[0]);
        lemma_run_push(mid, r1, round[1]);
        lemma_run_push(mid, r2, round[2]);
        assert(run(mid, round).1 =~= seq![
            ActionView::Send(data_frame(chunk)),
            ActionView::Report { sent: bytes_in(content.len(), k) as u64, total: s.total },
            ActionView::ReadChunk(MAX_CHUNK),
        ]);
    }
}

/// A file of `n` bytes whose reads fill their chunks goes out in
/// `chunk_count(n)` `DATA` frames, the last report says that all `n` bytes
/// were sent, and the end of the file then leads to the `DONE` frame and not
/// to another `DATA` frame.
pub proof fn law_chunked_stream(s: SessionView, content: Seq<u8>)
    requires
        s.phase == Phase::Reading,
        s.sent == 0,
        content.len() <= u64::MAX,
    ensures
        run(s, stream_events(content, chunk_count(content.len()))).1 == stream_actions(
            content,
            s.total,
            chunk_count(content.len()),
        ),
        stream_actions(content, s.total, chunk_count(content.len())).len() == 3 * chunk_count(
            content.len(),
        ),
        run(s, stream_events(content, chunk_count(content.len()))).0.sent == content.len(),
        content.len() > 0 ==> stream_actions(
            content,
            s.total,
            chunk_count(content.len()),
        )[3 * chunk_count(content.len()) - 2] == (ActionView::Report {
            sent: content.len() as u64,
            total: s.total,
        }),
        advance(
            run(s, stream_events(content, chunk_count(content.len()))).0,
            EventView::Data(Seq::empty()),
        ).1 == ActionView::ReadClock,
{
    let count = chunk_count(content.len());
    lemma_stream(s, content, count);
    lemma_actions_len(content, s.total, count);
}

/// Each chunk accounts for three actions.
pub proof fn lemma_actions_len(content: Seq<u8>, total: u64, k: nat)
    ensures
        stream_actions(content, total, k).len() == 3 * k,
    decreases k,
{
    if k > 0 {
        lemma_actions_len(content, total, (k - 1) as nat);
    }
}

/// While the first `k` chunks go out, every chunk accounts for three
/// actions in a row: its `DATA` frame, the report of the bytes sent up to
/// and with it, and the next read. There are as many `DATA` frames as
/// chunks.
pub proof fn law_stream_shape(content: Seq<u8>, total: u64, k: nat, i: int)
    requires
        0 <= i < k,
    ensures
        stream_actions(content, total, k).len() == 3 * k,
        stream_actions(content, total, k)[3 * i] == ActionView::Send(
            data_frame(chunk_at(content, i)),
        ),
        stream_actions(content, total, k)[3 * i + 1] == (ActionView::Report {
            sent: bytes_in(content.len(), (i + 1) as nat) as u64,
            total,
        }),
        stream_actions(content, total, k)[3 * i + 2] == ActionView::ReadChunk(MAX_CHUNK),
    decreases k,
{
    lemma_actions_len(content, total, k);
    lemma_actions_len(content, total, (k - 1) as nat);
    if i < k - 1 {
        law_stream_shape(content, total, (k - 1) as nat, i);
    }
}

/// A state is sound when a `DATA` frame that is being written accounts for
/// more bytes than were sent before it. Every state that a push reaches
/// from its beginning is sound.
pub open spec fn sound(s: SessionView) -> bool {
    s.phase matches Phase::Writing(n) ==> n > s.sent
}

/// The bytes that a progress report says were sent; zero for any other
/// action.
pub open spec fn reported(a: ActionView) -> u64 {
    match a {
        ActionView::Report { sent, .. } => sent,
        _ => 0,
    }
}

/// One step keeps a state sound and never lowers the count of bytes sent;
/// a report that it asks for tells that count, which has grown.
pub proof fn lemma_step_counts(s: SessionView, e: EventView)
    requires
        sound(s),
    ensures
        sound(advance(s, e).0),
        advance(s, e).0.sent >= s.sent,
        advance(s, e).1 is Report ==> reported(advance(s, e).1) == advance(s, e).0.sent
            && advance(s, e).0.sent > s.sent,
{
}

/// A run keeps a state sound and never lowers the count of bytes sent, and
/// every report on the way tells a count above the first and up to the
/// last.
pub proof fn lemma_run_counts(s: SessionView, events: Seq<EventView>)
    requires
        sound(s),
    ensures
        sound(run(s, events).0),
        run(s, events).0.sent >= s.sent,
        run(s, events).1.len() == events.len(),
        forall|i: int|
            0 <= i < events.len() && (#[trigger] run(s, events).1[i]) is Report ==> s.sent
                < reported(run(s, events).1[i]) <= run(s, events).0.sent,
    decreases events.len(),
{
    if events.len() > 0 {
        let before = run(s, events.drop_last());
        lemma_run_counts(s, events.drop_last());
        lemma_step_counts(before.0, events.last());
    }
}

/// Progress rises: of two reports of one push the later tells more bytes
/// than the earlier.
pub proof fn law_progress_rises(s: SessionView, events: Seq<EventView>, i: int, j: int)
    requires
        sound(s),
        0 <= i < j < events.len(),
        run(s, events).1[i] is Report,
        run(s, events).1[j] is Report,
    ensures
        reported(run(s, events).1[i]) < reported(run(s, events).1[j]),
    decreases events.len(),
{
    let before = run(s, events.drop_last());
    lemma_run_counts(s, events.drop_last());
    lemma_step_counts(before.0, events.last());
    if j < events.len() - 1 {
        law_progress_rises(s, events.drop_last(), i, j);
    }
}

/// Progress never falls: of two reports of one push the later tells at
/// least as many bytes as the earlier.
pub proof fn law_progress_never_falls(s: SessionView, events: Seq<EventView>, i: int, j: int)
    requires
        sound(s),
        0 <= i <= j < events.len(),
        run(s, events).1[i] is Report,
        run(s, events).1[j] is Report,
    ensures
        reported(run(s, events).1[i]) <= reported(run(s, events).1[j]),
{
    if i < j {
        law_progress_rises(s, events, i, j);
    }
}

/// No report is made up: every report of a push tells of at least one byte
/// that was sent, and of no more bytes than chunks were accepted for.
pub proof fn law_reports_count_bytes(
    serial: Option<Seq<char>>,
    remote_path: Seq<char>,
    events: Seq<EventView>,
    i: int,
)
    requires
        0 <= i < events.len(),
        run(initial(serial, remote_path), events).1[i] is Report,
    ensures
        0 < reported(run(initial(serial, remote_path), events).1[i]) <= run(
            initial(serial, remote_path),
            events,
        ).0.sent,
{
    lemma_run_counts(initial(serial, remote_path), events);
}

/// A push begins in a sound state, so that progress never falls over the
/// whole of it.
pub proof fn law_begins_sound(serial: Option<Seq<char>>, remote_path: Seq<char>)
    ensures
        sound(initial(serial, remote_path)),
{
}

/// The views of a list of events.
pub open spec fn event_views(list: Seq<Event>) -> Seq<EventView> {
    Seq::new(list.len(), |i: int| list[i]@)
}

/// The views of a list of actions.
pub open spec fn action_views(list: Seq<Action>) -> Seq<ActionView> {
    Seq::new(list.len(), |i: int| list[i]@)
}

/// Feeds a session the events of a push that has already taken place and
/// returns the actions it asked for, one for each event.
pub fn replay(session: &mut PushSession, events: Vec<Event>) -> (actions: Vec<Action>)
    ensures
        (final(session)@, action_views(actions@)) == run(old(session)@, event_views(events@)),
{
    let ghost all = event_views(events@);
    let ghost start = session@;
    let mut events = events;
    let mut actions: Vec<Action> = Vec::new();
    let ghost mut done: int = 0;
    assert(all.take(0) =~= Seq::<EventView>::empty());
    assert(action_views(actions@) =~= Seq::<ActionView>::empty());
    while events.len() > 0
        invariant
            0 <= done <= all.len(),
            event_views(events@) == all.skip(done),
            (session@, action_views(actions@)) == run(start, all.take(done)),
        decreases events.len(),
    {
        let ghost before = event_views(events@);
        let ghost full = events@;
        let ghost asked = action_views(actions@);
        assert(before.len() == full.len());
        let event = events.remove(0);
        proof {
            assert(before[0] == event@);
            assert(all[done] == before[0]);
            assert forall|k: int| 0 <= k < events@.len() implies event_views(events@)[k]
                == all.skip(done + 1)[k] by {
                assert(events@[k] == full[k + 1]);
                assert(before[k + 1] == all[done + k + 1]);
            }
            assert(event_views(events@) =~= all.skip(done + 1));
            assert(all.take(done + 1) =~= all.take(done).push(event@));
            lemma_run_push(start, all.take(done), event@);
        }
        let action = session.step(event);
        actions.push(action);
        proof {
            assert(action_views(actions@) =~= asked.push(action@));
            done = done + 1;
        }
    }
    assert(all.take(all.len() as int) =~= all);
    actions
}

} // verus!
