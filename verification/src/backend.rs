use vstd::prelude::*;

verus! {

/// Where the background writer of the asynchronous backend stands.
#[derive(Clone, Copy, PartialEq, Eq, Structural, Debug)]
pub enum WriterPhase {
    /// Waiting for lines on the channel.
    Receiving,
    /// Stopped taking new lines; writing those still in the channel.
    Draining,
    /// Done; the writer has been flushed.
    Finished,
}

/// What the background writer observed.
#[derive(Debug)]
pub enum WriterEvent {
    /// The backend was shut down, or the runtime is shutting down.
    Stopped,
    /// A line came out of the channel.
    Received(String),
    /// The channel is closed and empty.
    Disconnected,
    /// The channel held no line.
    Empty,
}

/// What the background writer does next.
#[derive(Debug)]
pub enum WriterAction {
    /// Write the line.
    Write(String),
    /// Wait a moment before the next receive.
    Pause,
    /// Nothing.
    Idle,
    /// Flush the writer; the loop is over.
    Flush,
}

/// The step of the background writer: its next phase and action on an event.
///
/// While receiving, every line is written and a stop or a closed channel
/// moves to draining; while draining, every line left is written and the
/// first empty or closed answer ends the loop with a flush.
pub open spec fn writer_step(phase: WriterPhase, event: WriterEvent) -> (WriterPhase, WriterAction) {
    match phase {
        WriterPhase::Receiving => match event {
            WriterEvent::Stopped => (WriterPhase::Draining, WriterAction::Idle),
            WriterEvent::Received(line) => (WriterPhase::Receiving, WriterAction::Write(line)),
            WriterEvent::Disconnected => (WriterPhase::Draining, WriterAction::Idle),
            WriterEvent::Empty => (WriterPhase::Receiving, WriterAction::Pause),
        },
        WriterPhase::Draining => match event {
            WriterEvent::Stopped => (WriterPhase::Draining, WriterAction::Idle),
            WriterEvent::Received(line) => (WriterPhase::Draining, WriterAction::Write(line)),
            WriterEvent::Disconnected => (WriterPhase::Finished, WriterAction::Flush),
            WriterEvent::Empty => (WriterPhase::Finished, WriterAction::Flush),
        },
        WriterPhase::Finished => (WriterPhase::Finished, WriterAction::Idle),
    }
}

/// Decides the background writer's next phase and action.
pub fn next_writer_step(phase: WriterPhase, event: WriterEvent) -> (r: (WriterPhase, WriterAction))
    ensures
        r == writer_step(phase, event),
{
    match phase {
        WriterPhase::Receiving => match event {
            WriterEvent::Stopped => (WriterPhase::Draining, WriterAction::Idle),
            WriterEvent::Received(line) => (WriterPhase::Receiving, WriterAction::Write(line)),
            WriterEvent::Disconnected => (WriterPhase::Draining, WriterAction::Idle),
            WriterEvent::Empty => (WriterPhase::Receiving, WriterAction::Pause),
        },
        WriterPhase::Draining => match event {
            WriterEvent::Stopped => (WriterPhase::Draining, WriterAction::Idle),
            WriterEvent::Received(line) => (WriterPhase::Draining, WriterAction::Write(line)),
            WriterEvent::Disconnected => (WriterPhase::Finished, WriterAction::Flush),
            WriterEvent::Empty => (WriterPhase::Finished, WriterAction::Flush),
        },
        WriterPhase::Finished => (WriterPhase::Finished, WriterAction::Idle),
    }
}

/// No line is lost by the writer: a line received before the loop is over is
/// written, and the phase stays as it was.
pub proof fn lemma_received_lines_are_written(phase: WriterPhase, line: String)
    requires
        phase != WriterPhase::Finished,
    ensures
        writer_step(phase, WriterEvent::Received(line)) == (phase, WriterAction::Write(line)),
{
}

/// The writer is flushed exactly when the loop ends, and never after.
pub proof fn lemma_flush_exactly_at_the_end(phase: WriterPhase, event: WriterEvent)
    ensures
        (writer_step(phase, event).1 is Flush) <==> (phase != WriterPhase::Finished
            && writer_step(phase, event).0 == WriterPhase::Finished),
        phase == WriterPhase::Finished ==> writer_step(phase, event) == (
            WriterPhase::Finished,
            WriterAction::Idle,
        ),
{
}

/// The loop drains before it ends: from receiving it never finishes at once.
pub proof fn lemma_drain_before_finish(event: WriterEvent)
    ensures
        writer_step(WriterPhase::Receiving, event).0 != WriterPhase::Finished,
{
}

/// The phase and the actions of the writer loop after the events `events`,
/// taken in order from `phase`.
pub open spec fn writer_run(phase: WriterPhase, events: Seq<WriterEvent>) -> (WriterPhase, Seq<WriterAction>)
    decreases events.len(),
{
    if events.len() == 0 {
        (phase, Seq::empty())
    } else {
        let (before, actions) = writer_run(phase, events.drop_last());
        let (after, action) = writer_step(before, events.last());
        (after, actions.push(action))
    }
}

/// The lines of the `Received` events, in order.
pub open spec fn received_lines(events: Seq<WriterEvent>) -> Seq<String>
    decreases events.len(),
{
    if events.len() == 0 {
        Seq::empty()
    } else {
        match events.last() {
            WriterEvent::Received(line) => received_lines(events.drop_last()).push(line),
            _ => received_lines(events.drop_last()),
        }
    }
}

/// The lines of the `Write` actions, in order.
pub open spec fn written_lines(actions: Seq<WriterAction>) -> Seq<String>
    decreases actions.len(),
{
    if actions.len() == 0 {
        Seq::empty()
    } else {
        match actions.last() {
            WriterAction::Write(line) => written_lines(actions.drop_last()).push(line),
            _ => written_lines(actions.drop_last()),
        }
    }
}

/// Over any run of the writer loop: the lines written are, in order, a prefix
/// of the lines received (none reordered, repeated or invented), and all of
/// them as long as the loop is not over; the writer is flushed at most once,
/// and after the flush nothing but idling follows.
pub proof fn lemma_writer_run(phase: WriterPhase, events: Seq<WriterEvent>)
    ensures
        written_lines(writer_run(phase, events).1).is_prefix_of(received_lines(events)),
        writer_run(phase, events).0 != WriterPhase::Finished ==> written_lines(
            writer_run(phase, events).1,
        ) == received_lines(events),
        writer_run(phase, events).1.len() == events.len(),
        forall|i: int, j: int|
            0 <= i < j < events.len() && (#[trigger] writer_run(phase, events).1[i]) is Flush
                ==> (#[trigger] writer_run(phase, events).1[j]) is Idle,
        (exists|i: int|
            0 <= i < events.len() && (#[trigger] writer_run(phase, events).1[i]) is Flush)
            ==> writer_run(phase, events).0 == WriterPhase::Finished,
    decreases events.len(),
{
    if events.len() > 0 {
        let shorter = events.drop_last();
        lemma_writer_run(phase, shorter);
        let (before, actions) = writer_run(phase, shorter);
        let (after, action) = writer_step(before, events.last());
        let all = actions.push(action);
        assert(writer_run(phase, events) == (after, all));
        assert(all.drop_last() =~= actions);
        if before == WriterPhase::Finished {
            assert(after == WriterPhase::Finished && action is Idle);
            assert(written_lines(all) == written_lines(actions));
            assert(received_lines(shorter).is_prefix_of(received_lines(events))) by {
                if let WriterEvent::Received(line) = events.last() {
                    assert(received_lines(events) == received_lines(shorter).push(line));
                }
            }
        } else {
            match events.last() {
                WriterEvent::Received(line) => {
                    assert(action == WriterAction::Write(line));
                    assert(written_lines(all) =~= received_lines(events));
                },
                _ => {
                    assert(!(action is Write));
                    assert(written_lines(all) =~= received_lines(events));
                },
            }
        }
        assert forall|i: int, j: int|
            0 <= i < j < events.len() && (#[trigger] all[i]) is Flush implies (#[trigger] all[j]) is Idle by {
            if j < events.len() - 1 {
                assert(all[i] == actions[i] && all[j] == actions[j]);
            } else {
                assert(all[i] == actions[i]);
                assert(before == WriterPhase::Finished);
            }
        }
        if exists|i: int| 0 <= i < events.len() && (#[trigger] all[i]) is Flush {
            let i = choose|i: int| 0 <= i < events.len() && (#[trigger] all[i]) is Flush;
            if i < events.len() - 1 {
                assert(actions[i] is Flush);
                assert(before == WriterPhase::Finished);
            } else {
                assert(action is Flush);
            }
        }
    }
}

} // verus!
