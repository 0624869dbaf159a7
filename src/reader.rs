use vstd::prelude::*;

verus! {

/// What the worker loop observed in one iteration.
pub enum ReaderEvent<V> {
    /// A stop signal was pending when the loop checked for one.
    StopSignal,
    /// A read finished: the number of bytes received and the value decoded from them.
    Frame(usize, V),
    /// The read failed or timed out.
    ReadFailed,
}

/// What the worker loop must do next.
pub enum ReaderAction<V> {
    /// Send this value to the session and request a repaint, then go on.
    Emit(V),
    /// Leave the loop and release the port.
    Terminate,
}

/// The abstract state of a reader: whether it has terminated, and the values
/// emitted so far, in order.
pub struct ReaderModel<V> {
    pub terminated: bool,
    pub emitted: Seq<V>,
}

/// One step of the reader on an event.
pub open spec fn step_spec<V>(frame_size: nat, m: ReaderModel<V>, e: ReaderEvent<V>) -> ReaderModel<V> {
    if m.terminated {
        m
    } else {
        match e {
            ReaderEvent::Frame(n, v) => if n as nat == frame_size {
                ReaderModel { terminated: false, emitted: m.emitted.push(v) }
            } else {
                ReaderModel { terminated: true, emitted: m.emitted }
            },
            _ => ReaderModel { terminated: true, emitted: m.emitted },
        }
    }
}

/// The reader's state after a whole run of events, from a fresh start.
pub open spec fn run_spec<V>(frame_size: nat, events: Seq<ReaderEvent<V>>) -> ReaderModel<V>
    decreases events.len(),
{
    if events.len() == 0 {
        ReaderModel { terminated: false, emitted: Seq::empty() }
    } else {
        step_spec(frame_size, run_spec(frame_size, events.drop_last()), events.last())
    }
}

/// Whether an event is a frame of exactly the expected size.
pub open spec fn is_full_frame<V>(frame_size: nat, e: ReaderEvent<V>) -> bool {
    match e {
        ReaderEvent::Frame(n, _) => n as nat == frame_size,
        _ => false,
    }
}

/// The value carried by a frame event.
pub open spec fn frame_value<V>(e: ReaderEvent<V>) -> V
    recommends e is Frame,
{
    match e {
        ReaderEvent::Frame(_, v) => v,
        _ => arbitrary(),
    }
}

/// The loop state of a serial frame reader: it reads frames of a fixed size,
/// emits one decoded value per complete frame, and ends at the first stop
/// signal or failed read.
pub struct FrameReader<V> {
    frame_size: usize,
    terminated: bool,
    emitted: Ghost<Seq<V>>,
}

impl<V> FrameReader<V> {
    pub closed spec fn model(&self) -> ReaderModel<V> {
        ReaderModel { terminated: self.terminated, emitted: self.emitted@ }
    }

    pub closed spec fn spec_frame_size(&self) -> nat {
        self.frame_size as nat
    }

    /// A reader that has emitted nothing and reads frames of `frame_size` bytes.
    pub fn new(frame_size: usize) -> (r: Self)
        requires
            frame_size > 0,
        ensures
            r.spec_frame_size() == frame_size,
            r.model() == (ReaderModel::<V> { terminated: false, emitted: Seq::empty() }),
    {
        FrameReader { frame_size, terminated: false, emitted: Ghost(Seq::empty()) }
    }

    /// The number of bytes in one frame.
    pub fn frame_size(&self) -> (r: usize)
        ensures
            r == self.spec_frame_size(),
    {
        self.frame_size
    }

    /// Whether the loop has ended.
    pub fn is_terminated(&self) -> (r: bool)
        ensures
            r == self.model().terminated,
    {
        self.terminated
    }

    /// Whether the loop should perform another read, given whether a stop
    /// signal is pending. A pending stop ends the loop.
    pub fn check_stop(&mut self, stop_pending: bool) -> (read: bool)
        ensures
            final(self).spec_frame_size() == old(self).spec_frame_size(),
            read == (!old(self).model().terminated && !stop_pending),
            final(self).model() == (if stop_pending {
                step_spec(old(self).spec_frame_size(), old(self).model(), ReaderEvent::<V>::StopSignal)
            } else {
                old(self).model()
            }),
    {
        if stop_pending {
            self.terminated = true;
        }
        !self.terminated
    }

    /// Takes one event of the loop and says what to do next.
    pub fn step(&mut self, event: ReaderEvent<V>) -> (action: ReaderAction<V>)
        ensures
            final(self).spec_frame_size() == old(self).spec_frame_size(),
            final(self).model() == step_spec(old(self).spec_frame_size(), old(self).model(), event),
            match action {
                ReaderAction::Emit(v) => !old(self).model().terminated
                    && is_full_frame(old(self).spec_frame_size(), event)
                    && v == frame_value(event),
                ReaderAction::Terminate => old(self).model().terminated
                    || !is_full_frame(old(self).spec_frame_size(), event),
            },
    {
        if self.terminated {
            return ReaderAction::Terminate;
        }
        match event {
            ReaderEvent::Frame(n, v) => {
                if n == self.frame_size {
                    self.emitted = Ghost(self.emitted@.push(v));
                    ReaderAction::Emit(v)
                } else {
                    self.terminated = true;
                    ReaderAction::Terminate
                }
            },
            _ => {
                self.terminated = true;
                ReaderAction::Terminate
            },
        }
    }
}

/// The values of the first `n` events, read as frames.
pub open spec fn frame_values<V>(events: Seq<ReaderEvent<V>>, n: int) -> Seq<V> {
    events.take(n).map_values(|e: ReaderEvent<V>| frame_value(e))
}

/// Emitted values follow the frames in order: when the first `j` events are
/// complete frames and event `j`, if there is one, is not, the reader has
/// emitted exactly the values of those `j` frames, in order, and has
/// terminated if and only if event `j` exists; what follows it has no effect.
pub proof fn lemma_emits_leading_frames<V>(frame_size: nat, events: Seq<ReaderEvent<V>>, j: int)
    requires
        0 <= j <= events.len(),
        forall|i: int| 0 <= i < j ==> is_full_frame(frame_size, #[trigger] events[i]),
        j < events.len() ==> !is_full_frame(frame_size, events[j]),
    ensures
        run_spec(frame_size, events) == (ReaderModel {
            terminated: j < events.len(),
            emitted: frame_values(events, j),
        }),
    decreases events.len(),
{
    if events.len() == 0 {
        assert(frame_values(events, j) =~= Seq::<V>::empty());
    } else {
        let p = events.drop_last();
        let last = events.last();
        if j < events.len() - 1 {
            assert forall|i: int| 0 <= i < j implies is_full_frame(frame_size, #[trigger] p[i]) by {
                assert(p[i] == events[i]);
            }
            assert(p[j] == events[j]);
            lemma_emits_leading_frames(frame_size, p, j);
            assert(frame_values(p, j) =~= frame_values(events, j));
        } else {
            assert forall|i: int| 0 <= i < p.len() implies is_full_frame(frame_size, #[trigger] p[i]) by {
                assert(p[i] == events[i]);
            }
            lemma_emits_leading_frames(frame_size, p, p.len() as int);
            if j == events.len() - 1 {
                assert(frame_values(p, p.len() as int) =~= frame_values(events, j));
            } else {
                assert(is_full_frame(frame_size, events[events.len() - 1]));
                assert(frame_values(p, p.len() as int).push(frame_value(last)) =~= frame_values(events, j));
            }
        }
    }
}

/// A stop signal before any read: nothing is emitted and the reader
/// terminates, whatever events come after it.
pub proof fn lemma_stop_before_read<V>(frame_size: nat, rest: Seq<ReaderEvent<V>>)
    ensures
        run_spec(frame_size, seq![ReaderEvent::<V>::StopSignal] + rest) == (ReaderModel::<V> {
            terminated: true,
            emitted: Seq::empty(),
        }),
{
    let events = seq![ReaderEvent::<V>::StopSignal] + rest;
    assert(events[0] == ReaderEvent::<V>::StopSignal);
    lemma_emits_leading_frames(frame_size, events, 0);
    assert(frame_values(events, 0) =~= Seq::<V>::empty());
}

/// A stop signal after exactly `k` complete frames: exactly those `k` values
/// are emitted, in order, and the reader terminates, whatever events come
/// after the signal.
pub proof fn lemma_stop_after_reads<V>(
    frame_size: nat,
    frames: Seq<ReaderEvent<V>>,
    rest: Seq<ReaderEvent<V>>,
)
    requires
        forall|i: int| 0 <= i < frames.len() ==> is_full_frame(frame_size, #[trigger] frames[i]),
    ensures
        ({
            let m = run_spec(frame_size, frames + seq![ReaderEvent::<V>::StopSignal] + rest);
            &&& m.terminated
            &&& m.emitted.len() == frames.len()
            &&& m.emitted == frames.map_values(|e: ReaderEvent<V>| frame_value(e))
        }),
{
    let events = frames + seq![ReaderEvent::<V>::StopSignal] + rest;
    let k = frames.len() as int;
    assert forall|i: int| 0 <= i < k implies is_full_frame(frame_size, #[trigger] events[i]) by {
        assert(events[i] == frames[i]);
    }
    assert(events[k] == ReaderEvent::<V>::StopSignal);
    lemma_emits_leading_frames(frame_size, events, k);
    assert(events.take(k) =~= frames);
}

} // verus!
