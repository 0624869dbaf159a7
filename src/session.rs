use vstd::prelude::*;

verus! {

/// Where an acquisition session stands.
#[derive(PartialEq, Eq, Structural, Clone, Copy, Debug)]
pub enum SessionState {
    Idle,
    Measuring,
    StoppedAcquired,
}

/// Why a serial device could not be opened.
#[derive(PartialEq, Eq, Structural, Clone, Copy, Debug)]
pub enum OpenError {
    /// The device is missing or was disconnected.
    NoDevice,
    /// The port name or its settings were refused.
    InvalidInput,
    /// The operating system refused the device (busy, permission denied).
    Io,
    /// Any other failure.
    Unknown,
}

/// Why a session could not start.
#[derive(PartialEq, Eq, Structural, Clone, Copy, Debug)]
pub enum StartError {
    /// A session is already measuring: a second worker must not be spawned.
    AlreadyMeasuring,
    /// The device could not be opened.
    Open(OpenError),
}

/// One reading: microseconds since the session started, and the value.
#[derive(Clone, Copy, Debug, PartialEq)]
pub struct Sample<V> {
    pub time_us: u64,
    pub value: V,
}

/// Whether the timestamps of `h` never decrease.
pub open spec fn timestamps_sorted<V>(h: Seq<Sample<V>>) -> bool {
    forall|i: int, j: int| 0 <= i <= j < h.len() ==> h[i].time_us <= h[j].time_us
}

/// Time elapsed from `origin` to `now`, zero if the clock reads earlier.
pub open spec fn elapsed_spec(origin: u64, now: u64) -> u64 {
    if now >= origin { (now - origin) as u64 } else { 0 }
}

/// The timestamp given to samples drained at `now`: the elapsed time, but
/// never earlier than the last sample of the history.
pub open spec fn stamp_spec<V>(h: Seq<Sample<V>>, origin: u64, now: u64) -> u64 {
    if h.len() > 0 && h.last().time_us > elapsed_spec(origin, now) {
        h.last().time_us
    } else {
        elapsed_spec(origin, now)
    }
}

/// The samples made of `values`, all stamped `t`, in order.
pub open spec fn stamped<V>(values: Seq<V>, t: u64) -> Seq<Sample<V>> {
    values.map_values(|v: V| Sample { time_us: t, value: v })
}

/// The state after a stop request from state `s`.
pub open spec fn stop_spec(s: SessionState) -> SessionState {
    if s == SessionState::Measuring {
        SessionState::StoppedAcquired
    } else {
        s
    }
}

/// The lifecycle of one acquisition run: its state, its time origin and the
/// history of samples drained during it.
pub struct AcquisitionSession<V> {
    state: SessionState,
    origin_us: u64,
    history: Vec<Sample<V>>,
}

impl<V: Copy> AcquisitionSession<V> {
    pub closed spec fn spec_state(&self) -> SessionState {
        self.state
    }

    pub closed spec fn spec_origin(&self) -> u64 {
        self.origin_us
    }

    pub closed spec fn spec_history(&self) -> Seq<Sample<V>> {
        self.history@
    }

    /// The session's invariant: the history is in time order.
    pub open spec fn wf(&self) -> bool {
        timestamps_sorted(self.spec_history())
    }

    /// An idle session with an empty history.
    pub fn new() -> (r: Self)
        ensures
            r.wf(),
            r.spec_state() == SessionState::Idle,
            r.spec_history() == Seq::<Sample<V>>::empty(),
            r.spec_origin() == 0,
    {
        AcquisitionSession { state: SessionState::Idle, origin_us: 0, history: Vec::new() }
    }

    /// The current state.
    pub fn current_state(&self) -> (r: SessionState)
        ensures
            r == self.spec_state(),
    {
        self.state
    }

    /// The clock reading at which the current session started.
    pub fn origin_us(&self) -> (r: u64)
        ensures
            r == self.spec_origin(),
    {
        self.origin_us
    }

    /// The samples of the current session, in time order.
    pub fn history(&self) -> (r: &Vec<Sample<V>>)
        ensures
            r@ == self.spec_history(),
    {
        &self.history
    }

    /// The most recent sample, if any.
    pub fn latest(&self) -> (r: Option<Sample<V>>)
        ensures
            self.spec_history().len() == 0 ==> r is None,
            self.spec_history().len() > 0 ==> r == Some(self.spec_history().last()),
    {
        let n = self.history.len();
        if n == 0 {
            None
        } else {
            Some(self.history[n - 1])
        }
    }

    /// Microseconds since the session started, at clock reading `now_us`.
    pub fn elapsed_us(&self, now_us: u64) -> (r: u64)
        ensures
            r == elapsed_spec(self.spec_origin(), now_us),
    {
        if now_us >= self.origin_us {
            now_us - self.origin_us
        } else {
            0
        }
    }

    /// Whether the start control is enabled: a port other than the placeholder
    /// at index 0 is selected and no session is measuring.
    pub fn can_start(&self, selected: usize) -> (r: bool)
        ensures
            r == (selected > 0 && self.spec_state() != SessionState::Measuring),
    {
        selected > 0 && self.state != SessionState::Measuring
    }

    /// Whether the stop control is enabled: a session is measuring.
    pub fn can_stop(&self) -> (r: bool)
        ensures
            r == (self.spec_state() == SessionState::Measuring),
    {
        self.state == SessionState::Measuring
    }

    /// Whether the save control is enabled: a session was stopped with its
    /// samples acquired.
    pub fn can_save(&self) -> (r: bool)
        ensures
            r == (self.spec_state() == SessionState::StoppedAcquired),
    {
        self.state == SessionState::StoppedAcquired
    }

    /// Whether a session may start now: never while one is measuring.
    pub fn check_start(&self) -> (r: Result<(), StartError>)
        ensures
            r is Err <==> self.spec_state() == SessionState::Measuring,
            r is Err ==> r == Err::<(), StartError>(StartError::AlreadyMeasuring),
    {
        if self.state == SessionState::Measuring {
            Err(StartError::AlreadyMeasuring)
        } else {
            Ok(())
        }
    }

    /// Starts a session once the device was opened (`opened` tells how that
    /// went), at clock reading `now_us`. While measuring it fails and changes
    /// nothing; when the device could not be opened it returns that error and
    /// changes nothing. Otherwise the history is cleared, the time origin is
    /// set to `now_us` and the state becomes `Measuring`: the caller then
    /// hands the device to a new worker.
    pub fn start(&mut self, opened: Result<(), OpenError>, now_us: u64) -> (r: Result<(), StartError>)
        requires
            old(self).wf(),
        ensures
            final(self).wf(),
            old(self).spec_state() == SessionState::Measuring ==> r == Err::<(), StartError>(
                StartError::AlreadyMeasuring,
            ),
            old(self).spec_state() != SessionState::Measuring ==> match opened {
                Ok(_) => r is Ok,
                Err(e) => r == Err::<(), StartError>(StartError::Open(e)),
            },
            r is Err ==> *final(self) == *old(self),
            r is Ok ==> {
                &&& final(self).spec_state() == SessionState::Measuring
                &&& final(self).spec_history() == Seq::<Sample<V>>::empty()
                &&& final(self).spec_origin() == now_us
            },
    {
        if self.state == SessionState::Measuring {
            return Err(StartError::AlreadyMeasuring);
        }
        match opened {
            Err(e) => Err(StartError::Open(e)),
            Ok(()) => {
                self.history = Vec::new();
                self.origin_us = now_us;
                self.state = SessionState::Measuring;
                Ok(())
            },
        }
    }

    /// Ends a measuring session. Returns whether a stop signal must be sent to
    /// the worker; in any other state nothing changes and nothing is sent.
    pub fn stop(&mut self) -> (send_stop: bool)
        requires
            old(self).wf(),
        ensures
            final(self).wf(),
            send_stop == (old(self).spec_state() == SessionState::Measuring),
            final(self).spec_state() == stop_spec(old(self).spec_state()),
            final(self).spec_history() == old(self).spec_history(),
            final(self).spec_origin() == old(self).spec_origin(),
    {
        if self.state == SessionState::Measuring {
            self.state = SessionState::StoppedAcquired;
            true
        } else {
            false
        }
    }

    /// Appends the values drained from the worker at clock reading `now_us`
    /// to the history, each stamped with the elapsed time (never earlier than
    /// the last sample), and returns the new samples. The state is not
    /// changed: values arriving after a stop are kept.
    pub fn poll(&mut self, now_us: u64, arrived: Vec<V>) -> (r: Vec<Sample<V>>)
        requires
            old(self).wf(),
        ensures
            final(self).wf(),
            r@ == stamped(arrived@, stamp_spec(old(self).spec_history(), old(self).spec_origin(), now_us)),
            final(self).spec_history() == old(self).spec_history() + r@,
            arrived@.len() == 0 ==> r@.len() == 0 && final(self).spec_history() == old(self).spec_history(),
            final(self).spec_state() == old(self).spec_state(),
            final(self).spec_origin() == old(self).spec_origin(),
    {
        let elapsed = self.elapsed_us(now_us);
        let n = self.history.len();
        let t = if n > 0 && self.history[n - 1].time_us > elapsed {
            self.history[n - 1].time_us
        } else {
            elapsed
        };
        let ghost h0 = self.history@;
        let mut out: Vec<Sample<V>> = Vec::new();
        let mut i: usize = 0;
        while i < arrived.len()
            invariant
                i <= arrived@.len(),
                self.state == old(self).state,
                self.origin_us == old(self).origin_us,
                t == stamp_spec(h0, self.origin_us, now_us),
                timestamps_sorted(h0),
                out@ == stamped(arrived@.take(i as int), t),
                self.history@ == h0 + out@,
            decreases arrived.len() - i,
        {
            let s = Sample { time_us: t, value: arrived[i] };
            self.history.push(s);
            out.push(s);
            i = i + 1;
            assert(arrived@.take(i as int) =~= arrived@.take(i - 1).push(arrived@[i - 1]));
            assert(out@ =~= stamped(arrived@.take(i as int), t));
        }
        assert(arrived@.take(arrived@.len() as int) =~= arrived@);
        assert(self.history@ == h0 + out@);
        assert forall|a: int, b: int| 0 <= a <= b < self.history@.len() implies
            self.history@[a].time_us <= self.history@[b].time_us by {
            if b >= h0.len() {
                assert(self.history@[b].time_us == t);
                if a < h0.len() {
                    assert(h0[a].time_us <= h0.last().time_us);
                }
            }
        }
        out
    }
}

/// Stopping twice has the effect of stopping once: the state after a second
/// stop is the state after the first, and the second sends no stop signal.
pub proof fn lemma_stop_idempotent(s: SessionState)
    ensures
        stop_spec(stop_spec(s)) == stop_spec(s),
        stop_spec(s) != SessionState::Measuring,
{
}

/// Draining keeps order: the values of the history after a poll are the
/// values before it followed by the drained values, in the order they
/// arrived, whatever their timestamp.
pub proof fn lemma_poll_keeps_order<V>(h: Seq<Sample<V>>, arrived: Seq<V>, t: u64)
    ensures
        (h + stamped(arrived, t)).map_values(|s: Sample<V>| s.value) == h.map_values(
            |s: Sample<V>| s.value,
        ) + arrived,
{
    assert((h + stamped(arrived, t)).map_values(|s: Sample<V>| s.value) =~= h.map_values(
        |s: Sample<V>| s.value,
    ) + arrived);
}

/// Draining at a later clock reading never stamps earlier: the timestamp
/// given at `now` is at least the last one of the history and at least the
/// time elapsed, and it grows with `now`.
pub proof fn lemma_stamp_monotone<V>(h: Seq<Sample<V>>, origin: u64, now1: u64, now2: u64)
    requires
        now1 <= now2,
    ensures
        stamp_spec(h, origin, now1) <= stamp_spec(h, origin, now2),
        h.len() > 0 ==> h.last().time_us <= stamp_spec(h, origin, now1),
        elapsed_spec(origin, now1) <= stamp_spec(h, origin, now1),
{
}

} // verus!
