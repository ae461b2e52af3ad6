//! The audio ingest buffer and the periodic drain that empties it.

use vstd::prelude::*;

verus! {

/// Samples waiting to be transcribed, in the order they were captured.
pub struct AudioIngestBuffer<T> {
    samples: Vec<T>,
}

/// What one drain tick asks of the pipeline.
pub enum TickAction<T> {
    /// Capture is disabled: nothing was drained.
    Skip,
    /// Capture is enabled but nothing had been buffered.
    Idle,
    /// Everything buffered so far, to be transcribed.
    Transcribe(Vec<T>),
}

/// Something that happens to an ingest buffer.
pub enum IngestEvent<T> {
    /// The capture callback delivers samples.
    Append(Seq<T>),
    /// The drain timer fires while capture is enabled (`true`) or disabled.
    Tick(bool),
}

/// The buffer's content after a tick.
pub open spec fn left_after_tick<T>(enabled: bool, buffered: Seq<T>) -> Seq<T> {
    if enabled {
        Seq::empty()
    } else {
        buffered
    }
}

/// The samples a tick hands over for transcription.
pub open spec fn taken_by_tick<T>(enabled: bool, buffered: Seq<T>) -> Seq<T> {
    if enabled {
        buffered
    } else {
        Seq::empty()
    }
}

/// The buffer's content after `events`, starting empty.
pub open spec fn buffered_after<T>(events: Seq<IngestEvent<T>>) -> Seq<T>
    decreases events.len(),
{
    if events.len() == 0 {
        Seq::empty()
    } else {
        let before = buffered_after(events.drop_last());
        match events.last() {
            IngestEvent::Append(samples) => before + samples,
            IngestEvent::Tick(enabled) => left_after_tick(enabled, before),
        }
    }
}

/// Every sample handed over for transcription during `events`, in order.
pub open spec fn dispatched_during<T>(events: Seq<IngestEvent<T>>) -> Seq<T>
    decreases events.len(),
{
    if events.len() == 0 {
        Seq::empty()
    } else {
        let sent = dispatched_during(events.drop_last());
        match events.last() {
            IngestEvent::Append(_) => sent,
            IngestEvent::Tick(enabled) => sent + taken_by_tick(
                enabled,
                buffered_after(events.drop_last()),
            ),
        }
    }
}

/// Every sample delivered by the capture callback during `events`, in order.
pub open spec fn captured_during<T>(events: Seq<IngestEvent<T>>) -> Seq<T>
    decreases events.len(),
{
    if events.len() == 0 {
        Seq::empty()
    } else {
        let captured = captured_during(events.drop_last());
        match events.last() {
            IngestEvent::Append(samples) => captured + samples,
            IngestEvent::Tick(_) => captured,
        }
    }
}

impl<T> View for AudioIngestBuffer<T> {
    type V = Seq<T>;

    /// The samples buffered, oldest first.
    closed spec fn view(&self) -> Seq<T> {
        self.samples@
    }
}

impl<T> AudioIngestBuffer<T> {
    /// An empty buffer.
    pub fn new() -> (r: Self)
        ensures
            r@ == Seq::<T>::empty(),
    {
        AudioIngestBuffer { samples: Vec::new() }
    }

    /// The number of samples buffered.
    pub fn len(&self) -> (r: usize)
        ensures
            r == self@.len(),
    {
        self.samples.len()
    }

    /// Moves `batch` to the end of the buffer.
    pub fn append(&mut self, batch: Vec<T>)
        ensures
            final(self)@ == old(self)@ + batch@,
    {
        let mut batch = batch;
        self.samples.append(&mut batch);
    }

    /// Takes everything buffered and leaves the buffer empty.
    pub fn drain(&mut self) -> (r: Vec<T>)
        ensures
            r@ == old(self)@,
            final(self)@ == Seq::<T>::empty(),
    {
        let mut taken: Vec<T> = Vec::new();
        core::mem::swap(&mut self.samples, &mut taken);
        taken
    }
}

/// One tick of the drain timer. While capture is disabled the buffer is left
/// alone and keeps filling; while it is enabled the buffer is emptied, and
/// what it held is handed over for transcription unless there was nothing.
pub fn drain_tick<T>(enabled: bool, buffer: &mut AudioIngestBuffer<T>) -> (r: TickAction<T>)
    ensures
        final(buffer)@ == left_after_tick(enabled, old(buffer)@),
        !enabled ==> r is Skip,
        enabled && old(buffer)@.len() == 0 ==> r is Idle,
        enabled && old(buffer)@.len() > 0 ==> r is Transcribe && r->Transcribe_0@ == taken_by_tick(
            enabled,
            old(buffer)@,
        ),
{
    if !enabled {
        return TickAction::Skip;
    }
    let batch = buffer.drain();
    if batch.len() == 0 {
        TickAction::Idle
    } else {
        TickAction::Transcribe(batch)
    }
}

/// No sample is lost and none is repeated, in whatever order appends and
/// ticks take their turns: what was handed over for transcription, followed
/// by what is still buffered, is exactly what was captured, in capture order.
pub proof fn lemma_no_sample_lost<T>(events: Seq<IngestEvent<T>>)
    ensures
        dispatched_during(events) + buffered_after(events) == captured_during(events),
    decreases events.len(),
{
    if events.len() == 0 {
        assert(Seq::<T>::empty() + Seq::<T>::empty() =~= Seq::<T>::empty());
    } else {
        let rest = events.drop_last();
        lemma_no_sample_lost(rest);
        let sent = dispatched_during(rest);
        let held = buffered_after(rest);
        match events.last() {
            IngestEvent::Append(samples) => {
                assert(sent + (held + samples) =~= (sent + held) + samples);
            },
            IngestEvent::Tick(enabled) => {
                assert((sent + taken_by_tick(enabled, held)) + left_after_tick(enabled, held)
                    =~= sent + held);
            },
        }
    }
}

/// A tick while capture is disabled dispatches nothing and leaves the buffer
/// as it was, so the samples captured meanwhile stay buffered.
pub proof fn lemma_disabled_tick_keeps_samples<T>(events: Seq<IngestEvent<T>>)
    ensures
        buffered_after(events.push(IngestEvent::Tick(false))) == buffered_after(events),
        dispatched_during(events.push(IngestEvent::Tick(false))) == dispatched_during(events),
{
    let next = events.push(IngestEvent::Tick(false));
    assert(next.drop_last() =~= events);
    assert(dispatched_during(events) + Seq::<T>::empty() =~= dispatched_during(events));
}

/// The first enabled tick after a pause hands over everything captured since
/// the last drain, the samples captured during the pause included.
pub proof fn lemma_enabled_tick_takes_all<T>(events: Seq<IngestEvent<T>>)
    ensures
        dispatched_during(events.push(IngestEvent::Tick(true))) == captured_during(events),
        buffered_after(events.push(IngestEvent::Tick(true))) == Seq::<T>::empty(),
{
    let next = events.push(IngestEvent::Tick(true));
    assert(next.drop_last() =~= events);
    lemma_no_sample_lost(events);
}

} // verus!
