//! The download engine's decision core: one streaming transfer's byte
//! bookkeeping, the 1024-byte progress threshold, speed/ETA computation, and
//! the cooperative-cancellation check made at each threshold crossing.
//!
//! The engine owns no I/O. The driver reads one chunk from the network,
//! writes it to disk, and reports the chunk here together with the registry's
//! activity answer and the elapsed time; the step result tells it whether to
//! keep going, emit a progress sample, or abort — removing the partial file —
//! because the key was cancelled.

use vstd::prelude::*;
use crate::errors::Error;
use crate::format::{format_speed, format_duration, spec_format_speed, spec_format_duration};

verus! {

/// Minimum byte delta between consecutive progress emissions.
pub const PROGRESS_UPDATE_THRESHOLD: u64 = 1024;

/// One immutable progress snapshot, emitted at a threshold crossing, at
/// cancellation, and at completion.
pub struct ProgressSample {
    pub downloaded: u64,
    pub total: u64,
    pub speed: String,
    pub eta: String,
    pub key: String,
}

/// Average throughput in whole bytes per second (zero while no time has
/// passed), saturating at `u64::MAX`.
pub open spec fn spec_speed(downloaded: u64, elapsed_ms: u64) -> u64 {
    if elapsed_ms == 0 {
        0u64
    } else {
        let q = (downloaded as int) * 1000 / (elapsed_ms as int);
        if q > u64::MAX as int {
            u64::MAX
        } else {
            q as u64
        }
    }
}

/// Computes the average throughput since the transfer started.
pub fn average_speed(downloaded: u64, elapsed_ms: u64) -> (r: u64)
    ensures
        r == spec_speed(downloaded, elapsed_ms),
{
    if elapsed_ms == 0 {
        0
    } else {
        let q: u128 = (downloaded as u128) * 1000 / (elapsed_ms as u128);
        if q > u64::MAX as u128 {
            u64::MAX
        } else {
            q as u64
        }
    }
}

/// Whole seconds left at the given throughput: remaining bytes (floored at
/// zero) over speed, zero when the speed is zero.
pub open spec fn spec_eta_secs(total: u64, downloaded: u64, speed: u64) -> u64 {
    let rem = if total > downloaded {
        (total - downloaded) as u64
    } else {
        0u64
    };
    if speed == 0 {
        0u64
    } else {
        (rem as int / speed as int) as u64
    }
}

/// Computes the estimated seconds remaining.
pub fn eta_secs(total: u64, downloaded: u64, speed: u64) -> (r: u64)
    ensures
        r == spec_eta_secs(total, downloaded, speed),
{
    let rem: u64 = if total > downloaded {
        total - downloaded
    } else {
        0
    };
    if speed == 0 {
        0
    } else {
        rem / speed
    }
}

/// `s` is the ordinary progress snapshot for this point of the transfer.
pub open spec fn is_progress_sample(
    s: ProgressSample,
    downloaded: u64,
    total: u64,
    elapsed_ms: u64,
    key: Seq<char>,
) -> bool {
    let sp = spec_speed(downloaded, elapsed_ms);
    &&& s.downloaded == downloaded
    &&& s.total == total
    &&& s.key@ == key
    &&& s.speed@ == spec_format_speed(sp)
    &&& s.eta@ == spec_format_duration(spec_eta_secs(total, downloaded, sp))
}

/// `s` is a cancellation snapshot: speed and ETA both zeroed.
pub open spec fn is_cancel_sample(
    s: ProgressSample,
    downloaded: u64,
    total: u64,
    key: Seq<char>,
) -> bool {
    &&& s.downloaded == downloaded
    &&& s.total == total
    &&& s.key@ == key
    &&& s.speed@ == spec_format_speed(0)
    &&& s.eta@ == spec_format_duration(0)
}

/// What one chunk's arrival told the engine: how many bytes came, whether the
/// registry still wants the key, and the milliseconds elapsed since the
/// transfer started.
#[derive(Clone, Copy)]
pub struct ChunkObs {
    pub len: u64,
    pub active: bool,
    pub elapsed_ms: u64,
}

/// The engine's instruction to the driver after one chunk.
pub enum ChunkStep {
    /// Keep streaming; the threshold was not crossed (or progress reporting
    /// is off).
    Quiet,
    /// Keep streaming and emit this progress sample, fire-and-forget.
    Progress(ProgressSample),
    /// Stop: the key was cancelled. Discard and remove the partial file, emit
    /// this snapshot as the cancellation event, and fail with
    /// `DownloadCancelled`.
    Cancelled(ProgressSample),
}

/// The classification of a step, used by the run model.
#[derive(Debug, Clone, Copy, PartialEq, Eq, Structural)]
pub enum StepKind {
    QuietStep,
    ProgressStep,
    CancelStep,
}

/// The kind of a step instruction.
pub open spec fn kind_of(s: ChunkStep) -> StepKind {
    match s {
        ChunkStep::Quiet => StepKind::QuietStep,
        ChunkStep::Progress(_) => StepKind::ProgressStep,
        ChunkStep::Cancelled(_) => StepKind::CancelStep,
    }
}

/// State of one streaming transfer, exclusively owned by its download task.
pub struct TransferMachine {
    /// The download key, correlating cancellation and completion.
    pub key: String,
    /// Total size declared by the response.
    pub total: u64,
    /// Whether progress reporting (and with it the cancellation poll) is on.
    pub emit: bool,
    /// Bytes appended to the output file so far.
    pub downloaded: u64,
    /// The byte offset at which a progress sample was last emitted.
    pub last_emitted: u64,
}

/// The transition `on_chunk` implements: count the bytes; at a threshold
/// crossing with reporting on, either emit progress (and remember the
/// offset) or — when the key is no longer active — cancel.
pub open spec fn spec_step(m: TransferMachine, ob: ChunkObs) -> (TransferMachine, StepKind) {
    let d = (m.downloaded + ob.len) as u64;
    if m.emit && d - m.last_emitted >= PROGRESS_UPDATE_THRESHOLD {
        if !ob.active {
            (TransferMachine { downloaded: d, ..m }, StepKind::CancelStep)
        } else {
            (TransferMachine { downloaded: d, last_emitted: d, ..m }, StepKind::ProgressStep)
        }
    } else {
        (TransferMachine { downloaded: d, ..m }, StepKind::QuietStep)
    }
}

/// A whole run over the observed chunks: the final state, the step trace,
/// and whether the run ended in cancellation. A cancellation stops the run
/// at once; no further chunk is processed.
pub open spec fn spec_run(m: TransferMachine, obs: Seq<ChunkObs>) -> (
    TransferMachine,
    Seq<StepKind>,
    bool,
)
    decreases obs.len(),
{
    if obs.len() == 0 {
        (m, Seq::empty(), false)
    } else {
        let (m1, k) = spec_step(m, obs[0]);
        if k == StepKind::CancelStep {
            (m1, seq![k], true)
        } else {
            let rest = spec_run(m1, obs.skip(1));
            (rest.0, seq![k] + rest.1, rest.2)
        }
    }
}

impl TransferMachine {
    /// Progress offsets never run ahead of the byte count.
    pub open spec fn wf(self) -> bool {
        self.last_emitted <= self.downloaded
    }

    /// A fresh transfer for `key` whose response declared `total` bytes.
    pub fn new(key: String, total: u64, emit: bool) -> (r: TransferMachine)
        ensures
            r.wf(),
            r == (TransferMachine { key, total, emit, downloaded: 0, last_emitted: 0 }),
    {
        TransferMachine { key, total, emit, downloaded: 0, last_emitted: 0 }
    }

    /// Accounts for one chunk that was just written to disk and says what the
    /// driver must do next. The cancellation check happens only here — at a
    /// threshold crossing with reporting on — so at most one threshold's
    /// worth of bytes (plus the chunk in flight) lands after a cancellation
    /// request.
    pub fn on_chunk(&mut self, ob: ChunkObs) -> (r: ChunkStep)
        requires
            old(self).wf(),
            old(self).downloaded + ob.len <= u64::MAX,
        ensures
            final(self).wf(),
            *final(self) == spec_step(*old(self), ob).0,
            kind_of(r) == spec_step(*old(self), ob).1,
            match r {
                ChunkStep::Quiet => true,
                ChunkStep::Progress(s) => is_progress_sample(
                    s,
                    final(self).downloaded,
                    final(self).total,
                    ob.elapsed_ms,
                    final(self).key@,
                ),
                ChunkStep::Cancelled(s) => is_cancel_sample(
                    s,
                    final(self).downloaded,
                    final(self).total,
                    final(self).key@,
                ),
            },
    {
        self.downloaded = self.downloaded + ob.len;
        if self.emit && self.downloaded - self.last_emitted >= PROGRESS_UPDATE_THRESHOLD {
            if !ob.active {
                let sample = ProgressSample {
                    downloaded: self.downloaded,
                    total: self.total,
                    speed: format_speed(0),
                    eta: format_duration(0),
                    key: self.key.clone(),
                };
                ChunkStep::Cancelled(sample)
            } else {
                let sp = average_speed(self.downloaded, ob.elapsed_ms);
                let eta = eta_secs(self.total, self.downloaded, sp);
                let sample = ProgressSample {
                    downloaded: self.downloaded,
                    total: self.total,
                    speed: format_speed(sp),
                    eta: format_duration(eta),
                    key: self.key.clone(),
                };
                self.last_emitted = self.downloaded;
                ChunkStep::Progress(sample)
            }
        } else {
            ChunkStep::Quiet
        }
    }

    /// The terminal "extraction pending" sample after the stream is
    /// exhausted and the file flushed: reported as fully downloaded, with
    /// the final average speed and a zero ETA. `None` when progress
    /// reporting is off.
    pub fn finish(&self, elapsed_ms: u64) -> (r: Option<ProgressSample>)
        ensures
            match r {
                Some(s) => self.emit && s.downloaded == self.total && s.total == self.total
                    && s.key@ == self.key@ && s.speed@ == spec_format_speed(
                    spec_speed(self.downloaded, elapsed_ms),
                ) && s.eta@ == spec_format_duration(0),
                None => !self.emit,
            },
    {
        if self.emit {
            let sp = average_speed(self.downloaded, elapsed_ms);
            Some(
                ProgressSample {
                    downloaded: self.total,
                    total: self.total,
                    speed: format_speed(sp),
                    eta: format_duration(0),
                    key: self.key.clone(),
                },
            )
        } else {
            None
        }
    }
}

/// Reads the response's declared size; a transfer without one cannot report
/// progress and is refused.
pub fn declared_total(content_length: Option<u64>) -> (r: Result<u64, Error>)
    ensures
        match r {
            Ok(t) => content_length == Some(t),
            Err(e) => content_length is None && e is SizeUnknown,
        },
{
    match content_length {
        Some(t) => Ok(t),
        None => Err(Error::SizeUnknown),
    }
}

/// A cancellation observed mid-transfer ends the run at once: the step trace
/// then holds exactly one cancellation step and it is the last, so the
/// driver emits the cancellation snapshot exactly once, removes the partial
/// file, and never reaches the completion path of that run. A run that was
/// not cancelled holds no cancellation step at all.
pub proof fn lemma_cancel_ends_run(m: TransferMachine, obs: Seq<ChunkObs>)
    ensures
        spec_run(m, obs).2 ==> {
            let ks = spec_run(m, obs).1;
            &&& ks.len() > 0
            &&& ks.last() == StepKind::CancelStep
            &&& forall|i: int| 0 <= i < ks.len() - 1 ==> ks[i] != StepKind::CancelStep
        },
        !spec_run(m, obs).2 ==> forall|i: int|
            0 <= i < spec_run(m, obs).1.len() ==> spec_run(m, obs).1[i] != StepKind::CancelStep,
    decreases obs.len(),
{
    if obs.len() > 0 {
        let (m1, k) = spec_step(m, obs[0]);
        if k != StepKind::CancelStep {
            lemma_cancel_ends_run(m1, obs.skip(1));
            let rest = spec_run(m1, obs.skip(1));
            let ks = spec_run(m, obs).1;
            assert(ks == seq![k] + rest.1);
            assert forall|i: int| 0 <= i < ks.len() && (!spec_run(m, obs).2 || i < ks.len() - 1)
                implies ks[i] != StepKind::CancelStep by {
                if i > 0 {
                    assert(ks[i] == rest.1[i - 1]);
                }
            }
        }
    }
}

/// While a reporting transfer keeps going, the gap between the byte counter
/// and the last emitted offset stays below the threshold: a quiet step left
/// it there, and a progress step resets it to zero.
pub proof fn lemma_gap_invariant(m: TransferMachine, ob: ChunkObs)
    requires
        m.emit,
        m.wf(),
        m.downloaded - m.last_emitted < PROGRESS_UPDATE_THRESHOLD,
        m.downloaded + ob.len <= u64::MAX,
        spec_step(m, ob).1 != StepKind::CancelStep,
    ensures
        spec_step(m, ob).0.wf(),
        spec_step(m, ob).0.downloaded - spec_step(m, ob).0.last_emitted
            < PROGRESS_UPDATE_THRESHOLD,
{
}

/// Cancellation is cooperative and polling-based, so bytes keep landing
/// until the next threshold check: together with `lemma_gap_invariant`, when
/// a cancellation is finally observed, at most one threshold's worth of
/// bytes plus the chunk in flight were written past the last emission — the
/// lag bound the engine guarantees.
pub proof fn lemma_cancellation_lag(m: TransferMachine, ob: ChunkObs)
    requires
        m.emit,
        m.wf(),
        m.downloaded - m.last_emitted < PROGRESS_UPDATE_THRESHOLD,
        m.downloaded + ob.len <= u64::MAX,
        spec_step(m, ob).1 == StepKind::CancelStep,
    ensures
        spec_step(m, ob).0.downloaded - spec_step(m, ob).0.last_emitted
            < PROGRESS_UPDATE_THRESHOLD + ob.len,
{
}

} // verus!
