//! Cleanup and extraction orchestration: which destination entries the
//! pre-clean removes, how the extraction utility is invoked and its exit
//! interpreted, and the registry settlement that decides whether a completion
//! event may be reported. The subprocess and filesystem work is the driver's;
//! every decision around it is made — and verified — here.

use vstd::prelude::*;
use crate::errors::Error;
use crate::registry::{KeyRegistry, spec_cancel};
use crate::strutil::{spec_starts_with, str_eq, starts_with_str};
use vstd::string::StrSliceExecFns;
use vstd::string::StringExecFns;

verus! {

/// Whether pre-clean removes this immediate child of the destination
/// directory: every directory goes; a file goes unless it is the archive
/// itself or a protected `preview.`-prefixed asset.
pub open spec fn spec_preclean_removes(name: Seq<char>, is_dir: bool, archive: Seq<char>) -> bool {
    if is_dir {
        true
    } else {
        name != archive && !spec_starts_with(name, "preview."@)
    }
}

/// Decides the fate of one destination entry during pre-clean.
pub fn preclean_removes(name: &str, is_dir: bool, archive_name: &str) -> (r: bool)
    ensures
        r == spec_preclean_removes(name@, is_dir, archive_name@),
{
    if is_dir {
        true
    } else {
        !str_eq(name, archive_name) && !starts_with_str(name, "preview.")
    }
}

/// The pre-clean filter as a predicate over `(name, is_dir)` listings.
pub open spec fn preclean_pred(archive: Seq<char>) -> spec_fn((String, bool)) -> bool {
    |e: (String, bool)| spec_preclean_removes(e.0@, e.1, archive)
}

/// The entries pre-clean removes from the destination's immediate children,
/// in listing order. The driver deletes directories recursively and files
/// individually, best-effort: an entry whose removal fails is logged and
/// skipped, never failing the pipeline.
pub fn preclean_removals(entries: &Vec<(String, bool)>, archive_name: &str) -> (r: Vec<
    (String, bool),
>)
    ensures
        r@ == entries@.filter(preclean_pred(archive_name@)),
{
    let ghost pred = preclean_pred(archive_name@);
    let mut r: Vec<(String, bool)> = Vec::new();
    proof {
        reveal(Seq::filter);
        assert(entries@.take(0).filter(pred) =~= Seq::<(String, bool)>::empty());
    }
    let mut i: usize = 0;
    while i < entries.len()
        invariant
            0 <= i <= entries@.len(),
            pred == preclean_pred(archive_name@),
            r@ == entries@.take(i as int).filter(pred),
        decreases entries@.len() - i,
    {
        let e = &entries[i];
        let removes = preclean_removes(e.0.as_str(), e.1, archive_name);
        proof {
            reveal(Seq::filter);
            assert(entries@.take(i as int + 1).drop_last() =~= entries@.take(i as int));
            assert(entries@.take(i as int + 1).last() == entries@[i as int]);
        }
        if removes {
            r.push((e.0.clone(), e.1));
        }
        i += 1;
    }
    proof {
        assert(entries@.take(entries@.len() as int) =~= entries@);
    }
    r
}

/// The argument list for the extraction utility: extract `archive_path` into
/// `dest_dir`, overwriting without prompting.
pub fn extraction_args(archive_path: &str, dest_dir: &str) -> (r: Vec<String>)
    ensures
        r@.len() == 4,
        r@[0]@ == "x"@,
        r@[1]@ == archive_path@,
        r@[2]@ == "-o"@ + dest_dir@,
        r@[3]@ == "-y"@,
{
    let mut out_flag = String::new();
    out_flag.append("-o");
    out_flag.append(dest_dir);
    let mut r: Vec<String> = Vec::new();
    let mut x = String::new();
    x.append("x");
    r.push(x);
    r.push(archive_path.to_owned());
    r.push(out_flag);
    let mut y = String::new();
    y.append("-y");
    r.push(y);
    r
}

/// What the extraction subprocess reported: its exit status and captured
/// output streams.
pub struct ExtractionOutcome {
    pub success: bool,
    pub stderr: String,
    pub stdout: String,
}

/// The error detail surfaced for a failed extraction: standard error, or
/// standard output when that was empty.
pub open spec fn spec_extraction_detail(o: ExtractionOutcome) -> Seq<char> {
    if o.stderr@.len() == 0 {
        o.stdout@
    } else {
        o.stderr@
    }
}

/// Judges the subprocess outcome: a nonzero exit fails the pipeline with
/// `ExtractionFailed` carrying the captured detail; there is no retry.
pub fn interpret_extraction(outcome: ExtractionOutcome) -> (r: Result<(), Error>)
    ensures
        match r {
            Ok(_) => outcome.success,
            Err(e) => !outcome.success && (e matches Error::ExtractionFailed(d) && d@
                == spec_extraction_detail(outcome)),
        },
{
    if outcome.success {
        Ok(())
    } else if outcome.stderr.as_str().unicode_len() == 0 {
        Err(Error::ExtractionFailed(outcome.stdout))
    } else {
        Err(Error::ExtractionFailed(outcome.stderr))
    }
}

/// The completion event reported to the caller once a pipeline run settles.
pub struct FinEvent {
    /// The download key the run belonged to.
    pub key: String,
    /// True for the automated pipeline's settlement, false for a
    /// caller-driven ("manual") extraction.
    pub auto: bool,
}

/// How registry settlement relates the registry before (`m0`) and after
/// (`m1`), the caller's intent, and the result. Without a deletion request
/// the run is manual: no registry touch, an unconditional manual completion
/// event. With deletion but no progress reporting the registry is never
/// decremented and no event is owed. Otherwise the key's count must still be
/// live: it is decremented (the entry removed at zero) and an automatic
/// completion event is returned; a key already released — cancelled between
/// download and settlement — leaves the registry unchanged and fails with
/// `SessionInvalidated`, so no completion event can be reported.
pub open spec fn is_settlement(
    m0: Map<Seq<char>, u64>,
    m1: Map<Seq<char>, u64>,
    key: Seq<char>,
    emit: bool,
    del: bool,
    r: Result<Option<FinEvent>, Error>,
) -> bool {
    if !del {
        m1 == m0 && (r matches Ok(f) && f matches Some(fin) && fin.key@ == key && fin.auto
            == false)
    } else if !emit {
        m1 == m0 && (r matches Ok(f) && f is None)
    } else if m0.contains_key(key) && m0[key] >= 1 {
        m1 == spec_cancel(m0, key).0 && (r matches Ok(f) && f matches Some(fin) && fin.key@ == key
            && fin.auto == true)
    } else {
        m1 == m0 && (r matches Err(e) && e is SessionInvalidated)
    }
}

/// Registry settlement after a successful extraction. A cancellation that
/// arrived after the download finished but before this point makes the key
/// inactive, so settlement fails with `SessionInvalidated` and no completion
/// event is produced.
pub fn settle_after_extraction(
    registry: &mut KeyRegistry,
    key: &String,
    emit: bool,
    del: bool,
) -> (r: Result<Option<FinEvent>, Error>)
    requires
        old(registry).wf(),
    ensures
        final(registry).wf(),
        is_settlement(old(registry)@, final(registry)@, key@, emit, del, r),
{
    if !del {
        Ok(Some(FinEvent { key: key.clone(), auto: false }))
    } else if !emit {
        Ok(None)
    } else {
        match registry.release_after_completion(key) {
            Ok(_) => Ok(Some(FinEvent { key: key.clone(), auto: true })),
            Err(_) => Err(Error::SessionInvalidated),
        }
    }
}

/// The orchestrator's tail: interprets the extraction outcome and, only on
/// success, settles the registry. A failed extraction surfaces its detail
/// and touches neither the registry nor — by the driver's contract — the
/// archive file, which is kept for a manual retry.
pub fn finish_extraction(
    registry: &mut KeyRegistry,
    key: &String,
    emit: bool,
    del: bool,
    outcome: ExtractionOutcome,
) -> (r: Result<Option<FinEvent>, Error>)
    requires
        old(registry).wf(),
    ensures
        final(registry).wf(),
        !outcome.success ==> final(registry)@ == old(registry)@ && (r matches Err(e) && e matches
            Error::ExtractionFailed(d) && d@ == spec_extraction_detail(outcome)),
        outcome.success ==> is_settlement(old(registry)@, final(registry)@, key@, emit, del, r),
{
    match interpret_extraction(outcome) {
        Err(e) => Err(e),
        Ok(_) => settle_after_extraction(registry, key, emit, del),
    }
}

/// The lifecycle of one pipeline run for one key.
#[derive(Debug, Clone, Copy, PartialEq, Eq, Structural)]
pub enum Phase {
    Downloading,
    Extracting,
    Settling,
    Completed,
    Cancelled,
    Failed,
}

/// What moves a run between phases.
#[derive(Debug, Clone, Copy, PartialEq, Eq, Structural)]
pub enum PhaseEvent {
    /// The response stream ended and the file was flushed.
    StreamEnded,
    /// A threshold check found the key no longer active.
    CancelObserved,
    /// The network or the disk failed mid-stream.
    TransferError,
    /// The extraction subprocess exited zero.
    ExtractionOk,
    /// The extraction subprocess exited nonzero.
    ExtractionError,
    /// Registry settlement decremented a live count.
    SettleOk,
    /// Registry settlement found the key already released.
    SettleInvalid,
}

/// The phase transition relation. Terminal phases absorb every event; an
/// event that cannot occur in a phase leaves it unchanged.
pub open spec fn spec_phase_next(p: Phase, ev: PhaseEvent) -> Phase {
    match (p, ev) {
        (Phase::Downloading, PhaseEvent::StreamEnded) => Phase::Extracting,
        (Phase::Downloading, PhaseEvent::CancelObserved) => Phase::Cancelled,
        (Phase::Downloading, PhaseEvent::TransferError) => Phase::Failed,
        (Phase::Extracting, PhaseEvent::ExtractionOk) => Phase::Settling,
        (Phase::Extracting, PhaseEvent::ExtractionError) => Phase::Failed,
        (Phase::Settling, PhaseEvent::SettleOk) => Phase::Completed,
        (Phase::Settling, PhaseEvent::SettleInvalid) => Phase::Cancelled,
        _ => p,
    }
}

/// Advances one run's phase on an event.
pub fn phase_next(p: Phase, ev: PhaseEvent) -> (r: Phase)
    ensures
        r == spec_phase_next(p, ev),
{
    match (p, ev) {
        (Phase::Downloading, PhaseEvent::StreamEnded) => Phase::Extracting,
        (Phase::Downloading, PhaseEvent::CancelObserved) => Phase::Cancelled,
        (Phase::Downloading, PhaseEvent::TransferError) => Phase::Failed,
        (Phase::Extracting, PhaseEvent::ExtractionOk) => Phase::Settling,
        (Phase::Extracting, PhaseEvent::ExtractionError) => Phase::Failed,
        (Phase::Settling, PhaseEvent::SettleOk) => Phase::Completed,
        (Phase::Settling, PhaseEvent::SettleInvalid) => Phase::Cancelled,
        (q, _) => q,
    }
}

/// A run reaches `Cancelled` in exactly two ways: a cancellation observed at
/// a progress threshold while downloading, or a settlement that found the
/// key released after the download had completed.
pub proof fn lemma_cancelled_sources(p: Phase, ev: PhaseEvent)
    ensures
        spec_phase_next(p, ev) == Phase::Cancelled && p != Phase::Cancelled ==> (p
            == Phase::Downloading && ev == PhaseEvent::CancelObserved) || (p == Phase::Settling
            && ev == PhaseEvent::SettleInvalid),
        p == Phase::Completed || p == Phase::Cancelled || p == Phase::Failed ==> spec_phase_next(
            p,
            ev,
        ) == p,
{
}

} // verus!
