use mod_installer::errors::Error;
use mod_installer::pipeline::{
    extraction_args, finish_extraction, interpret_extraction, phase_next, preclean_removals,
    preclean_removes, settle_after_extraction, ExtractionOutcome, Phase, PhaseEvent,
};
use mod_installer::registry::KeyRegistry;

#[test]
fn preclean_keeps_archive_and_preview_files() {
    assert!(!preclean_removes("archive.zip", false, "archive.zip"));
    assert!(!preclean_removes("preview.png", false, "archive.zip"));
    assert!(!preclean_removes("preview.jpg", false, "archive.zip"));
    assert!(preclean_removes("old.txt", false, "archive.zip"));
    // Directories are always removed, whatever their name.
    assert!(preclean_removes("archive.zip", true, "archive.zip"));
    assert!(preclean_removes("preview.stuff", true, "archive.zip"));
}

#[test]
fn preclean_scenario_prepopulated_destination() {
    let entries = vec![
        (String::from("old.txt"), false),
        (String::from("preview.png"), false),
        (String::from("archive.zip"), false),
    ];
    let removals = preclean_removals(&entries, "archive.zip");
    assert_eq!(removals.len(), 1);
    assert_eq!(removals[0].0, "old.txt");
    assert!(!removals[0].1);
}

#[test]
fn extraction_command_arguments() {
    let args = extraction_args("/work/downloads/k1/mod.zip", "/work/downloads/k1");
    let texts: Vec<&str> = args.iter().map(|a| a.as_str()).collect();
    assert_eq!(texts, vec!["x", "/work/downloads/k1/mod.zip", "-o/work/downloads/k1", "-y"]);
}

#[test]
fn extraction_failure_surfaces_stderr() {
    let outcome = ExtractionOutcome {
        success: false,
        stderr: String::from("bad CRC"),
        stdout: String::from("ignored"),
    };
    match interpret_extraction(outcome) {
        Err(Error::ExtractionFailed(d)) => assert_eq!(d, "bad CRC"),
        _ => panic!("a nonzero exit must fail with ExtractionFailed"),
    }
}

#[test]
fn extraction_failure_falls_back_to_stdout() {
    let outcome = ExtractionOutcome {
        success: false,
        stderr: String::new(),
        stdout: String::from("cannot open archive"),
    };
    match interpret_extraction(outcome) {
        Err(Error::ExtractionFailed(d)) => assert_eq!(d, "cannot open archive"),
        _ => panic!("a nonzero exit must fail with ExtractionFailed"),
    }
}

#[test]
fn failed_extraction_leaves_registry_untouched() {
    let mut reg = KeyRegistry::new();
    let key = String::from("mod-c");
    reg.begin_tracking(&key);
    let outcome = ExtractionOutcome {
        success: false,
        stderr: String::from("bad CRC"),
        stdout: String::new(),
    };
    let r = finish_extraction(&mut reg, &key, true, true, outcome);
    match r {
        Err(Error::ExtractionFailed(d)) => assert_eq!(d, "bad CRC"),
        _ => panic!("the subprocess failure must surface"),
    }
    // The count still exists for a manual retry; the archive is likewise
    // kept by the driver on this path.
    assert!(reg.is_active(&key));
    assert!(reg.cancel(&key).is_ok());
}

#[test]
fn late_cancellation_invalidates_settlement() {
    let mut reg = KeyRegistry::new();
    let key = String::from("mod-d");
    reg.begin_tracking(&key);
    // Download finished; a cancellation arrives before settlement.
    assert!(reg.cancel(&key).is_ok());
    let r = settle_after_extraction(&mut reg, &key, true, true);
    assert!(matches!(r, Err(Error::SessionInvalidated)));
    // No completion event was produced and the registry is unchanged.
    assert!(!reg.is_active(&key));
}

#[test]
fn successful_settlement_emits_auto_and_releases() {
    let mut reg = KeyRegistry::new();
    let key = String::from("mod-e");
    reg.begin_tracking(&key);
    let outcome = ExtractionOutcome {
        success: true,
        stderr: String::new(),
        stdout: String::new(),
    };
    let fin = finish_extraction(&mut reg, &key, true, true, outcome)
        .expect("live key settles")
        .expect("automated runs emit a completion");
    assert_eq!(fin.key, "mod-e");
    assert!(fin.auto);
    assert!(!reg.is_active(&key));
}

#[test]
fn manual_extraction_skips_the_registry() {
    let mut reg = KeyRegistry::new();
    let key = String::from("manual-key");
    // Never tracked: a manual run is not subject to cancellation.
    let fin = settle_after_extraction(&mut reg, &key, true, false)
        .expect("manual settlement cannot fail")
        .expect("manual runs emit a completion unconditionally");
    assert_eq!(fin.key, "manual-key");
    assert!(!fin.auto);
}

#[test]
fn deletion_without_reporting_settles_silently() {
    let mut reg = KeyRegistry::new();
    let key = String::from("quiet");
    reg.begin_tracking(&key);
    let r = settle_after_extraction(&mut reg, &key, false, true);
    assert!(matches!(r, Ok(None)));
    // The registry is never decremented on this path.
    assert!(reg.is_active(&key));
}

#[test]
fn phase_machine_follows_the_design() {
    assert_eq!(phase_next(Phase::Downloading, PhaseEvent::StreamEnded), Phase::Extracting);
    assert_eq!(phase_next(Phase::Downloading, PhaseEvent::CancelObserved), Phase::Cancelled);
    assert_eq!(phase_next(Phase::Downloading, PhaseEvent::TransferError), Phase::Failed);
    assert_eq!(phase_next(Phase::Extracting, PhaseEvent::ExtractionOk), Phase::Settling);
    assert_eq!(phase_next(Phase::Extracting, PhaseEvent::ExtractionError), Phase::Failed);
    assert_eq!(phase_next(Phase::Settling, PhaseEvent::SettleOk), Phase::Completed);
    assert_eq!(phase_next(Phase::Settling, PhaseEvent::SettleInvalid), Phase::Cancelled);
    // Terminal phases absorb everything.
    assert_eq!(phase_next(Phase::Cancelled, PhaseEvent::ExtractionOk), Phase::Cancelled);
    assert_eq!(phase_next(Phase::Completed, PhaseEvent::TransferError), Phase::Completed);
    assert_eq!(phase_next(Phase::Failed, PhaseEvent::SettleOk), Phase::Failed);
}
