use rekordbox_convert::{summarize, BatchSummary, DecisionSkip, EncodeError, UnitOutcome};

fn outcome(k: usize) -> UnitOutcome {
    match k % 4 {
        0 => UnitOutcome::Converted,
        1 => UnitOutcome::Skipped(DecisionSkip::NotTagged),
        2 => UnitOutcome::Failed(EncodeError::SpawnFailure("no encoder".to_string())),
        _ => UnitOutcome::Skipped(DecisionSkip::AlreadyCompliant),
    }
}

#[test]
fn empty_batch() {
    assert_eq!(summarize(&vec![]), BatchSummary { iterated: 0, converted: 0 });
}

#[test]
fn counts_units_and_conversions() {
    let outcomes = vec![
        UnitOutcome::Converted,
        UnitOutcome::Skipped(DecisionSkip::UnsupportedFormat),
        UnitOutcome::Failed(EncodeError::NonZeroExit { code: Some(1), diagnostics: String::new() }),
        UnitOutcome::Converted,
    ];
    assert_eq!(summarize(&outcomes), BatchSummary { iterated: 4, converted: 2 });
}

#[test]
fn large_batch_in_any_order() {
    let forward: Vec<UnitOutcome> = (0..120).map(outcome).collect();
    let backward: Vec<UnitOutcome> = (0..120).rev().map(outcome).collect();
    let interleaved: Vec<UnitOutcome> = (0..120).map(|k| outcome((k * 7) % 120)).collect();
    let expected = BatchSummary { iterated: 120, converted: 30 };
    assert_eq!(summarize(&forward), expected);
    assert_eq!(summarize(&backward), expected);
    assert_eq!(summarize(&interleaved), expected);
    let s = summarize(&forward);
    assert!(s.converted <= s.iterated);
}
