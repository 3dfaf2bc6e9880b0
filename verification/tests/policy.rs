use copykitty::{Comparison, Decision, DestMeta, decide};

#[test]
fn absent_destination_is_always_written() {
    assert_eq!(decide(Comparison::Off, None, Some(1)), Decision::Overwrite);
    assert_eq!(decide(Comparison::Exists, None, Some(1)), Decision::Overwrite);
    assert_eq!(decide(Comparison::Date, None, Some(1)), Decision::Overwrite);
}

#[test]
fn strategy_off_overwrites_existing() {
    let meta = DestMeta { mtime: Some(7), readonly: false };
    assert_eq!(decide(Comparison::Off, Some(meta), Some(7)), Decision::Overwrite);
}

#[test]
fn strategy_exists_skips_existing() {
    let meta = DestMeta { mtime: Some(7), readonly: false };
    assert_eq!(decide(Comparison::Exists, Some(meta), Some(99)), Decision::Skip);
}

#[test]
fn strategy_date_skips_equal_times() {
    let meta = DestMeta { mtime: Some(7), readonly: true };
    assert_eq!(decide(Comparison::Date, Some(meta), Some(7)), Decision::Skip);
}

#[test]
fn strategy_date_overwrites_differing_times() {
    let meta = DestMeta { mtime: Some(7), readonly: false };
    assert_eq!(decide(Comparison::Date, Some(meta), Some(8)), Decision::Overwrite);
}

#[test]
fn strategy_date_refuses_readonly_target() {
    let meta = DestMeta { mtime: Some(7), readonly: true };
    assert_eq!(decide(Comparison::Date, Some(meta), Some(8)), Decision::Abort);
}

#[test]
fn strategy_date_unknown_time_never_counts_as_equal() {
    let unreadable = DestMeta { mtime: None, readonly: false };
    assert_eq!(decide(Comparison::Date, Some(unreadable), Some(7)), Decision::Overwrite);
    let unreadable_ro = DestMeta { mtime: None, readonly: true };
    assert_eq!(decide(Comparison::Date, Some(unreadable_ro), Some(7)), Decision::Abort);
    let meta = DestMeta { mtime: Some(7), readonly: false };
    assert_eq!(decide(Comparison::Date, Some(meta), None), Decision::Overwrite);
}
