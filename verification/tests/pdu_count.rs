use room_timeline::pdu_count::PduCount;

#[test]
fn comparisons() {
    assert!(PduCount::Normal(1) < PduCount::Normal(2));
    assert!(PduCount::Backfilled(2) < PduCount::Backfilled(1));
    assert!(PduCount::Normal(1) > PduCount::Backfilled(1));
    assert!(PduCount::Backfilled(1) < PduCount::Normal(1));
}
