use event_scheduler::board::{BoardError, Id, Support, Unsupported};
use event_scheduler::runner::{Buttons, Timers};

#[test]
fn identifier_accepts_indices_below_the_count() {
    for i in 0..4 {
        let id = Id::<Buttons>::new(i).unwrap();
        assert_eq!(id.get(), i);
    }
}

#[test]
fn identifier_rejects_the_count_and_above() {
    assert!(matches!(Id::<Buttons>::new(4), Err(BoardError::InvalidId)));
    assert!(matches!(Id::<Timers>::new(usize::MAX), Err(BoardError::InvalidId)));
}

#[test]
fn unsupported_capability_has_no_identifier() {
    assert_eq!(Unsupported::support(), 0);
    assert!(matches!(Id::<Unsupported>::new(0), Err(BoardError::InvalidId)));
    assert!(matches!(Id::<Unsupported>::new(1), Err(BoardError::InvalidId)));
}
