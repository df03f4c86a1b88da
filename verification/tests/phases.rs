use mapreduce::error::Error;
use mapreduce::phase::Phase;

#[test]
fn idle_advances_to_mapped() {
    assert_eq!(Phase::Idle.advance(), Phase::Mapped);
}

#[test]
fn mapped_advances_to_sorted() {
    assert_eq!(Phase::Mapped.advance(), Phase::Sorted);
}

#[test]
fn sorted_advances_to_reduced() {
    assert_eq!(Phase::Sorted.advance(), Phase::Reduced);
}

#[test]
fn reduced_is_terminal() {
    assert_eq!(Phase::Reduced.advance(), Phase::Reduced);
}

#[test]
fn fourth_and_later_advances_stay_at_reduced() {
    let mut phase = Phase::Idle;
    let mut seen = Vec::new();
    for _ in 0..10 {
        phase = phase.advance();
        seen.push(phase);
    }
    assert_eq!(seen[0], Phase::Mapped);
    assert_eq!(seen[1], Phase::Sorted);
    for later in &seen[2..] {
        assert_eq!(*later, Phase::Reduced);
    }
}

#[test]
fn no_advance_leads_back_to_idle() {
    for phase in [Phase::Idle, Phase::Mapped, Phase::Sorted, Phase::Reduced] {
        assert_ne!(phase.advance(), Phase::Idle);
    }
}

#[test]
fn every_error_has_its_message() {
    assert_eq!(Error::Spawn.message(), "Could not start worker.");
    assert_eq!(Error::Stream.message(), "Could not access stdin.");
    assert_eq!(Error::Decode.message(), "Could not read as string.");
    assert_eq!(Error::Storage.message(), "Could not access storage.");
    assert_eq!(Error::NothingStored.message(), "Loaded unknown value.");
    assert_eq!(Error::NoWorkers.message(), "No workers.");
    assert_eq!(Error::Incomplete.message(), "Could not finish run.");
}

#[test]
fn errors_are_told_apart() {
    assert_ne!(Error::NothingStored, Error::Storage);
    assert_ne!(Error::Spawn, Error::Incomplete);
    assert_eq!(Error::Decode, Error::Decode);
}
