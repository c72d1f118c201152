use wgpu_playground::nonce::add_big_int;
use wgpu_playground::params::{SearchError, SearchParameters};
use wgpu_playground::readback::{MapOutcome, Readback, ReadbackState};
use wgpu_playground::session::{
    convert_fat_buf, input_words, Inspection, Phase, SearchSession,
};

fn run_round(s: &mut SearchSession, slot: [u32; 32]) -> Result<Inspection, SearchError> {
    let order = s.next_dispatch(false).unwrap();
    assert_eq!(order.input, s.input());
    s.dispatch_submitted(true).unwrap();
    s.map_completed(MapOutcome::Mapped(slot)).unwrap();
    s.inspect()
}

#[test]
fn parameters_reject_zero_and_out_of_range() {
    assert_eq!(SearchParameters::new(0, 1, 1, 0), Err(SearchError::InvalidParameters));
    assert_eq!(SearchParameters::new(1, 0, 1, 0), Err(SearchError::InvalidParameters));
    assert_eq!(SearchParameters::new(1, 1, 0, 0), Err(SearchError::InvalidParameters));
    assert_eq!(SearchParameters::new(1, 1, 1, 257), Err(SearchError::InvalidParameters));
    assert_eq!(SearchParameters::new(65536, 65536, 1, 8), Err(SearchError::InvalidParameters));
    let p = SearchParameters::new(64, 256, 16, 256).unwrap();
    assert_eq!(p.runs_per_dispatch(), 256 * 64);
    assert_eq!(p.hashes_per_dispatch(), 256 * 64 * 16);
}

#[test]
fn zero_slot_advances_input_by_one_dispatch() {
    let mut s = SearchSession::start(4, 3, 5, 20).unwrap();
    let before = s.input();
    assert_eq!(run_round(&mut s, [0u32; 32]), Ok(Inspection::Continue));
    let mut expected = before;
    add_big_int(&mut expected, 3 * 4 * 5);
    assert_eq!(s.input(), expected);
    assert_eq!(s.input()[0], 60);
    assert_eq!(s.total_hashes(), 60);
    assert_eq!(s.dispatch_count(), 1);
    assert_eq!(s.phase(), Phase::Idle);
}

#[test]
fn trivial_difficulty_finds_on_first_dispatch() {
    let mut s = SearchSession::start(1, 1, 1, 0).unwrap();
    let order = s.next_dispatch(false).unwrap();
    assert_eq!(order.input, [0u8; 32]);
    assert_eq!(order.workgroups, 1);
    s.dispatch_submitted(true).unwrap();
    let mut slot = [0u32; 32];
    slot[0] = 0x100;
    s.map_completed(MapOutcome::Mapped(slot)).unwrap();
    assert_eq!(s.inspect(), Ok(Inspection::Found([0u8; 32])));
    assert_eq!(s.phase(), Phase::Found);
    assert_eq!(s.input(), [0u8; 32]);
    assert_eq!(s.dispatch_count(), 0);
}

#[test]
fn cancelled_after_three_dispatches() {
    let mut s = SearchSession::start(8, 2, 3, 256).unwrap();
    for _ in 0..3 {
        assert_eq!(run_round(&mut s, [0u32; 32]), Ok(Inspection::Continue));
    }
    assert_eq!(s.next_dispatch(true), None);
    assert_eq!(s.phase(), Phase::Cancelled);
    assert_eq!(s.total_hashes(), 3 * 2 * 8 * 3);
    assert_eq!(s.dispatch_count(), 3);
    let mut expected = [0u8; 32];
    add_big_int(&mut expected, 3 * 2 * 8 * 3);
    assert_eq!(s.input(), expected);
}

#[test]
fn winner_is_low_byte_of_each_word() {
    let mut s = SearchSession::start(2, 2, 2, 8).unwrap();
    let mut slot = [0u32; 32];
    slot[0] = 0x1ab;
    slot[31] = 7;
    let mut expected = [0u8; 32];
    expected[0] = 0xab;
    expected[31] = 7;
    assert_eq!(run_round(&mut s, slot), Ok(Inspection::Found(expected)));
    assert_eq!(convert_fat_buf(&slot), expected);
}

#[test]
fn submission_failure_ends_session() {
    let mut s = SearchSession::start(1, 1, 1, 8).unwrap();
    s.next_dispatch(false).unwrap();
    assert_eq!(s.dispatch_submitted(false), Err(SearchError::DeviceFailure));
    assert_eq!(s.phase(), Phase::Failed(SearchError::DeviceFailure));
}

#[test]
fn map_failure_ends_session() {
    let mut s = SearchSession::start(1, 1, 1, 8).unwrap();
    s.next_dispatch(false).unwrap();
    s.dispatch_submitted(true).unwrap();
    s.map_completed(MapOutcome::Failed).unwrap();
    assert_eq!(s.inspect(), Err(SearchError::DeviceFailure));
    assert_eq!(s.phase(), Phase::Failed(SearchError::DeviceFailure));
}

#[test]
fn lost_signal_closes_channel() {
    let mut s = SearchSession::start(1, 1, 1, 8).unwrap();
    s.next_dispatch(false).unwrap();
    s.dispatch_submitted(true).unwrap();
    assert_eq!(s.inspect(), Err(SearchError::ReadbackChannelClosed));
    assert_eq!(s.phase(), Phase::Failed(SearchError::ReadbackChannelClosed));
}

#[test]
fn second_map_request_fails_fast() {
    let mut r = Readback::new();
    assert_eq!(r.request(), Ok(()));
    assert_eq!(r.request(), Err(SearchError::ProtocolViolation));
    assert_eq!(r.state(), ReadbackState::Pending);
    let slot = [3u32; 32];
    assert_eq!(r.signal(MapOutcome::Mapped(slot)), Ok(()));
    assert_eq!(r.request(), Err(SearchError::ProtocolViolation));
    assert_eq!(r.signal(MapOutcome::Failed), Err(SearchError::ProtocolViolation));
    assert_eq!(r.take(), Ok(MapOutcome::Mapped(slot)));
    assert_eq!(r.state(), ReadbackState::Idle);
    assert_eq!(r.take(), Err(SearchError::ProtocolViolation));
    assert_eq!(r.request(), Ok(()));
}

#[test]
fn signal_without_request_is_refused() {
    let mut s = SearchSession::start(1, 1, 1, 8).unwrap();
    assert_eq!(s.map_completed(MapOutcome::Failed), Err(SearchError::ProtocolViolation));
    assert_eq!(s.phase(), Phase::Idle);
}

#[test]
fn input_words_widen_bytes() {
    let mut b = [0u8; 32];
    b[0] = 0xff;
    b[5] = 17;
    let w = input_words(&b);
    assert_eq!(w[0], 0xff);
    assert_eq!(w[5], 17);
    assert_eq!(w[1], 0);
}
