use gnss_test::channel::State;
use gnss_test::state::GnssState;

#[test]
fn test_new_state_is_empty() {
    let st = GnssState::new();
    assert_eq!(st.tow_gpst_sec, 0);
    assert_eq!(st.updates, 0);
    assert!(!st.ion_adj && !st.utc_adj);
    assert_eq!(st.almanac.len(), 32);
    assert_eq!(st.channels.len(), 32);
    for prn in 1..=32u8 {
        assert!(!st.has_channel(prn));
    }
}

#[test]
fn test_has_channel_rejects_out_of_range_prns() {
    let mut st = GnssState::new();
    st.apply_acquisition_round(&vec![1, 32]);
    assert!(st.has_channel(1));
    assert!(st.has_channel(32));
    assert!(!st.has_channel(0));
    assert!(!st.has_channel(33));
}

#[test]
fn test_acquisition_round_creates_channels() {
    let mut st = GnssState::new();
    st.apply_acquisition_round(&vec![5, 7]);
    assert!(st.has_channel(5));
    assert!(st.has_channel(7));
    assert!(!st.has_channel(6));
    let cs = st.channels[4].unwrap();
    assert_eq!(cs.state, State::Acquisition);
    assert_eq!(cs.acq_miss, 0);
    assert!(!cs.has_eph);
}

#[test]
fn test_channel_removed_after_two_missed_rounds() {
    let mut st = GnssState::new();
    st.apply_acquisition_round(&vec![5, 7]);
    assert!(st.has_channel(5));
    // first miss: the channel stays, the miss is recorded
    st.apply_acquisition_round(&vec![7]);
    assert!(st.has_channel(5));
    assert_eq!(st.channels[4].unwrap().acq_miss, 1);
    // second consecutive miss: the channel is gone
    st.apply_acquisition_round(&vec![7]);
    assert!(!st.has_channel(5));
    assert!(st.has_channel(7));
}

#[test]
fn test_reacquisition_clears_miss_count() {
    let mut st = GnssState::new();
    st.apply_acquisition_round(&vec![9]);
    st.apply_acquisition_round(&vec![]);
    assert_eq!(st.channels[8].unwrap().acq_miss, 1);
    st.apply_acquisition_round(&vec![9]);
    assert_eq!(st.channels[8].unwrap().acq_miss, 0);
    st.apply_acquisition_round(&vec![]);
    assert!(st.has_channel(9));
    st.apply_acquisition_round(&vec![]);
    assert!(!st.has_channel(9));
}
