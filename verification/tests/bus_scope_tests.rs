use librespectrum::bus::cpu_bus::{Ctrl, MREQ, RD};
use librespectrum::devs::bus_logger::BusState;
use librespectrum::devs::bus_scope::{addr_lane, data_lane, lane_segments, signal_lane, value_labels, Segment, Signal};

fn idle(htcyc: u64) -> BusState {
    BusState {
        htcyc,
        addr: None,
        data: None,
        ctrl: None,
        m1: None,
        busak: None,
        halt: None,
        wait: None,
        int: None,
        nmi: None,
        reset: None,
        busrq: None,
    }
}

fn samples() -> Vec<BusState> {
    let s0 = BusState {
        ctrl: Some((1, Ctrl::new(MREQ | RD))),
        addr: Some((1, 0x1234)),
        m1: Some((1, true)),
        ..idle(0)
    };
    let s1 = BusState {
        ctrl: Some((1, Ctrl::new(0))),
        addr: Some((1, 0x1234)),
        m1: Some((1, false)),
        data: Some((2, 0xab)),
        ..idle(1)
    };
    let s2 = idle(2);
    let s3 = BusState { addr: Some((1, 0x1235)), m1: Some((1, false)), ..idle(3) };
    vec![s0, s1, s2, s3]
}

#[test]
fn lanes_follow_the_readings() {
    let s = samples();
    assert_eq!(signal_lane(&s, Signal::Rd), vec![Some(true), Some(false), None, None]);
    assert_eq!(signal_lane(&s, Signal::Mreq), vec![Some(true), Some(false), None, None]);
    assert_eq!(signal_lane(&s, Signal::Wr), vec![Some(false), Some(false), None, None]);
    assert_eq!(signal_lane(&s, Signal::M1), vec![Some(true), Some(false), None, Some(false)]);
    assert_eq!(signal_lane(&s, Signal::Halt), vec![None, None, None, None]);
    assert_eq!(addr_lane(&s), vec![Some(0x1234), Some(0x1234), None, Some(0x1235)]);
    assert_eq!(data_lane(&s), vec![None, Some(0xab), None, None]);
}

#[test]
fn bus_values_are_labeled_where_they_change() {
    assert_eq!(value_labels(&addr_lane(&samples())), vec![0, 3]);
    assert_eq!(value_labels(&vec![Some(5), None, Some(5), Some(6), Some(5)]), vec![0, 3, 4]);
    assert_eq!(value_labels(&vec![None, None]), Vec::<usize>::new());
}

#[test]
fn digital_lanes_are_drawn_by_segments() {
    let m1 = signal_lane(&samples(), Signal::M1);
    assert_eq!(
        lane_segments(&m1),
        vec![Segment::Level { level: true, edge: true }, Segment::Release(false), Segment::Drive(false)]
    );
    assert_eq!(lane_segments(&vec![Some(true), Some(true), None, None]), vec![
        Segment::Level { level: true, edge: false },
        Segment::Release(true),
        Segment::Float,
    ]);
    assert_eq!(lane_segments(&vec![Some(true)]), Vec::<Segment>::new());
    assert_eq!(lane_segments(&Vec::new()), Vec::<Segment>::new());
}
