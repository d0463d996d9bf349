use scale::scale::{ConnectedScale, DisconnectedScale, PhidgetError, ScaleError, NUMBER_OF_INPUTS};
use std::cell::RefCell;

#[derive(Debug, Clone, PartialEq)]
struct FakeChannel {
    index: usize,
    device: i32,
    reading: f64,
    opened: bool,
    interval_ms: u32,
}

fn bound(index: usize, device: i32) -> FakeChannel {
    FakeChannel { index, device, reading: 1.0, opened: false, interval_ms: 0 }
}

fn open_ok(mut c: FakeChannel, index: usize) -> Result<FakeChannel, u32> {
    assert_eq!(c.index, index);
    c.opened = true;
    Ok(c)
}

fn connected(id: i32) -> ConnectedScale<FakeChannel, f64> {
    match DisconnectedScale::new(id).connect(0.0, [1.0, 2.0, 3.0, 4.0], |i, d| Some(bound(i, d)), open_ok) {
        Ok(s) => s,
        Err(e) => panic!("connect failed: {:?}", e),
    }
}

#[test]
fn phidget_error_keeps_code_and_channel() {
    let e = PhidgetError::new(3, 2);
    assert_eq!(e.return_code, 3);
    assert_eq!(e.load_cell, 2);
    assert_eq!(ScaleError::phidget_error(3, 2), ScaleError::PhidgetError(e));
}

#[test]
fn disconnected_scale_keeps_identifier() {
    assert_eq!(DisconnectedScale::new(424242).get_phidget_id(), 424242);
}

#[test]
fn connect_opens_every_channel_in_order() {
    let s = connected(77);
    assert_eq!(s.get_phidget_id(), 77);
    assert_eq!(s.offset(), 0.0);
    assert_eq!(s.coefficients(), [1.0, 2.0, 3.0, 4.0]);
    let seen = s.get_raw_readings(|c: &FakeChannel| Ok::<(usize, i32, bool), u32>((c.index, c.device, c.opened))).unwrap();
    assert_eq!(seen, vec![(0, 77, true), (1, 77, true), (2, 77, true), (3, 77, true)]);
}

#[test]
fn connect_with_unbindable_identifier_opens_nothing() {
    let opened = RefCell::new(Vec::new());
    let r = DisconnectedScale::new(-5).connect(
        0.0,
        [1.0; NUMBER_OF_INPUTS],
        |i, d| if d < 0 { None } else { Some(bound(i, d)) },
        |c: FakeChannel, i| {
            opened.borrow_mut().push(i);
            open_ok(c, i)
        },
    );
    assert_eq!(r.err(), Some(ScaleError::InvalidPhidgetId));
    assert!(opened.borrow().is_empty());
}

#[test]
fn connect_binds_all_channels_before_opening_any() {
    let log = RefCell::new(Vec::new());
    let r = DisconnectedScale::new(9).connect(
        0.0,
        [1.0; NUMBER_OF_INPUTS],
        |i, d| {
            log.borrow_mut().push(format!("bind {}", i));
            if i == 3 { None } else { Some(bound(i, d)) }
        },
        |c: FakeChannel, i| {
            log.borrow_mut().push(format!("open {}", i));
            open_ok(c, i)
        },
    );
    assert_eq!(r.err(), Some(ScaleError::InvalidPhidgetId));
    assert_eq!(*log.borrow(), vec!["bind 0", "bind 1", "bind 2", "bind 3"]);
}

#[test]
fn connect_fault_names_the_channel_and_stops() {
    let opened = RefCell::new(Vec::new());
    let r = DisconnectedScale::new(9).connect(
        0.0,
        [1.0; NUMBER_OF_INPUTS],
        |i, d| Some(bound(i, d)),
        |c: FakeChannel, i| {
            opened.borrow_mut().push(i);
            if i == 1 { Err(3) } else { open_ok(c, i) }
        },
    );
    assert_eq!(r.err(), Some(ScaleError::phidget_error(3, 1)));
    assert_eq!(*opened.borrow(), vec![0, 1]);
}

#[test]
fn without_id_adopts_identifier_of_channel_zero() {
    let s = ConnectedScale::without_id(
        0.0,
        |i| bound(i, 0),
        open_ok,
        |c: &FakeChannel| if c.index == 0 { Ok(31337) } else { Err(8) },
    )
    .unwrap();
    assert_eq!(s.get_phidget_id(), 31337);
    assert_eq!(s.offset(), 0.0);
    assert_eq!(s.coefficients(), [0.0; NUMBER_OF_INPUTS]);
}

#[test]
fn without_id_identifier_fault_is_channel_zero() {
    let r: Result<ConnectedScale<FakeChannel, f64>, ScaleError> =
        ConnectedScale::without_id(0.0, |i| bound(i, 0), open_ok, |_c: &FakeChannel| Err(52));
    assert_eq!(r.err(), Some(ScaleError::phidget_error(52, 0)));
}

#[test]
fn without_id_open_fault_names_the_channel() {
    let r: Result<ConnectedScale<FakeChannel, f64>, ScaleError> = ConnectedScale::without_id(
        0.0,
        |i| bound(i, 0),
        |c: FakeChannel, i| if i == 3 { Err(3) } else { open_ok(c, i) },
        |_c: &FakeChannel| Ok(1),
    );
    assert_eq!(r.err(), Some(ScaleError::phidget_error(3, 3)));
}

#[test]
fn raw_readings_in_channel_order() {
    let s = connected(1);
    let r = s.get_raw_readings(|c: &FakeChannel| Ok::<f64, u32>(c.index as f64 * 0.5)).unwrap();
    assert_eq!(r, vec![0.0, 0.5, 1.0, 1.5]);
}

#[test]
fn raw_readings_stop_at_first_faulting_channel() {
    let s = connected(1);
    let attempted = RefCell::new(Vec::new());
    let r = s.get_raw_readings(|c: &FakeChannel| {
        attempted.borrow_mut().push(c.index);
        if c.index >= 2 { Err(5) } else { Ok(c.reading) }
    });
    assert_eq!(r, Err(ScaleError::PhidgetError(PhidgetError::new(5, 2))));
    assert_eq!(*attempted.borrow(), vec![0, 1, 2]);
}

#[test]
fn update_offset_keeps_channels_and_identifier() {
    let s = connected(12);
    let before = s.get_raw_readings(|c: &FakeChannel| Ok::<FakeChannel, u32>(c.clone())).unwrap();
    let s = s.update_offset(2.0);
    assert_eq!(s.offset(), 2.0);
    assert_eq!(s.coefficients(), [1.0, 2.0, 3.0, 4.0]);
    assert_eq!(s.get_phidget_id(), 12);
    let after = s.get_raw_readings(|c: &FakeChannel| Ok::<FakeChannel, u32>(c.clone())).unwrap();
    assert_eq!(before, after);
}

#[test]
fn update_coefficients_keeps_channels_and_identifier() {
    let s = connected(12);
    let before = s.get_raw_readings(|c: &FakeChannel| Ok::<FakeChannel, u32>(c.clone())).unwrap();
    let s = s.update_offset(0.5).update_coefficients([4.0, 3.0, 2.0, 1.0]);
    assert_eq!(s.coefficients(), [4.0, 3.0, 2.0, 1.0]);
    assert_eq!(s.offset(), 0.5);
    assert_eq!(s.get_phidget_id(), 12);
    let after = s.get_raw_readings(|c: &FakeChannel| Ok::<FakeChannel, u32>(c.clone())).unwrap();
    assert_eq!(before, after);
    assert_eq!(after.len(), NUMBER_OF_INPUTS);
}

#[test]
fn data_intervals_set_and_read_back() {
    let mut s = connected(3);
    let r = s.set_data_intervals(|mut c: FakeChannel| {
        c.interval_ms = 8;
        Ok(c)
    });
    assert_eq!(r, Ok(()));
    let got = s.get_data_intervals(|c: &FakeChannel| Ok::<u32, u32>(c.interval_ms)).unwrap();
    assert_eq!(got, vec![8, 8, 8, 8]);
}

#[test]
fn data_interval_fault_leaves_later_channels_untouched() {
    let mut s = connected(3);
    let r = s.set_data_intervals(|mut c: FakeChannel| {
        if c.index == 1 {
            Err((c, 21))
        } else {
            c.interval_ms = 16;
            Ok(c)
        }
    });
    assert_eq!(r, Err(ScaleError::phidget_error(21, 1)));
    let got = s.get_data_intervals(|c: &FakeChannel| Ok::<u32, u32>(c.interval_ms)).unwrap();
    assert_eq!(got, vec![16, 0, 0, 0]);
    let q = s.get_data_intervals(|c: &FakeChannel| if c.index == 0 { Err(52) } else { Ok(c.interval_ms) });
    assert_eq!(q, Err(ScaleError::phidget_error(52, 0)));
}

#[test]
fn sample_channels_takes_rounds() {
    let s = connected(3);
    let r = s.sample_channels(3, |c: &FakeChannel| Ok::<usize, u32>(c.index)).unwrap();
    assert_eq!(r, vec![vec![0, 1, 2, 3]; 3]);
    let none = s.sample_channels(0, |c: &FakeChannel| Ok::<usize, u32>(c.index)).unwrap();
    assert!(none.is_empty());
}

#[test]
fn sample_channels_fails_on_first_fault() {
    let s = connected(3);
    let calls = RefCell::new(0usize);
    let r = s.sample_channels(5, |c: &FakeChannel| {
        *calls.borrow_mut() += 1;
        if *calls.borrow() == 7 { Err(4) } else { Ok(c.index) }
    });
    assert_eq!(r, Err(ScaleError::phidget_error(4, 2)));
    assert_eq!(*calls.borrow(), 7);
}
