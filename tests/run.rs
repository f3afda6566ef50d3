use keylight::model::{DeviceAddress, DeviceState, LightSettings, Power};
use keylight::orchestrator::{Action, Run, RunError};

fn one_light(on: Power, brightness: u8, temperature: u16) -> DeviceState {
    DeviceState::new(1, vec![LightSettings { on, brightness, temperature }])
}

/// Drives a run with a fake device client: `read` answers each read, `write`
/// says whether each write was taken. Returns the reads asked for, the writes
/// made and how the run ended.
fn drive(
    addresses: Vec<DeviceAddress>,
    read: impl Fn(DeviceAddress) -> Option<DeviceState>,
    write: impl Fn(DeviceAddress) -> bool,
) -> (Vec<DeviceAddress>, Vec<(DeviceAddress, DeviceState)>, Option<RunError>) {
    let mut run = Run::new(addresses);
    let mut reads = Vec::new();
    let mut writes = Vec::new();
    loop {
        match run.next_action() {
            Action::Read(a) => {
                reads.push(a);
                run.on_read(read(a));
            }
            Action::Write(a, s) => {
                let ok = write(a);
                writes.push((a, s));
                run.on_write(ok);
            }
            Action::Finished => return (reads, writes, None),
            Action::Abort(e) => return (reads, writes, Some(e)),
        }
    }
}

#[test]
fn zero_devices_do_nothing() {
    let (reads, writes, end) = drive(Vec::new(), |_| panic!("no read expected"), |_| panic!("no write expected"));
    assert!(reads.is_empty());
    assert!(writes.is_empty());
    assert_eq!(end, None);
}

#[test]
fn end_to_end_single_device() {
    let a = DeviceAddress::new(10, 0, 0, 5);
    let (reads, writes, end) = drive(vec![a], |_| Some(one_light(Power::On, 20, 300)), |_| true);
    assert_eq!(reads, vec![a]);
    assert_eq!(writes, vec![(a, one_light(Power::Off, 20, 300))]);
    assert_eq!(end, None);
}

#[test]
fn second_write_failure_is_ignored() {
    let a = DeviceAddress::new(10, 0, 0, 1);
    let b = DeviceAddress::new(10, 0, 0, 2);
    let (reads, writes, end) = drive(
        vec![a, b],
        |x| if x == a { Some(one_light(Power::On, 30, 200)) } else { Some(one_light(Power::Off, 40, 250)) },
        |x| x == a,
    );
    assert_eq!(reads, vec![a, b]);
    assert_eq!(writes, vec![(a, one_light(Power::Off, 30, 200)), (b, one_light(Power::On, 40, 250))]);
    assert_eq!(end, None);
}

#[test]
fn states_stay_with_their_devices() {
    let addresses: Vec<DeviceAddress> = (1..=5u8).map(|i| DeviceAddress::new(192, 168, 0, i)).collect();
    let state_of = |x: DeviceAddress| Some(one_light(if x.d % 2 == 0 { Power::On } else { Power::Off }, x.d * 10, x.d as u16 * 100));
    let (reads, writes, end) = drive(addresses.clone(), state_of, |_| true);
    assert_eq!(reads, addresses);
    assert_eq!(writes.len(), 5);
    for (i, (a, s)) in writes.iter().enumerate() {
        assert_eq!(*a, addresses[i]);
        let expected = one_light(if a.d % 2 == 0 { Power::Off } else { Power::On }, a.d * 10, a.d as u16 * 100);
        assert_eq!(*s, expected);
    }
    assert_eq!(end, None);
}

#[test]
fn read_failure_aborts_run() {
    let a = DeviceAddress::new(10, 0, 0, 1);
    let b = DeviceAddress::new(10, 0, 0, 2);
    let c = DeviceAddress::new(10, 0, 0, 3);
    let (reads, writes, end) = drive(
        vec![a, b, c],
        |x| if x == b { None } else { Some(one_light(Power::On, 1, 1)) },
        |_| true,
    );
    assert_eq!(reads, vec![a, b]);
    assert!(writes.is_empty());
    assert_eq!(end, Some(RunError::ReadFailed(b)));
}

#[test]
fn state_without_lights_aborts_run() {
    let a = DeviceAddress::new(10, 0, 0, 1);
    let (reads, writes, end) = drive(vec![a], |_| Some(DeviceState::new(0, Vec::new())), |_| true);
    assert_eq!(reads, vec![a]);
    assert!(writes.is_empty());
    assert_eq!(end, Some(RunError::NoLights(a)));
}

#[test]
fn aborted_run_keeps_reporting_error() {
    let a = DeviceAddress::new(10, 0, 0, 1);
    let mut run = Run::new(vec![a]);
    run.on_read(None);
    assert!(matches!(run.next_action(), Action::Abort(RunError::ReadFailed(x)) if x == a));
    assert!(matches!(run.next_action(), Action::Abort(RunError::ReadFailed(x)) if x == a));
}

#[test]
fn state_without_lights_fails_only_after_all_reads() {
    let a = DeviceAddress::new(10, 0, 0, 1);
    let b = DeviceAddress::new(10, 0, 0, 2);
    let (reads, writes, end) = drive(
        vec![a, b],
        |x| if x == a { Some(DeviceState::new(0, Vec::new())) } else { Some(one_light(Power::On, 5, 5)) },
        |_| true,
    );
    assert_eq!(reads, vec![a, b]);
    assert!(writes.is_empty());
    assert_eq!(end, Some(RunError::NoLights(a)));
}

#[test]
fn first_device_without_lights_is_reported() {
    let a = DeviceAddress::new(10, 0, 0, 1);
    let b = DeviceAddress::new(10, 0, 0, 2);
    let c = DeviceAddress::new(10, 0, 0, 3);
    let (reads, writes, end) = drive(
        vec![a, b, c],
        |x| if x == a { Some(one_light(Power::On, 5, 5)) } else { Some(DeviceState::new(1, Vec::new())) },
        |_| true,
    );
    assert_eq!(reads, vec![a, b, c]);
    assert!(writes.is_empty());
    assert_eq!(end, Some(RunError::NoLights(b)));
}
