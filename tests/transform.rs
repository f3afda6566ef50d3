use keylight::model::{DeviceState, LightSettings, Power};
use keylight::transform::{toggle, toggle_light_state};

fn light(on: Power, brightness: u8, temperature: u16) -> LightSettings {
    LightSettings { on, brightness, temperature }
}

#[test]
fn toggle_turns_on_light_off() {
    let s = DeviceState::new(1, vec![light(Power::On, 20, 300)]);
    let t = toggle(s);
    assert_eq!(t, DeviceState::new(1, vec![light(Power::Off, 20, 300)]));
}

#[test]
fn toggle_turns_off_light_on() {
    let s = DeviceState::new(1, vec![light(Power::Off, 50, 200)]);
    let t = toggle(s);
    assert_eq!(t.lights[0].on, Power::On);
}

#[test]
fn toggle_twice_gives_back_the_state() {
    for on in [Power::On, Power::Off] {
        for brightness in [0u8, 50, 100] {
            for temperature in [0u16, 143, 65535] {
                let s = DeviceState::new(2, vec![light(on, brightness, temperature), light(Power::On, 7, 9)]);
                let back = toggle(toggle(s.clone()));
                assert_eq!(back, s);
            }
        }
    }
}

#[test]
fn toggle_keeps_everything_but_first_power() {
    let s = DeviceState::new(3, vec![
        light(Power::On, 10, 150),
        light(Power::On, 60, 250),
        light(Power::Off, 90, 344),
    ]);
    let t = toggle(s.clone());
    assert_eq!(t.number_of_lights, 3);
    assert_eq!(t.lights.len(), 3);
    assert_eq!(t.lights[0], light(Power::Off, 10, 150));
    assert_eq!(t.lights[1], s.lights[1]);
    assert_eq!(t.lights[2], s.lights[2]);
}

#[test]
fn toggle_ignores_mismatched_count() {
    let s = DeviceState::new(5, vec![light(Power::Off, 1, 2)]);
    let t = toggle(s);
    assert_eq!(t, DeviceState::new(5, vec![light(Power::On, 1, 2)]));
}

#[test]
fn toggle_light_state_toggles_each_in_order() {
    let states = vec![
        DeviceState::new(1, vec![light(Power::On, 1, 100)]),
        DeviceState::new(1, vec![light(Power::Off, 2, 200)]),
    ];
    let out = toggle_light_state(states);
    assert_eq!(out, vec![
        DeviceState::new(1, vec![light(Power::Off, 1, 100)]),
        DeviceState::new(1, vec![light(Power::On, 2, 200)]),
    ]);
}

#[test]
fn toggle_light_state_of_nothing_is_nothing() {
    assert!(toggle_light_state(Vec::new()).is_empty());
}
