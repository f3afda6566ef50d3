use crate::model::{flipped, DeviceState, DeviceStateView, LightSettings};
use vstd::prelude::*;

verus! {

/// The state with the power of light 0 turned around and everything else kept.
pub open spec fn toggled(s: DeviceStateView) -> DeviceStateView
    recommends
        s.lights.len() > 0,
{
    DeviceStateView {
        number_of_lights: s.number_of_lights,
        lights: s.lights.update(0, LightSettings { on: flipped(s.lights[0].on), ..s.lights[0] }),
    }
}

/// Whether a state has a first light to toggle.
pub open spec fn has_lights(s: DeviceStateView) -> bool {
    s.lights.len() > 0
}

/// Flips the power of the first light; brightness, temperature, the light
/// count and every further light are left as they are.
pub fn toggle(state: DeviceState) -> (r: DeviceState)
    requires
        has_lights(state@),
    ensures
        r@ == toggled(state@),
{
    let mut lights = state.lights;
    let first = lights[0];
    lights.set(0, LightSettings { on: first.on.flip(), ..first });
    DeviceState { number_of_lights: state.number_of_lights, lights }
}

/// Toggles every state of the sequence, keeping their order.
pub fn toggle_light_state(statuses: Vec<DeviceState>) -> (r: Vec<DeviceState>)
    requires
        forall|i: int| 0 <= i < statuses@.len() ==> has_lights(#[trigger] statuses@[i]@),
    ensures
        r@.len() == statuses@.len(),
        forall|i: int| 0 <= i < r@.len() ==> #[trigger] r@[i]@ == toggled(statuses@[i]@),
{
    let mut out: Vec<DeviceState> = Vec::new();
    let mut i: usize = 0;
    while i < statuses.len()
        invariant
            i <= statuses@.len(),
            out@.len() == i,
            forall|j: int| 0 <= j < i ==> #[trigger] out@[j]@ == toggled(statuses@[j]@),
            forall|j: int| 0 <= j < statuses@.len() ==> has_lights(#[trigger] statuses@[j]@),
        decreases statuses@.len() - i,
    {
        out.push(toggle(statuses[i].duplicate()));
        i = i + 1;
    }
    out
}

/// Toggling twice gives back the state one started from.
pub proof fn lemma_toggle_involution(s: DeviceStateView)
    requires
        has_lights(s),
    ensures
        has_lights(toggled(s)),
        toggled(toggled(s)) == s,
{
    assert(toggled(toggled(s)).lights =~= s.lights);
}

/// Toggling changes the power of light 0 and nothing else: the light count,
/// the number of lights, light 0's brightness and temperature, and every light
/// after the first stay exactly as they were.
pub proof fn lemma_toggle_only_first_power(s: DeviceStateView)
    requires
        has_lights(s),
    ensures
        toggled(s).number_of_lights == s.number_of_lights,
        toggled(s).lights.len() == s.lights.len(),
        toggled(s).lights[0].on != s.lights[0].on,
        toggled(s).lights[0].brightness == s.lights[0].brightness,
        toggled(s).lights[0].temperature == s.lights[0].temperature,
        forall|i: int| 1 <= i < s.lights.len() ==> #[trigger] toggled(s).lights[i] == s.lights[i],
{
}

} // verus!
