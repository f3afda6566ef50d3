use crate::model::{DeviceAddress, DeviceState, DeviceStateView};
use crate::transform::{has_lights, toggle_light_state, toggled};
use vstd::prelude::*;

verus! {

/// Why a run was abandoned.
#[derive(Debug, Clone, Copy, PartialEq, Eq, Structural)]
pub enum RunError {
    /// Reading the state of this device failed.
    ReadFailed(DeviceAddress),
    /// Once every device was read, this was the first whose state has no light to toggle.
    NoLights(DeviceAddress),
}

/// What the caller is to do next.
#[derive(Debug)]
pub enum Action {
    /// Read the state of this device and report it with `on_read`.
    Read(DeviceAddress),
    /// Send this state to this device and report with `on_write`.
    Write(DeviceAddress, DeviceState),
    /// Every device has been read, toggled and written.
    Finished,
    /// The run stops on this error.
    Abort(RunError),
}

/// Mathematical value of a run: the devices, the states read from them in
/// order, how many writes were made, and the error that stopped it, if any.
pub struct RunView {
    pub addresses: Seq<DeviceAddress>,
    pub reads: Seq<DeviceStateView>,
    pub written: nat,
    pub failed: Option<RunError>,
}

/// A run over these devices before any read.
pub open spec fn run_start(addresses: Seq<DeviceAddress>) -> RunView {
    RunView { addresses, reads: Seq::empty(), written: 0, failed: None }
}

/// Some device is still to be read.
pub open spec fn is_reading(v: RunView) -> bool {
    v.failed is None && v.reads.len() < v.addresses.len()
}

/// Every device was read; some toggled state is still to be written.
pub open spec fn is_writing(v: RunView) -> bool {
    v.failed is None && v.reads.len() == v.addresses.len() && v.written < v.addresses.len()
}

/// Every device was read and written, without error.
pub open spec fn is_finished(v: RunView) -> bool {
    v.failed is None && v.reads.len() == v.addresses.len() && v.written == v.addresses.len()
}

/// The index of the first of `reads`, from `i` on, that has no light; the
/// length of `reads` when every one has a light.
pub open spec fn first_without_lights_from(reads: Seq<DeviceStateView>, i: int) -> int
    decreases reads.len() - i,
{
    if i < 0 || i >= reads.len() {
        reads.len() as int
    } else if !has_lights(reads[i]) {
        i
    } else {
        first_without_lights_from(reads, i + 1)
    }
}

/// The index of the first state without a light; the length when there is none.
pub open spec fn first_without_lights(reads: Seq<DeviceStateView>) -> int {
    first_without_lights_from(reads, 0)
}

/// The error owed once every device is read: the toggle needs a light in each
/// state, so the first device whose state has none stops the run.
pub open spec fn toggle_failure(addresses: Seq<DeviceAddress>, reads: Seq<DeviceStateView>) -> Option<RunError> {
    if reads.len() == addresses.len() && first_without_lights(reads) < reads.len() {
        Some(RunError::NoLights(addresses[first_without_lights(reads)]))
    } else {
        None
    }
}

/// The run after the read of the next device gave `outcome` (`None`: the read
/// failed). A failed read stops the run. Every state read is kept; once the
/// last is in, a state without lights stops the run before the toggle.
pub open spec fn run_after_read(v: RunView, outcome: Option<DeviceStateView>) -> RunView
    recommends
        is_reading(v),
{
    let address = v.addresses[v.reads.len() as int];
    match outcome {
        None => RunView { failed: Some(RunError::ReadFailed(address)), ..v },
        Some(s) => RunView {
            reads: v.reads.push(s),
            failed: toggle_failure(v.addresses, v.reads.push(s)),
            ..v
        },
    }
}

/// The run after one more write, whatever became of it.
pub open spec fn run_after_write(v: RunView) -> RunView
    recommends
        is_writing(v),
{
    RunView { written: v.written + 1, ..v }
}

/// The run after the reads of `outcomes`, one by one, while it is reading.
pub open spec fn run_after_reads(v: RunView, outcomes: Seq<Option<DeviceStateView>>) -> RunView
    decreases outcomes.len(),
{
    if outcomes.len() == 0 || !is_reading(v) {
        v
    } else {
        run_after_reads(run_after_read(v, outcomes[0]), outcomes.drop_first())
    }
}

/// The run after `n` more writes, while it is writing.
pub open spec fn run_after_writes(v: RunView, n: nat) -> RunView
    decreases n,
{
    if n == 0 || !is_writing(v) {
        v
    } else {
        run_after_writes(run_after_write(v), (n - 1) as nat)
    }
}

/// Whether `a` is the action owed in state `v`: the next read, then the writes
/// of the toggled states to the devices they were read from, in order.
pub open spec fn is_next_action(v: RunView, a: Action) -> bool {
    match a {
        Action::Read(address) => is_reading(v) && address == v.addresses[v.reads.len() as int],
        Action::Write(address, state) => is_writing(v) && address == v.addresses[v.written as int]
            && state@ == toggled(v.reads[v.written as int]),
        Action::Finished => is_finished(v),
        Action::Abort(e) => v.failed == Some(e),
    }
}

/// One pass over the discovered devices: read each state in order, toggle them
/// all, then write each back to the device it came from. A failed read stops
/// the run, and so does a state without lights once all are read; the outcome
/// of a write is ignored.
pub struct Run {
    addresses: Vec<DeviceAddress>,
    reads: Ghost<Seq<DeviceStateView>>,
    /// The states read so far; once all are read, their toggled forms.
    states: Vec<DeviceState>,
    written: usize,
    failed: Option<RunError>,
}

impl View for Run {
    type V = RunView;

    closed spec fn view(&self) -> RunView {
        RunView {
            addresses: self.addresses@,
            reads: self.reads@,
            written: self.written as nat,
            failed: self.failed,
        }
    }
}

impl Run {
    /// Well-formedness: the states line up with the devices and, once all are
    /// read and none lacks a light, are the toggled forms of what was read.
    pub closed spec fn wf(&self) -> bool {
        &&& self.reads@.len() <= self.addresses@.len()
        &&& self.states@.len() == self.reads@.len()
        &&& self.written <= self.reads@.len()
        &&& (self.written > 0 ==> self.reads@.len() == self.addresses@.len() && self.failed is None)
        &&& (self.failed is None ==> self.failed == toggle_failure(self.addresses@, self.reads@))
        &&& forall|i: int|
            0 <= i < self.reads@.len() ==> #[trigger] self.states@[i]@ == if self.reads@.len()
                == self.addresses@.len() && self.failed is None {
                toggled(self.reads@[i])
            } else {
                self.reads@[i]
            }
    }

    /// A run over these devices, in this order.
    pub fn new(addresses: Vec<DeviceAddress>) -> (r: Run)
        ensures
            r.wf(),
            r@ == run_start(addresses@),
    {
        Run {
            addresses,
            reads: Ghost(Seq::empty()),
            states: Vec::new(),
            written: 0,
            failed: None,
        }
    }

    /// The action owed now.
    pub fn next_action(&self) -> (r: Action)
        requires
            self.wf(),
        ensures
            is_next_action(self@, r),
    {
        if let Some(e) = self.failed {
            Action::Abort(e)
        } else if self.states.len() < self.addresses.len() {
            Action::Read(self.addresses[self.states.len()])
        } else if self.written < self.addresses.len() {
            Action::Write(self.addresses[self.written], self.states[self.written].duplicate())
        } else {
            Action::Finished
        }
    }

    /// Reports the outcome of the read that `next_action` asked for (`None`:
    /// the read failed). Every state read is kept. After the last read, a state
    /// without lights stops the run on its device; else every state is toggled.
    pub fn on_read(&mut self, outcome: Option<DeviceState>)
        requires
            old(self).wf(),
            is_reading(old(self)@),
        ensures
            final(self).wf(),
            final(self)@ == run_after_read(old(self)@, match outcome {
                Some(s) => Some(s@),
                None => None,
            }),
    {
        let address = self.addresses[self.states.len()];
        match outcome {
            None => {
                self.failed = Some(RunError::ReadFailed(address));
            },
            Some(s) => {
                let ghost s_view = s@;
                self.reads = Ghost(self.reads@.push(s_view));
                self.states.push(s);
                if self.states.len() == self.addresses.len() {
                    let j = self.first_without_lights();
                    if j < self.states.len() {
                        self.failed = Some(RunError::NoLights(self.addresses[j]));
                    } else {
                        proof {
                            lemma_first_without_lights(self.reads@, 0);
                        }
                        let mut read: Vec<DeviceState> = Vec::new();
                        std::mem::swap(&mut read, &mut self.states);
                        assert forall|i: int| 0 <= i < read@.len() implies has_lights(#[trigger] read@[i]@) by {
                            assert(read@[i]@ == self.reads@[i]);
                        }
                        self.states = toggle_light_state(read);
                    }
                }
            },
        }
    }

    fn first_without_lights(&self) -> (r: usize)
        requires
            self.states@.len() == self.reads@.len(),
            forall|i: int| 0 <= i < self.reads@.len() ==> #[trigger] self.states@[i]@ == self.reads@[i],
        ensures
            r == first_without_lights(self.reads@),
    {
        let mut j: usize = 0;
        while j < self.states.len() && self.states[j].lights.len() > 0
            invariant
                j <= self.states@.len(),
                self.states@.len() == self.reads@.len(),
                forall|i: int| 0 <= i < self.reads@.len() ==> #[trigger] self.states@[i]@ == self.reads@[i],
                first_without_lights_from(self.reads@, 0) == first_without_lights_from(self.reads@, j as int),
            decreases self.states@.len() - j,
        {
            assert(self.states@[j as int]@ == self.reads@[j as int]);
            j = j + 1;
        }
        if j < self.states.len() {
            assert(self.states@[j as int]@ == self.reads@[j as int]);
        }
        j
    }

    /// Reports that the write `next_action` asked for was made. Whether the
    /// device took it is ignored: a failed write does not stop the run.
    pub fn on_write(&mut self, delivered: bool)
        requires
            old(self).wf(),
            is_writing(old(self)@),
        ensures
            final(self).wf(),
            final(self)@ == run_after_write(old(self)@),
    {
        let _ = delivered;
        if self.written < self.addresses.len() {
            self.written = self.written + 1;
        }
    }
}

/// Successful reads of these states, in order.
pub open spec fn read_outcomes(states: Seq<DeviceStateView>) -> Seq<Option<DeviceStateView>> {
    Seq::new(states.len(), |i: int| Some(states[i]))
}

/// What the first state without a light is: all before it have one, and it
/// has none, unless it is the length.
pub proof fn lemma_first_without_lights(reads: Seq<DeviceStateView>, i: int)
    requires
        0 <= i <= reads.len(),
    ensures
        i <= first_without_lights_from(reads, i) <= reads.len(),
        forall|k: int| i <= k < first_without_lights_from(reads, i) ==> has_lights(#[trigger] reads[k]),
        first_without_lights_from(reads, i) < reads.len() ==> !has_lights(
            reads[first_without_lights_from(reads, i)],
        ),
    decreases reads.len() - i,
{
    if i < reads.len() && has_lights(reads[i]) {
        lemma_first_without_lights(reads, i + 1);
    }
}

proof fn lemma_successful_reads(v: RunView, rest: Seq<DeviceStateView>)
    requires
        is_reading(v),
        v.reads.len() + rest.len() <= v.addresses.len(),
    ensures
        run_after_reads(v, read_outcomes(rest)) == (RunView {
            reads: v.reads + rest,
            failed: toggle_failure(v.addresses, v.reads + rest),
            ..v
        }),
    decreases rest.len(),
{
    if rest.len() == 0 {
        assert(read_outcomes(rest).len() == 0);
        assert(v.reads + rest =~= v.reads);
    } else {
        let w = run_after_read(v, Some(rest[0]));
        assert(run_after_reads(v, read_outcomes(rest)) == run_after_reads(w, read_outcomes(rest).drop_first()));
        assert(read_outcomes(rest)[0] == Some(rest[0]));
        assert(w.reads =~= v.reads.push(rest[0]));
        assert(read_outcomes(rest).drop_first() =~= read_outcomes(rest.drop_first()));
        assert(w.reads + rest.drop_first() =~= v.reads + rest);
        if rest.len() == 1 {
            assert(read_outcomes(rest).drop_first().len() == 0);
            assert(run_after_reads(w, read_outcomes(rest).drop_first()) == w);
            assert(w.reads =~= v.reads + rest);
        } else {
            assert(is_reading(w));
            lemma_successful_reads(w, rest.drop_first());
        }
    }
}

proof fn lemma_writes(v: RunView, n: nat)
    requires
        v.failed is None,
        v.reads.len() == v.addresses.len(),
        v.written + n <= v.addresses.len(),
    ensures
        run_after_writes(v, n) == (RunView { written: v.written + n, ..v }),
    decreases n,
{
    if n > 0 {
        lemma_writes(run_after_write(v), (n - 1) as nat);
    }
}

/// A write never stops a run, whatever became of it: the run goes on to the
/// next device, or is finished after the last.
pub proof fn lemma_write_never_fails(v: RunView)
    requires
        is_writing(v),
    ensures
        run_after_write(v).failed is None,
        run_after_write(v).reads == v.reads,
        is_writing(run_after_write(v)) || is_finished(run_after_write(v)),
{
}

/// With no device discovered, a run is finished from the start: it owes no
/// read and no write, and carries no error.
pub proof fn lemma_zero_devices(addresses: Seq<DeviceAddress>)
    requires
        addresses.len() == 0,
    ensures
        is_finished(run_start(addresses)),
        !is_reading(run_start(addresses)),
        !is_writing(run_start(addresses)),
{
}

/// The run over `addresses` after every read succeeded with `states`, in order.
pub open spec fn run_after_all_reads(addresses: Seq<DeviceAddress>, states: Seq<DeviceStateView>) -> RunView {
    run_after_reads(run_start(addresses), read_outcomes(states))
}

/// When every read succeeds, each device is read once, in order, and every
/// state read is kept at the position of its device, none dropped or moved.
/// If each state has a light, the i-th write owed sends the toggled i-th state
/// to the i-th device, and after one write per device the run is finished
/// without error, whatever became of the writes. Otherwise the run stops, after
/// all the reads, on the first device whose state has no light.
pub proof fn lemma_reads_and_writes_aligned(addresses: Seq<DeviceAddress>, states: Seq<DeviceStateView>)
    requires
        states.len() == addresses.len(),
    ensures
        forall|k: int|
            0 <= k < addresses.len() ==> {
                let r = #[trigger] run_after_reads(run_start(addresses), read_outcomes(states.take(k)));
                &&& is_reading(r)
                &&& r.reads.len() == k
                &&& r.addresses[r.reads.len() as int] == addresses[k]
            },
        run_after_all_reads(addresses, states).reads == states,
        first_without_lights(states) < states.len() ==> run_after_all_reads(addresses, states).failed
            == Some(RunError::NoLights(addresses[first_without_lights(states)])),
        first_without_lights(states) == states.len() ==> forall|i: int|
            0 <= i < addresses.len() ==> {
                let w = #[trigger] run_after_writes(run_after_all_reads(addresses, states), i as nat);
                &&& is_writing(w)
                &&& w.addresses[w.written as int] == addresses[i]
                &&& toggled(w.reads[w.written as int]) == toggled(states[i])
            },
        first_without_lights(states) == states.len() ==> is_finished(
            run_after_writes(run_after_all_reads(addresses, states), addresses.len()),
        ),
{
    let v0 = run_start(addresses);
    lemma_first_without_lights(states, 0);
    if addresses.len() == 0 {
        assert(read_outcomes(states).len() == 0);
        assert(states =~= Seq::<DeviceStateView>::empty());
        assert(run_after_all_reads(addresses, states) == v0);
    } else {
        assert forall|k: int| 0 <= k < addresses.len() implies {
            let r = #[trigger] run_after_reads(run_start(addresses), read_outcomes(states.take(k)));
            &&& is_reading(r)
            &&& r.reads.len() == k
            &&& r.addresses[r.reads.len() as int] == addresses[k]
        } by {
            lemma_successful_reads(v0, states.take(k));
        }
        lemma_successful_reads(v0, states);
        assert(v0.reads + states =~= states);
    }
    let v = run_after_all_reads(addresses, states);
    if first_without_lights(states) == states.len() {
        assert forall|i: int| 0 <= i < addresses.len() implies {
            let w = #[trigger] run_after_writes(v, i as nat);
            &&& is_writing(w)
            &&& w.addresses[w.written as int] == addresses[i]
            &&& toggled(w.reads[w.written as int]) == toggled(states[i])
        } by {
            lemma_writes(v, i as nat);
        }
        lemma_writes(v, addresses.len());
    }
}

} // verus!
