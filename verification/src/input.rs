use vstd::prelude::*;

use crate::timer::Timer;

verus! {

/// The kinds of composite, remappable input the user can make.
#[derive(Clone, Copy, Debug, PartialEq, Eq, Hash, Structural)]
pub enum InputAction {
    Accept,
    Decline,
    Quit,
    North,
    Northeast,
    East,
    Southeast,
    South,
    Southwest,
    West,
    Northwest,
}

/// The modifier keys that might be pressed.
#[derive(Clone, Copy, Debug, PartialEq, Eq, Structural)]
pub enum ModifierKey {
    Alt,
    Ctrl,
    Shift,
}

/// The buttons of a mouse.
#[derive(Clone, Copy, Debug, PartialEq, Eq, Structural)]
pub enum InputMouse {
    Left,
    Right,
}

/// The kinds of mouse cursors.
#[derive(Clone, Copy, Debug, PartialEq, Eq, Structural)]
pub enum Cursor {
    Arrow,
    Crosshair,
    Hand,
    IBeam,
    No,
    Wait,
}

/// A keyboard key, by its keycode.
#[derive(Clone, Copy, Debug, PartialEq, Eq, Hash, Structural)]
pub struct InputKey(pub i32);

/// The states of an input repeat.
#[derive(Clone, Copy, Debug, PartialEq, Eq, Structural)]
pub enum RepeatState {
    /// The input is released.
    Released,
    /// The input is pressed, but the initial step has not yet passed.
    Pressed,
    /// The input is pressed and the initial step has passed.
    Held,
}

/// The input that an input repeat tracks: a key or an action.
#[derive(Clone, Copy, Debug, PartialEq, Eq, Structural)]
pub enum RepeatInput {
    /// A key.
    Key(InputKey),
    /// An input action.
    Action(InputAction),
}

/// Fires repeated pressed events while a key or action is held: once when it is pressed, once
/// more after the initial step (or the held step when there is none), and then once per held
/// step. Times are in nanoseconds.
pub struct InputRepeat {
    /// The tracked key or input action.
    key_or_action: RepeatInput,
    /// The current state.
    state: RepeatState,
    /// The input timer.
    timer: Timer,
    /// Time between pressed events while the input is held.
    pub held_step: u128,
    /// Time between the press of the input and the second pressed event.
    pub initial_step: Option<u128>,
}

/// The interval to wait after a press: the initial step if there is one, else the held step.
pub open spec fn first_step(held_step: u128, initial_step: Option<u128>) -> nat {
    match initial_step {
        Some(s) => s as nat,
        None => held_step as nat,
    }
}

impl InputRepeat {
    /// The tracked input.
    pub closed spec fn spec_input(&self) -> RepeatInput {
        self.key_or_action
    }

    /// The current state.
    pub closed spec fn spec_state(&self) -> RepeatState {
        self.state
    }

    /// The held step.
    pub closed spec fn spec_held_step(&self) -> u128 {
        self.held_step
    }

    /// The initial step.
    pub closed spec fn spec_initial_step(&self) -> Option<u128> {
        self.initial_step
    }

    /// The timer.
    pub closed spec fn spec_timer(&self) -> Timer {
        self.timer
    }

    /// Creates a new input repeat for an input.
    fn for_input(input: RepeatInput, held_step: u128, initial_step: Option<u128>) -> (r: Self)
        ensures
            r.spec_input() == input,
            r.spec_state() == RepeatState::Released,
            r.spec_held_step() == held_step,
            r.spec_initial_step() == initial_step,
            r.spec_timer().spec_interval() == first_step(held_step, initial_step),
            r.spec_timer().spec_passed() == 0,
    {
        let timer = match initial_step {
            Some(initial_step) => Timer::new(initial_step),
            None => Timer::new(held_step),
        };
        InputRepeat { timer, state: RepeatState::Released, key_or_action: input, held_step, initial_step }
    }

    /// Creates a new input repeat for a key.
    pub fn for_key(key: InputKey, held_step: u128, initial_step: Option<u128>) -> (r: Self)
        ensures
            r.spec_input() == RepeatInput::Key(key),
            r.spec_state() == RepeatState::Released,
            r.spec_held_step() == held_step,
            r.spec_initial_step() == initial_step,
            r.spec_timer().spec_interval() == first_step(held_step, initial_step),
            r.spec_timer().spec_passed() == 0,
    {
        Self::for_input(RepeatInput::Key(key), held_step, initial_step)
    }

    /// Creates a new input repeat for an action.
    pub fn for_action(action: InputAction, held_step: u128, initial_step: Option<u128>) -> (r: Self)
        ensures
            r.spec_input() == RepeatInput::Action(action),
            r.spec_state() == RepeatState::Released,
            r.spec_held_step() == held_step,
            r.spec_initial_step() == initial_step,
            r.spec_timer().spec_interval() == first_step(held_step, initial_step),
            r.spec_timer().spec_passed() == 0,
    {
        Self::for_input(RepeatInput::Action(action), held_step, initial_step)
    }

    /// Returns the tracked key or action.
    pub fn key_or_action(&self) -> (r: RepeatInput)
        ensures
            r == self.spec_input(),
    {
        self.key_or_action
    }

    /// Returns the current state.
    pub fn state(&self) -> (r: RepeatState)
        ensures
            r == self.spec_state(),
    {
        self.state
    }

    /// Sets the input repeat to track a key.
    pub fn set_key(&mut self, key: InputKey)
        ensures
            final(self).spec_input() == RepeatInput::Key(key),
            final(self).spec_state() == old(self).spec_state(),
            final(self).spec_timer() == old(self).spec_timer(),
            final(self).spec_held_step() == old(self).spec_held_step(),
            final(self).spec_initial_step() == old(self).spec_initial_step(),
    {
        self.key_or_action = RepeatInput::Key(key);
    }

    /// Sets the input repeat to track an action.
    pub fn set_action(&mut self, action: InputAction)
        ensures
            final(self).spec_input() == RepeatInput::Action(action),
            final(self).spec_state() == old(self).spec_state(),
            final(self).spec_timer() == old(self).spec_timer(),
            final(self).spec_held_step() == old(self).spec_held_step(),
            final(self).spec_initial_step() == old(self).spec_initial_step(),
    {
        self.key_or_action = RepeatInput::Action(action);
    }

    /// Restarts the timer with the first step.
    fn reset_timer(&mut self)
        ensures
            final(self).spec_input() == old(self).spec_input(),
            final(self).spec_state() == old(self).spec_state(),
            final(self).spec_held_step() == old(self).spec_held_step(),
            final(self).spec_initial_step() == old(self).spec_initial_step(),
            final(self).spec_timer().spec_passed() == 0,
            final(self).spec_timer().spec_interval() == first_step(old(self).spec_held_step(), old(self).spec_initial_step()),
    {
        self.timer.reset();
        let interval = match self.initial_step {
            Some(initial_step) => initial_step,
            None => self.held_step,
        };
        self.timer.set_interval(interval);
    }

    /// Returns the input repeat to the released state with a restarted timer.
    pub fn reset(&mut self)
        ensures
            final(self).spec_input() == old(self).spec_input(),
            final(self).spec_state() == RepeatState::Released,
            final(self).spec_held_step() == old(self).spec_held_step(),
            final(self).spec_initial_step() == old(self).spec_initial_step(),
            final(self).spec_timer().spec_passed() == 0,
            final(self).spec_timer().spec_interval() == first_step(old(self).spec_held_step(), old(self).spec_initial_step()),
    {
        self.state = RepeatState::Released;
        self.reset_timer();
    }

    /// One update of an input repeat, from `before` to `after`, by `dt` nanoseconds, given whether
    /// the tracked input became pressed (`just_pressed`) and whether it is pressed (`pressed`),
    /// firing a pressed event or not (`fired`): a press of a released input fires at once and
    /// restarts the timer with the first step; a release stops the repeat; while the input stays
    /// pressed, it fires whenever the timer reaches its interval, which becomes the held step after
    /// the first such fire.
    pub open spec fn updated(
        before: InputRepeat,
        after: InputRepeat,
        dt: nat,
        just_pressed: bool,
        pressed: bool,
        fired: bool,
    ) -> bool {
        &&& after.spec_input() == before.spec_input()
        &&& after.spec_held_step() == before.spec_held_step()
        &&& after.spec_initial_step() == before.spec_initial_step()
        &&& match before.spec_state() {
            RepeatState::Released => if just_pressed {
                &&& fired
                &&& after.spec_state() == RepeatState::Pressed
                &&& after.spec_timer().spec_passed() == 0
                &&& after.spec_timer().spec_interval() == first_step(before.spec_held_step(), before.spec_initial_step())
            } else {
                &&& !fired
                &&& after.spec_state() == RepeatState::Released
                &&& after.spec_timer() == before.spec_timer()
            },
            RepeatState::Pressed => if !pressed {
                &&& !fired
                &&& after.spec_state() == RepeatState::Released
                &&& after.spec_timer() == before.spec_timer()
            } else {
                let t = before.spec_timer();
                &&& fired == (t.spec_passed() + dt >= t.spec_interval())
                &&& after.spec_state() == (if fired { RepeatState::Held } else { RepeatState::Pressed })
                &&& after.spec_timer().spec_passed() == t.spec_passed() + dt - (if fired { t.spec_interval() } else { 0 })
                &&& after.spec_timer().spec_interval() == (if fired { before.spec_held_step() as nat } else { t.spec_interval() })
            },
            RepeatState::Held => if !pressed {
                &&& !fired
                &&& after.spec_state() == RepeatState::Released
                &&& after.spec_timer() == before.spec_timer()
            } else {
                let t = before.spec_timer();
                &&& fired == (t.spec_passed() + dt >= t.spec_interval())
                &&& after.spec_state() == RepeatState::Held
                &&& after.spec_timer().spec_passed() == t.spec_passed() + dt - (if fired { t.spec_interval() } else { 0 })
                &&& after.spec_timer().spec_interval() == t.spec_interval()
            },
        }
    }

    /// Updates the input repeat by `dt` nanoseconds, given whether the tracked input became
    /// pressed this frame (`just_pressed`) and whether it is pressed (`pressed`), and returns
    /// whether a pressed event fires.
    pub fn update(&mut self, dt: u128, just_pressed: bool, pressed: bool) -> (fired: bool)
        requires
            old(self).spec_timer().spec_passed() + dt <= u128::MAX,
        ensures
            Self::updated(*old(self), *final(self), dt as nat, just_pressed, pressed, fired),
    {
        match self.state {
            RepeatState::Released => {
                if just_pressed {
                    self.state = RepeatState::Pressed;
                    self.reset_timer();
                    return true;
                }
                false
            },
            RepeatState::Pressed => {
                if !pressed {
                    self.state = RepeatState::Released;
                    return false;
                }
                if self.timer.update(dt) {
                    self.state = RepeatState::Held;
                    self.timer.set_interval(self.held_step);
                    return true;
                }
                false
            },
            RepeatState::Held => {
                if !pressed {
                    self.state = RepeatState::Released;
                    return false;
                }
                self.timer.update(dt)
            },
        }
    }
}

/// The number of pressed events fired over a run of updates.
pub open spec fn count_fired(fired: Seq<bool>) -> nat
    decreases fired.len(),
{
    if fired.len() == 0 {
        0
    } else {
        count_fired(fired.drop_last()) + if fired.last() {
            1nat
        } else {
            0nat
        }
    }
}

/// The total time of a run of frames.
pub open spec fn total_time(dts: Seq<nat>) -> nat
    decreases dts.len(),
{
    if dts.len() == 0 {
        0
    } else {
        total_time(dts.drop_last()) + dts.last()
    }
}

/// The conditions of a run of updates of a held repeat while its input stays pressed: `rs[k + 1]`
/// is `rs[k]` updated by `dts[k]` with the input pressed, firing `fired[k]`.
pub open spec fn held_run(
    rs: Seq<InputRepeat>,
    dts: Seq<nat>,
    just_pressed: Seq<bool>,
    fired: Seq<bool>,
) -> bool {
    &&& rs.len() == dts.len() + 1
    &&& just_pressed.len() == dts.len()
    &&& fired.len() == dts.len()
    &&& rs[0].spec_state() == RepeatState::Held
    &&& rs[0].spec_timer().spec_passed() < rs[0].spec_timer().spec_interval()
    &&& forall|k: int| 0 <= k < dts.len() ==> #[trigger] dts[k] <= rs[0].spec_timer().spec_interval()
    &&& forall|k: int|
        0 <= k < dts.len() ==> #[trigger] InputRepeat::updated(
            rs[k],
            rs[k + 1],
            dts[k],
            just_pressed[k],
            true,
            fired[k],
        )
}

/// The first `k` updates of a held run keep the repeat held with the same interval, and account
/// for all of their time.
proof fn lemma_held_run_prefix(
    rs: Seq<InputRepeat>,
    dts: Seq<nat>,
    just_pressed: Seq<bool>,
    fired: Seq<bool>,
    k: int,
)
    requires
        held_run(rs, dts, just_pressed, fired),
        0 <= k <= dts.len(),
    ensures
        rs[k].spec_state() == RepeatState::Held,
        rs[k].spec_timer().spec_interval() == rs[0].spec_timer().spec_interval(),
        rs[k].spec_timer().spec_passed() < rs[0].spec_timer().spec_interval(),
        count_fired(fired.take(k)) * rs[0].spec_timer().spec_interval() + rs[k].spec_timer().spec_passed()
            == rs[0].spec_timer().spec_passed() + total_time(dts.take(k)),
    decreases k,
{
    let step = rs[0].spec_timer().spec_interval();
    if k == 0 {
        assert(fired.take(0) =~= Seq::<bool>::empty());
        assert(dts.take(0) =~= Seq::<nat>::empty());
        assert(count_fired(fired.take(0)) == 0);
        assert(total_time(dts.take(0)) == 0);
    } else {
        lemma_held_run_prefix(rs, dts, just_pressed, fired, k - 1);
        let j = k - 1;
        assert(InputRepeat::updated(rs[j], rs[j + 1], dts[j], just_pressed[j], true, fired[j]));
        assert(dts[j] <= step);
        assert(fired.take(k).drop_last() =~= fired.take(k - 1));
        assert(dts.take(k).drop_last() =~= dts.take(k - 1));
        let c = count_fired(fired.take(j));
        assert(count_fired(fired.take(k)) == c + if fired[j] {
            1nat
        } else {
            0nat
        });
        assert(total_time(dts.take(k)) == total_time(dts.take(j)) + dts[j]);
        let p = rs[j].spec_timer().spec_passed();
        if fired[j] {
            assert((c + 1) * step == c * step + step) by (nonlinear_arith);
            assert(rs[k].spec_timer().spec_passed() == p + dts[j] - step);
            assert(count_fired(fired.take(k)) * step == c * step + step);
        } else {
            assert(rs[k].spec_timer().spec_passed() == p + dts[j]);
            assert(count_fired(fired.take(k)) * step == c * step);
        }
    }
}

/// While its input stays pressed, a held repeat fires once per step of its timer: over a run of
/// frames, each no longer than the step, the events fired times the step, plus the time left on
/// the timer at the end, is the time on the timer at the start plus the time of the frames, and
/// the time left stays below the step. So the run fires the whole number of steps in that time.
pub proof fn law_held_repeat_fires_once_per_step(
    rs: Seq<InputRepeat>,
    dts: Seq<nat>,
    just_pressed: Seq<bool>,
    fired: Seq<bool>,
)
    requires
        held_run(rs, dts, just_pressed, fired),
    ensures
        rs.last().spec_state() == RepeatState::Held,
        rs.last().spec_timer().spec_interval() == rs[0].spec_timer().spec_interval(),
        rs.last().spec_timer().spec_passed() < rs[0].spec_timer().spec_interval(),
        count_fired(fired) * rs[0].spec_timer().spec_interval() + rs.last().spec_timer().spec_passed()
            == rs[0].spec_timer().spec_passed() + total_time(dts),
        count_fired(fired) as int == (rs[0].spec_timer().spec_passed() + total_time(dts)) as int / (
        rs[0].spec_timer().spec_interval() as int),
{
    let n = dts.len() as int;
    lemma_held_run_prefix(rs, dts, just_pressed, fired, n);
    assert(fired.take(n) =~= fired);
    assert(dts.take(n) =~= dts);
    let step = rs[0].spec_timer().spec_interval() as int;
    vstd::arithmetic::div_mod::lemma_fundamental_div_mod_converse(
        (rs[0].spec_timer().spec_passed() + total_time(dts)) as int,
        step,
        count_fired(fired) as int,
        rs.last().spec_timer().spec_passed() as int,
    );
}

/// The number of pressed events a repeat fires after the press of its input, once the input
/// has been held down for a time `t`: none before the first step, then one, then one more per
/// held step.
pub open spec fn repeat_fires(t: int, first: int, held: int) -> int {
    if t < first {
        0
    } else {
        1 + (t - first) / held
    }
}

/// The conditions of a press of a released input followed by frames that hold it down:
/// `rs[k + 1]` is `rs[k]` updated by frame `k`, frame 0 newly presses the input, every later
/// frame has it pressed and lasts no longer than the held step or the first step, and both
/// steps are positive.
pub open spec fn press_run(
    rs: Seq<InputRepeat>,
    dts: Seq<nat>,
    just_pressed: Seq<bool>,
    pressed: Seq<bool>,
    fired: Seq<bool>,
) -> bool {
    let held = rs[0].spec_held_step() as int;
    let first = first_step(rs[0].spec_held_step(), rs[0].spec_initial_step()) as int;
    &&& dts.len() >= 1
    &&& rs.len() == dts.len() + 1
    &&& just_pressed.len() == dts.len()
    &&& pressed.len() == dts.len()
    &&& fired.len() == dts.len()
    &&& rs[0].spec_state() == RepeatState::Released
    &&& just_pressed[0]
    &&& held > 0
    &&& first > 0
    &&& forall|k: int| 1 <= k < dts.len() ==> #[trigger] pressed[k]
    &&& forall|k: int| 1 <= k < dts.len() ==> #[trigger] dts[k] <= held && dts[k] <= first
    &&& forall|k: int|
        0 <= k < dts.len() ==> #[trigger] InputRepeat::updated(
            rs[k],
            rs[k + 1],
            dts[k],
            just_pressed[k],
            pressed[k],
            fired[k],
        )
}

/// After frame `k` of a press run, the repeat has counted all the time held down since the
/// press: before the first step it is pressed with that time on its timer and has fired nothing
/// since the press; from then on it is held, its timer runs at the held step, and the events
/// fired since the press, less the first, times the held step, plus the time on the timer, is
/// the time held down past the first step.
proof fn lemma_press_run_prefix(
    rs: Seq<InputRepeat>,
    dts: Seq<nat>,
    just_pressed: Seq<bool>,
    pressed: Seq<bool>,
    fired: Seq<bool>,
    k: int,
)
    requires
        press_run(rs, dts, just_pressed, pressed, fired),
        0 <= k < dts.len(),
    ensures
        ({
            let held = rs[0].spec_held_step() as int;
            let first = first_step(rs[0].spec_held_step(), rs[0].spec_initial_step()) as int;
            let t = total_time(dts.subrange(1, k + 1)) as int;
            let c = count_fired(fired.subrange(1, k + 1)) as int;
            let r = rs[k + 1];
            &&& r.spec_held_step() == rs[0].spec_held_step()
            &&& r.spec_initial_step() == rs[0].spec_initial_step()
            &&& t < first ==> {
                &&& r.spec_state() == RepeatState::Pressed
                &&& r.spec_timer().spec_interval() == first
                &&& r.spec_timer().spec_passed() == t
                &&& c == 0
            }
            &&& t >= first ==> {
                &&& r.spec_state() == RepeatState::Held
                &&& r.spec_timer().spec_interval() == held
                &&& r.spec_timer().spec_passed() < held
                &&& c >= 1
                &&& (c - 1) * held + r.spec_timer().spec_passed() == t - first
            }
        }),
    decreases k,
{
    let held = rs[0].spec_held_step() as int;
    let first = first_step(rs[0].spec_held_step(), rs[0].spec_initial_step()) as int;
    assert(InputRepeat::updated(rs[k], rs[k + 1], dts[k], just_pressed[k], pressed[k], fired[k]));
    if k == 0 {
        assert(dts.subrange(1, 1) =~= Seq::<nat>::empty());
        assert(fired.subrange(1, 1) =~= Seq::<bool>::empty());
        assert(total_time(dts.subrange(1, 1)) == 0);
        assert(count_fired(fired.subrange(1, 1)) == 0);
    } else {
        lemma_press_run_prefix(rs, dts, just_pressed, pressed, fired, k - 1);
        assert(pressed[k]);
        assert(dts[k] <= held && dts[k] <= first);
        let t0 = total_time(dts.subrange(1, k)) as int;
        let c0 = count_fired(fired.subrange(1, k)) as int;
        assert(dts.subrange(1, k + 1).drop_last() =~= dts.subrange(1, k));
        assert(fired.subrange(1, k + 1).drop_last() =~= fired.subrange(1, k));
        assert(total_time(dts.subrange(1, k + 1)) == t0 + dts[k]);
        assert(count_fired(fired.subrange(1, k + 1)) == c0 + if fired[k] {
            1int
        } else {
            0int
        });
        let r = rs[k];
        if t0 >= first {
            let c1 = c0 + if fired[k] {
                1int
            } else {
                0int
            };
            assert((c1 - 1) * held == (c0 - 1) * held + (c1 - c0) * held) by (nonlinear_arith);
            assert((c1 - c0) * held == if fired[k] {
                held
            } else {
                0
            }) by (nonlinear_arith)
                requires
                    c1 - c0 == if fired[k] {
                        1int
                    } else {
                        0int
                    },
            ;
        } else {
            assert(r.spec_state() == RepeatState::Pressed);
        }
    }
}

/// A press of a released input fires at once; while the input then stays pressed, in frames no
/// longer than either step, the events fired after the press number none until the time held
/// down reaches the first step (the initial step, or the held step when there is none), then
/// one, and one more per held step after it. So each later frame fires exactly when it brings
/// that number up by one, and the repeat ends pressed before the first step and held after it.
pub proof fn law_press_run_fires(
    rs: Seq<InputRepeat>,
    dts: Seq<nat>,
    just_pressed: Seq<bool>,
    pressed: Seq<bool>,
    fired: Seq<bool>,
)
    requires
        press_run(rs, dts, just_pressed, pressed, fired),
    ensures
        fired[0],
        forall|k: int|
            0 <= k < dts.len() ==> count_fired(#[trigger] fired.subrange(1, k + 1)) as int
                == repeat_fires(
                total_time(dts.subrange(1, k + 1)) as int,
                first_step(rs[0].spec_held_step(), rs[0].spec_initial_step()) as int,
                rs[0].spec_held_step() as int,
            ),
        forall|k: int|
            1 <= k < dts.len() ==> #[trigger] fired[k] == (repeat_fires(
                total_time(dts.subrange(1, k + 1)) as int,
                first_step(rs[0].spec_held_step(), rs[0].spec_initial_step()) as int,
                rs[0].spec_held_step() as int,
            ) == repeat_fires(
                total_time(dts.subrange(1, k)) as int,
                first_step(rs[0].spec_held_step(), rs[0].spec_initial_step()) as int,
                rs[0].spec_held_step() as int,
            ) + 1),
        rs.last().spec_state() == (if total_time(dts.subrange(1, dts.len() as int))
            < first_step(rs[0].spec_held_step(), rs[0].spec_initial_step()) {
            RepeatState::Pressed
        } else {
            RepeatState::Held
        }),
{
    let held = rs[0].spec_held_step() as int;
    let first = first_step(rs[0].spec_held_step(), rs[0].spec_initial_step()) as int;
    let z: int = 0;
    assert(InputRepeat::updated(rs[z], rs[z + 1], dts[z], just_pressed[z], pressed[z], fired[z]));
    assert forall|k: int| 0 <= k < dts.len() implies count_fired(
        #[trigger] fired.subrange(1, k + 1),
    ) as int == repeat_fires(total_time(dts.subrange(1, k + 1)) as int, first, held) by {
        lemma_press_run_prefix(rs, dts, just_pressed, pressed, fired, k);
        let t = total_time(dts.subrange(1, k + 1)) as int;
        let c = count_fired(fired.subrange(1, k + 1)) as int;
        if t >= first {
            vstd::arithmetic::div_mod::lemma_fundamental_div_mod_converse(
                t - first,
                held,
                c - 1,
                rs[k + 1].spec_timer().spec_passed() as int,
            );
        }
    }
    assert forall|k: int| 1 <= k < dts.len() implies #[trigger] fired[k] == (repeat_fires(
        total_time(dts.subrange(1, k + 1)) as int,
        first,
        held,
    ) == repeat_fires(total_time(dts.subrange(1, k)) as int, first, held) + 1) by {
        assert(count_fired(fired.subrange(1, k + 1)) as int == repeat_fires(
            total_time(dts.subrange(1, k + 1)) as int,
            first,
            held,
        ));
        assert(count_fired(fired.subrange(1, (k - 1) + 1)) as int == repeat_fires(
            total_time(dts.subrange(1, (k - 1) + 1)) as int,
            first,
            held,
        ));
        assert(fired.subrange(1, k + 1).drop_last() =~= fired.subrange(1, k));
    }
    let n = dts.len() as int;
    lemma_press_run_prefix(rs, dts, just_pressed, pressed, fired, n - 1);
}

/// Once its input is up, a repeat fires no more until the input is newly pressed: over frames
/// that do not newly press the input, the first of them with the input up, nothing fires and
/// the repeat stays released, whatever state it was in.
pub proof fn law_released_repeat_stays_silent(
    rs: Seq<InputRepeat>,
    dts: Seq<nat>,
    just_pressed: Seq<bool>,
    pressed: Seq<bool>,
    fired: Seq<bool>,
)
    requires
        dts.len() >= 1,
        rs.len() == dts.len() + 1,
        just_pressed.len() == dts.len(),
        pressed.len() == dts.len(),
        fired.len() == dts.len(),
        !pressed[0],
        forall|k: int| 0 <= k < dts.len() ==> !#[trigger] just_pressed[k],
        forall|k: int|
            0 <= k < dts.len() ==> #[trigger] InputRepeat::updated(
                rs[k],
                rs[k + 1],
                dts[k],
                just_pressed[k],
                pressed[k],
                fired[k],
            ),
    ensures
        forall|k: int| 0 <= k < dts.len() ==> !(#[trigger] fired[k]),
        forall|k: int|
            0 <= k < dts.len() ==> (#[trigger] rs[k + 1]).spec_state() == RepeatState::Released,
{
    assert forall|k: int| 0 <= k < dts.len() implies !(#[trigger] fired[k]) by {
        lemma_released_prefix(rs, dts, just_pressed, pressed, fired, k);
    }
    assert forall|k: int| 0 <= k < dts.len() implies (#[trigger] rs[k + 1]).spec_state()
        == RepeatState::Released by {
        lemma_released_prefix(rs, dts, just_pressed, pressed, fired, k);
    }
}

/// Frame `k` of a run as in `law_released_repeat_stays_silent` fires nothing and leaves the
/// repeat released.
proof fn lemma_released_prefix(
    rs: Seq<InputRepeat>,
    dts: Seq<nat>,
    just_pressed: Seq<bool>,
    pressed: Seq<bool>,
    fired: Seq<bool>,
    k: int,
)
    requires
        dts.len() >= 1,
        rs.len() == dts.len() + 1,
        just_pressed.len() == dts.len(),
        pressed.len() == dts.len(),
        fired.len() == dts.len(),
        !pressed[0],
        forall|k: int| 0 <= k < dts.len() ==> !#[trigger] just_pressed[k],
        forall|k: int|
            0 <= k < dts.len() ==> #[trigger] InputRepeat::updated(
                rs[k],
                rs[k + 1],
                dts[k],
                just_pressed[k],
                pressed[k],
                fired[k],
            ),
        0 <= k < dts.len(),
    ensures
        !fired[k],
        rs[k + 1].spec_state() == RepeatState::Released,
    decreases k,
{
    assert(InputRepeat::updated(rs[k], rs[k + 1], dts[k], just_pressed[k], pressed[k], fired[k]));
    assert(!just_pressed[k]);
    if k > 0 {
        lemma_released_prefix(rs, dts, just_pressed, pressed, fired, k - 1);
    }
}

} // verus!
