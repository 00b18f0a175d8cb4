//! The state of the moon at one instant, the rules that admit an initial
//! state and a step, and the history of a run.

use vstd::prelude::*;
use crate::binary64::Binary64;

verus! {

/// One instant of the system: orbital position and velocity, spin angle and
/// rate, the accelerations that led here, the cached magnitudes of the three
/// vectors, and the time elapsed since the run began.
#[derive(Clone, Copy, Debug, PartialEq, Eq, Structural)]
#[allow(non_snake_case)]
pub struct Hyperion {
    /// Half the length of the body; fixed over a run.
    pub L: Binary64,
    pub ax: Binary64,
    pub ay: Binary64,
    /// Magnitude of the acceleration.
    pub a: Binary64,
    pub vx: Binary64,
    pub vy: Binary64,
    /// Magnitude of the velocity.
    pub v: Binary64,
    pub x: Binary64,
    pub y: Binary64,
    /// Magnitude of the position: the orbital radius.
    pub r: Binary64,
    /// Spin acceleration.
    pub alpha: Binary64,
    /// Spin rate.
    pub omega: Binary64,
    /// Spin angle.
    pub theta: Binary64,
    /// Elapsed time.
    pub t: Binary64,
}

/// Why initial conditions were turned down.
#[derive(Clone, Copy, Debug, PartialEq, Eq, Structural)]
pub enum InitialConditionError {
    /// The moon would start at the centre of the orbit, or at a radius that is
    /// not a positive finite number.
    InvalidRadius,
}

/// Why a step was turned down.
#[derive(Clone, Copy, Debug, PartialEq, Eq, Structural)]
pub enum StepError {
    /// The step's length is not a positive finite number.
    DegenerateStep,
    /// The step ends at a radius that is zero or not finite.
    NumericalBlowUp,
    /// The step is too short to move the clock.
    StalledClock,
}

/// Why a state was not appended to a history.
#[derive(Clone, Copy, Debug, PartialEq, Eq, Structural)]
pub enum HistoryError {
    /// The state is not later than the last one recorded.
    NotLater,
}

impl Hyperion {
    /// The radius can be divided by: it is positive and finite.
    pub open spec fn sound(self) -> bool {
        self.r.positive() && self.r.finite()
    }

    /// The state a run begins with: the given position, velocity and spin,
    /// no acceleration yet, and the clock at zero.
    pub open spec fn initial(
        l: Binary64,
        vx0: Binary64,
        vy0: Binary64,
        x0: Binary64,
        y0: Binary64,
        omega0: Binary64,
        theta0: Binary64,
        speed: Binary64,
        radius: Binary64,
    ) -> Hyperion {
        Hyperion {
            L: l,
            ax: Binary64 { bits: 0 },
            ay: Binary64 { bits: 0 },
            a: Binary64 { bits: 0 },
            vx: vx0,
            vy: vy0,
            v: speed,
            x: x0,
            y: y0,
            r: radius,
            alpha: Binary64 { bits: 0 },
            omega: omega0,
            theta: theta0,
            t: Binary64 { bits: 0 },
        }
    }

    /// Initial conditions are admitted unless the position is the origin or
    /// the radius is not a positive finite number.
    pub open spec fn admits_start(x0: Binary64, y0: Binary64, radius: Binary64) -> bool {
        !(x0.zero_valued() && y0.zero_valued()) && radius.positive() && radius.finite()
    }

    /// What a step of length `dt` from `self` to `candidate` comes to: the
    /// candidate with this state's arm length, or the first rule it breaks.
    pub open spec fn step_outcome(self, dt: Binary64, candidate: Hyperion) -> Result<
        Hyperion,
        StepError,
    > {
        if !(dt.positive() && dt.finite()) {
            Err(StepError::DegenerateStep)
        } else if !candidate.sound() {
            Err(StepError::NumericalBlowUp)
        } else if !candidate.t.exceeds(self.t) {
            Err(StepError::StalledClock)
        } else {
            Ok(Hyperion { L: self.L, ..candidate })
        }
    }

    /// Builds the initial state from the initial conditions and the two
    /// magnitudes computed from them, `speed` from the velocity and `radius`
    /// from the position.
    pub fn new(
        l: Binary64,
        vx0: Binary64,
        vy0: Binary64,
        x0: Binary64,
        y0: Binary64,
        omega0: Binary64,
        theta0: Binary64,
        speed: Binary64,
        radius: Binary64,
    ) -> (made: Result<Hyperion, InitialConditionError>)
        ensures
            Self::admits_start(x0, y0, radius) ==> made == Ok::<Hyperion, InitialConditionError>(
                Self::initial(l, vx0, vy0, x0, y0, omega0, theta0, speed, radius),
            ),
            !Self::admits_start(x0, y0, radius) ==> made == Err::<Hyperion, InitialConditionError>(
                InitialConditionError::InvalidRadius,
            ),
            made is Ok ==> made->Ok_0.sound(),
    {
        if (x0.is_zero() && y0.is_zero()) || !radius.is_positive() || !radius.is_finite() {
            return Err(InitialConditionError::InvalidRadius);
        }
        Ok(
            Hyperion {
                L: l,
                ax: Binary64::zero(),
                ay: Binary64::zero(),
                a: Binary64::zero(),
                vx: vx0,
                vy: vy0,
                v: speed,
                x: x0,
                y: y0,
                r: radius,
                alpha: Binary64::zero(),
                omega: omega0,
                theta: theta0,
                t: Binary64::zero(),
            },
        )
    }

    /// True when the state can be stepped from.
    pub fn is_sound(&self) -> (answer: bool)
        ensures
            answer == self.sound(),
    {
        self.r.is_positive() && self.r.is_finite()
    }

    /// Admits a step of length `dt` from this state to `candidate`, the state
    /// that the equations of motion give. The step is turned down when `dt` is
    /// not positive and finite, when the candidate's radius is zero or not
    /// finite, or when its clock has not moved on; otherwise the candidate is
    /// the next state, with the arm length of this one.
    pub fn iterate(&self, dt: Binary64, candidate: Hyperion) -> (next: Result<Hyperion, StepError>)
        ensures
            next == self.step_outcome(dt, candidate),
            next is Ok ==> next->Ok_0.sound() && next->Ok_0.t.exceeds(self.t),
    {
        if !(dt.is_positive() && dt.is_finite()) {
            Err(StepError::DegenerateStep)
        } else if !candidate.is_sound() {
            Err(StepError::NumericalBlowUp)
        } else if !candidate.t.gt(&self.t) {
            Err(StepError::StalledClock)
        } else {
            let mut next = candidate;
            next.L = self.L;
            Ok(next)
        }
    }
}

/// The history of one run: its states in the order they were reached.
#[derive(Clone, Debug)]
pub struct HyperionStates {
    pub states: Vec<Hyperion>,
}

impl View for HyperionStates {
    type V = Seq<Hyperion>;

    open spec fn view(&self) -> Seq<Hyperion> {
        self.states@
    }
}

/// Every state is later than all that stand before it.
pub open spec fn clock_advances(history: Seq<Hyperion>) -> bool {
    forall|i: int, j: int| 0 <= i < j < history.len() ==> (#[trigger] history[j]).t.exceeds((#[trigger] history[i]).t)
}

/// A step that is admitted from the last state of a history extends the
/// history: the next state can be stepped from in turn, it is later than
/// every state recorded, and it keeps the arm length of the run.
pub proof fn lemma_admitted_step_extends(history: Seq<Hyperion>, dt: Binary64, candidate: Hyperion)
    requires
        history.len() > 0,
        clock_advances(history),
        history.last().step_outcome(dt, candidate) is Ok,
    ensures
        ({
            let next = history.last().step_outcome(dt, candidate)->Ok_0;
            &&& next.sound()
            &&& next.L == history.last().L
            &&& next.t.exceeds(history.last().t)
            &&& clock_advances(history.push(next))
        }),
{
    let next = history.last().step_outcome(dt, candidate)->Ok_0;
    let longer = history.push(next);
    assert forall|i: int, j: int| 0 <= i < j < longer.len() implies (#[trigger] longer[j]).t.exceeds(
        (#[trigger] longer[i]).t,
    ) by {
        if j == history.len() && i < history.len() - 1 {
            assert(history[history.len() - 1].t.exceeds(history[i].t));
        }
    }
}

impl HyperionStates {
    /// The history is in order of time.
    pub open spec fn well_formed(&self) -> bool {
        clock_advances(self@)
    }

    /// A history that holds the seed and nothing else.
    pub fn create(seed: Hyperion) -> (history: HyperionStates)
        ensures
            history@ == seq![seed],
            history.well_formed(),
    {
        let mut states: Vec<Hyperion> = Vec::new();
        states.push(seed);
        HyperionStates { states }
    }

    /// The number of states recorded.
    pub fn len(&self) -> (count: usize)
        ensures
            count == self@.len(),
    {
        self.states.len()
    }

    /// The state at `index`, if there is one.
    pub fn get(&self, index: usize) -> (state: Option<Hyperion>)
        ensures
            index < self@.len() ==> state == Some(self@[index as int]),
            index >= self@.len() ==> state is None,
    {
        if index < self.states.len() {
            Some(self.states[index])
        } else {
            None
        }
    }

    /// The state reached last, if any was recorded.
    pub fn last(&self) -> (state: Option<Hyperion>)
        ensures
            self@.len() > 0 ==> state == Some(self@.last()),
            self@.len() == 0 ==> state is None,
    {
        let count: usize = self.states.len();
        if count == 0 {
            None
        } else {
            Some(self.states[count - 1])
        }
    }

    /// Records `state` at the end, provided it is later than the last state;
    /// otherwise the history is left as it was.
    pub fn append(&mut self, state: Hyperion) -> (done: Result<(), HistoryError>)
        ensures
            old(self)@.len() == 0 || state.t.exceeds(old(self)@.last().t) ==> done is Ok
                && final(self)@ == old(self)@.push(state),
            !(old(self)@.len() == 0 || state.t.exceeds(old(self)@.last().t)) ==> done == Err::<
                (),
                HistoryError,
            >(HistoryError::NotLater) && final(self)@ == old(self)@,
            old(self).well_formed() ==> final(self).well_formed(),
    {
        let count: usize = self.states.len();
        if count == 0 || state.t.gt(&self.states[count - 1].t) {
            self.states.push(state);
            Ok(())
        } else {
            Err(HistoryError::NotLater)
        }
    }
}

} // verus!
