//! The conversation with the sensor, one step at a time.
//!
//! A read wakes the sensor with a long low pulse, releases the line, waits for
//! the sensor to acknowledge with a high and a low level, and then times forty
//! pulses: a short one is a zero, a long one is a one. All of this has to
//! happen on a real pin with real delays, which this crate does not have. So
//! the conversation is written down as a machine: a [`Dht`] names the one
//! [`Action`] that is due, the caller carries it out and tells the machine how
//! it went, and the machine moves on until it has a verdict.
//!
//! [`State`] is the machine as a mathematical value and [`State::next`] its
//! transition function. [`Dht::step`] computes exactly that function.

use vstd::prelude::*;
use crate::decode::{decode, decoded, Variant};
use crate::error::DhtError;
use crate::frame::{blank, set_bit, with_bit, FRAME_BITS};
use crate::interrupt::InterruptControl;
use crate::reading::Reading;

verus! {

/// How long the line is held low to wake the sensor, in microseconds.
pub const WAKE_HOLD_US: u32 = 3000;

/// How long the line is held high to ask for data, in microseconds.
pub const REQUEST_HOLD_US: u32 = 25;

/// How long the sensor may take over each half of its acknowledgment.
pub const ACK_TIMEOUT_US: u32 = 85;

/// How long the low level that precedes each bit may last.
pub const BIT_START_TIMEOUT_US: u32 = 55;

/// How long the high pulse that carries a bit may last.
pub const BIT_PULSE_TIMEOUT_US: u32 = 70;

/// A pulse that lasts longer than this many microseconds is a one.
pub const ONE_THRESHOLD_US: u32 = 30;

/// The pause between two looks at the line, in microseconds.
pub const TICK_US: u32 = 1;

/// Something that the caller has to do on behalf of the machine.
#[derive(Debug, Clone, Copy, PartialEq, Eq)]
pub enum Action {
    /// Hold interrupts back; see [`InterruptControl`](crate::InterruptControl).
    DisableInterrupts,
    /// Drive the line low.
    SetLow,
    /// Drive the line high, that is, release it to its pull-up.
    SetHigh,
    /// Do nothing for this many microseconds.
    DelayUs(u32),
    /// Ask the pin whether the line is high.
    IsHigh,
    /// Ask the pin whether the line is low.
    IsLow,
    /// Let interrupts through again.
    EnableInterrupts,
}

impl Action {
    /// Whether the action is addressed to the interrupt guard, not to the pin
    /// or the clock.
    pub open spec fn is_for_guard(self) -> bool {
        self == Action::DisableInterrupts || self == Action::EnableInterrupts
    }

    /// Carries the action out on `interrupt_disabler` if it is addressed to
    /// the guard, and says whether it was. The other actions are left to the
    /// caller.
    ///
    /// For [`Action::DisableInterrupts`] the guard is what one call of
    /// [`InterruptControl::disable_interrupts`] makes of it, for
    /// [`Action::EnableInterrupts`] what one call of
    /// [`InterruptControl::enable_interrupts`] makes of it, and for every
    /// other action it is left as it was.
    pub fn apply_to_guard<ID: InterruptControl>(self, interrupt_disabler: &mut ID) -> (applied:
        bool)
        ensures
            applied == self.is_for_guard(),
            !self.is_for_guard() ==> *final(interrupt_disabler) == *old(interrupt_disabler),
            self == Action::DisableInterrupts ==> (exists|held: &mut ID|
                call_ensures(ID::disable_interrupts, (held,), ()) && mut_ref_current(held) == *old(
                    interrupt_disabler,
                ) && mut_ref_future(held) == *final(interrupt_disabler)),
            self == Action::EnableInterrupts ==> (exists|held: &mut ID|
                call_ensures(ID::enable_interrupts, (held,), ()) && mut_ref_current(held) == *old(
                    interrupt_disabler,
                ) && mut_ref_future(held) == *final(interrupt_disabler)),
    {
        match self {
            Action::DisableInterrupts => {
                interrupt_disabler.disable_interrupts();
                true
            },
            Action::EnableInterrupts => {
                interrupt_disabler.enable_interrupts();
                true
            },
            _ => false,
        }
    }
}

/// The four kinds of level that the machine waits for.
#[derive(Debug, Clone, Copy, PartialEq, Eq)]
pub enum Stage {
    /// The sensor lets the line rise: first half of the acknowledgment.
    AckHigh,
    /// The sensor pulls the line low: second half of the acknowledgment.
    AckLow,
    /// The line rises: the pulse of a bit begins.
    BitHigh,
    /// The line falls: the pulse of a bit ends.
    BitLow,
}

impl Stage {
    /// The number of microseconds after which the wait is given up.
    pub open spec fn timeout(self) -> nat {
        match self {
            Stage::AckHigh | Stage::AckLow => ACK_TIMEOUT_US as nat,
            Stage::BitHigh => BIT_START_TIMEOUT_US as nat,
            Stage::BitLow => BIT_PULSE_TIMEOUT_US as nat,
        }
    }

    /// The question put to the pin during the wait.
    pub open spec fn poll(self) -> Action {
        match self {
            Stage::AckHigh | Stage::BitHigh => Action::IsHigh,
            Stage::AckLow | Stage::BitLow => Action::IsLow,
        }
    }

    /// What it means when the wait is given up: a sensor that does not even
    /// acknowledge is not there, one that stops in the middle of a bit has
    /// timed out.
    pub open spec fn on_timeout<HE>(self) -> DhtError<HE> {
        match self {
            Stage::AckHigh | Stage::AckLow => DhtError::NotPresent,
            Stage::BitHigh | Stage::BitLow => DhtError::Timeout,
        }
    }

    fn timeout_us(self) -> (us: u32)
        ensures
            us == self.timeout(),
    {
        match self {
            Stage::AckHigh | Stage::AckLow => ACK_TIMEOUT_US,
            Stage::BitHigh => BIT_START_TIMEOUT_US,
            Stage::BitLow => BIT_PULSE_TIMEOUT_US,
        }
    }

    fn poll_action(self) -> (action: Action)
        ensures
            action == self.poll(),
    {
        match self {
            Stage::AckHigh | Stage::BitHigh => Action::IsHigh,
            Stage::AckLow | Stage::BitLow => Action::IsLow,
        }
    }

    fn timed_out<HE>(self) -> (error: DhtError<HE>)
        ensures
            error == self.on_timeout::<HE>(),
    {
        match self {
            Stage::AckHigh | Stage::AckLow => DhtError::NotPresent,
            Stage::BitHigh | Stage::BitLow => DhtError::Timeout,
        }
    }
}

/// Where in the conversation the machine stands. Each phase but the last
/// awaits the outcome of one action.
pub enum Phase<HE> {
    /// Interrupts are about to be held back.
    Suspend,
    /// The line is about to be driven low.
    WakeDrive,
    /// The line is low and stays so for [`WAKE_HOLD_US`].
    WakeHold,
    /// The line is about to be driven high.
    RequestDrive,
    /// The line is high and stays so for [`REQUEST_HOLD_US`].
    RequestHold,
    /// The pin is about to be asked for the level that the stage waits for.
    Poll,
    /// The level was not there yet; one tick passes before the next look.
    Tick,
    /// The verdict is in; interrupts are about to be let through again.
    Resume(Result<Reading, DhtError<HE>>),
}

/// The machine as a mathematical value.
pub struct State<HE> {
    /// The sensor whose encoding is used to decode the frame.
    pub variant: Variant,
    /// The step of the conversation that is due.
    pub phase: Phase<HE>,
    /// The level waited for, once the request has been made.
    pub stage: Stage,
    /// The number of bits received in full so far.
    pub bit: nat,
    /// The number of ticks spent in the current wait.
    pub elapsed: nat,
    /// The bits received so far, the others zero.
    pub frame: Seq<u8>,
}

/// Where one step leads.
pub enum Progress<HE> {
    /// The conversation goes on from this state.
    Running(State<HE>),
    /// The conversation is over, with this verdict.
    Finished(Result<Reading, DhtError<HE>>),
}

impl<HE> State<HE> {
    /// The state before anything has happened.
    pub open spec fn start(variant: Variant) -> Self {
        State {
            variant,
            phase: Phase::Suspend,
            stage: Stage::AckHigh,
            bit: 0,
            elapsed: 0,
            frame: blank(),
        }
    }

    /// What every state that the machine can be in has in common.
    pub open spec fn wf(self) -> bool {
        &&& self.frame.len() == 5
        &&& self.bit < FRAME_BITS
        &&& self.elapsed <= self.stage.timeout()
    }

    /// The action whose outcome the machine awaits.
    pub open spec fn action(self) -> Action {
        match self.phase {
            Phase::Suspend => Action::DisableInterrupts,
            Phase::WakeDrive => Action::SetLow,
            Phase::WakeHold => Action::DelayUs(WAKE_HOLD_US),
            Phase::RequestDrive => Action::SetHigh,
            Phase::RequestHold => Action::DelayUs(REQUEST_HOLD_US),
            Phase::Poll => self.stage.poll(),
            Phase::Tick => Action::DelayUs(TICK_US),
            Phase::Resume(_) => Action::EnableInterrupts,
        }
    }

    /// The same state in another phase.
    pub open spec fn enter(self, phase: Phase<HE>) -> Self {
        State { phase, ..self }
    }

    /// The same state with `ticks` ticks spent in the current wait.
    pub open spec fn waited(self, ticks: nat) -> Self {
        State { elapsed: ticks, ..self }
    }

    /// The state in which a fresh wait for the level of `stage` begins.
    pub open spec fn await_level(self, stage: Stage, bit: nat) -> Self {
        State { phase: Phase::Poll, stage, bit, elapsed: 0, ..self }
    }

    /// The state that has reached a verdict.
    pub open spec fn conclude(self, verdict: Result<Reading, DhtError<HE>>) -> Self {
        self.enter(Phase::Resume(verdict))
    }

    /// The state after the level waited for has shown up.
    ///
    /// The two halves of the acknowledgment and the start of a pulse only lead
    /// on to the next wait. The end of a pulse yields a bit: a one if the
    /// pulse took more than [`ONE_THRESHOLD_US`] ticks, else a zero. After
    /// the fortieth bit the frame is decoded, and that is the verdict.
    pub open spec fn arrive(self) -> Self {
        match self.stage {
            Stage::AckHigh => self.await_level(Stage::AckLow, 0),
            Stage::AckLow => self.await_level(Stage::BitHigh, 0),
            Stage::BitHigh => self.await_level(Stage::BitLow, self.bit),
            Stage::BitLow => {
                let frame = if self.elapsed > ONE_THRESHOLD_US {
                    with_bit(self.frame, self.bit as int)
                } else {
                    self.frame
                };
                let received = State { frame, ..self };
                if self.bit + 1 < FRAME_BITS {
                    received.await_level(Stage::BitHigh, self.bit + 1)
                } else {
                    received.conclude(decoded(self.variant, frame))
                }
            },
        }
    }

    /// The state after an action has been carried out without failure.
    /// `ready` is the answer of the pin and matters only after a poll.
    pub open spec fn proceed(self, ready: bool) -> Self {
        match self.phase {
            Phase::Suspend => self.enter(Phase::WakeDrive),
            Phase::WakeDrive => self.enter(Phase::WakeHold),
            Phase::WakeHold => self.enter(Phase::RequestDrive),
            Phase::RequestDrive => self.enter(Phase::RequestHold),
            Phase::RequestHold => self.await_level(Stage::AckHigh, 0),
            Phase::Poll => if ready {
                self.arrive()
            } else {
                self.enter(Phase::Tick)
            },
            Phase::Tick => if self.elapsed < self.stage.timeout() {
                self.waited(self.elapsed + 1).enter(Phase::Poll)
            } else {
                self.conclude(Err(self.stage.on_timeout()))
            },
            Phase::Resume(_) => self,
        }
    }

    /// Where the machine goes when told the outcome of the action it awaited.
    ///
    /// Once the verdict is in, the only action left is to let interrupts
    /// through again, and whatever is reported of it ends the conversation.
    /// Before that, a failure of the pin becomes the verdict at once, and
    /// anything else moves the machine on.
    pub open spec fn next(self, outcome: Result<bool, HE>) -> Progress<HE> {
        match self.phase {
            Phase::Resume(verdict) => Progress::Finished(verdict),
            _ => match outcome {
                Err(error) => Progress::Running(self.conclude(Err(DhtError::PinError(error)))),
                Ok(ready) => Progress::Running(self.proceed(ready)),
            },
        }
    }
}

/// A read in progress.
///
/// Make one with [`Dht::new`] for each read. Then, until the read is over,
/// carry out [`Dht::action`] and hand the outcome to [`Dht::step`].
pub struct Dht<HE> {
    variant: Variant,
    phase: Phase<HE>,
    stage: Stage,
    bit: u8,
    elapsed: u32,
    frame: [u8; 5],
}

impl<HE> View for Dht<HE> {
    type V = State<HE>;

    closed spec fn view(&self) -> State<HE> {
        State {
            variant: self.variant,
            phase: self.phase,
            stage: self.stage,
            bit: self.bit as nat,
            elapsed: self.elapsed as nat,
            frame: self.frame@,
        }
    }
}

/// What [`Dht::step`] hands back.
pub enum Step<HE> {
    /// The read goes on: the machine, which awaits its next action.
    Continue(Dht<HE>),
    /// The read is over: its verdict.
    Finished(Result<Reading, DhtError<HE>>),
}

impl<HE> View for Step<HE> {
    type V = Progress<HE>;

    open spec fn view(&self) -> Progress<HE> {
        match *self {
            Step::Continue(dht) => Progress::Running(dht@),
            Step::Finished(verdict) => Progress::Finished(verdict),
        }
    }
}

impl<HE> Dht<HE> {
    #[verifier::type_invariant]
    spec fn well_formed(self) -> bool {
        self@.wf()
    }

    /// Sets up a read from the given sensor.
    pub fn new(variant: Variant) -> (dht: Self)
        ensures
            dht@ == State::<HE>::start(variant),
    {
        Dht {
            variant,
            phase: Phase::Suspend,
            stage: Stage::AckHigh,
            bit: 0,
            elapsed: 0,
            frame: [0, 0, 0, 0, 0],
        }
    }

    /// The action that is due.
    pub fn action(&self) -> (action: Action)
        ensures
            action == self@.action(),
            self@.wf(),
    {
        proof {
            use_type_invariant(self);
        }
        match self.phase {
            Phase::Suspend => Action::DisableInterrupts,
            Phase::WakeDrive => Action::SetLow,
            Phase::WakeHold => Action::DelayUs(WAKE_HOLD_US),
            Phase::RequestDrive => Action::SetHigh,
            Phase::RequestHold => Action::DelayUs(REQUEST_HOLD_US),
            Phase::Poll => self.stage.poll_action(),
            Phase::Tick => Action::DelayUs(TICK_US),
            Phase::Resume(_) => Action::EnableInterrupts,
        }
    }

    /// Moves on, given how the action that was due has gone.
    ///
    /// `outcome` is `Err` with the error of the pin if the action failed.
    /// Otherwise it is `Ok` with the answer of the pin; after an action that
    /// asks nothing, any `Ok` will do.
    pub fn step(self, outcome: Result<bool, HE>) -> (step: Step<HE>)
        ensures
            step@ == self@.next(outcome),
    {
        proof {
            use_type_invariant(&self);
        }
        let Dht { variant, phase, mut stage, mut bit, mut elapsed, mut frame } = self;
        let ready = match outcome {
            Ok(ready) => ready,
            Err(error) => {
                return match phase {
                    Phase::Resume(verdict) => Step::Finished(verdict),
                    _ => Step::Continue(
                        Dht {
                            variant,
                            phase: Phase::Resume(Err(DhtError::from(error))),
                            stage,
                            bit,
                            elapsed,
                            frame,
                        },
                    ),
                };
            },
        };
        let phase = match phase {
            Phase::Resume(verdict) => {
                return Step::Finished(verdict);
            },
            Phase::Suspend => Phase::WakeDrive,
            Phase::WakeDrive => Phase::WakeHold,
            Phase::WakeHold => Phase::RequestDrive,
            Phase::RequestDrive => Phase::RequestHold,
            Phase::RequestHold => {
                stage = Stage::AckHigh;
                bit = 0;
                elapsed = 0;
                Phase::Poll
            },
            Phase::Poll => if !ready {
                Phase::Tick
            } else {
                match stage {
                    Stage::AckHigh => {
                        stage = Stage::AckLow;
                        bit = 0;
                        elapsed = 0;
                        Phase::Poll
                    },
                    Stage::AckLow => {
                        stage = Stage::BitHigh;
                        bit = 0;
                        elapsed = 0;
                        Phase::Poll
                    },
                    Stage::BitHigh => {
                        stage = Stage::BitLow;
                        elapsed = 0;
                        Phase::Poll
                    },
                    Stage::BitLow => {
                        if elapsed > ONE_THRESHOLD_US {
                            set_bit(&mut frame, bit);
                        }
                        if bit + 1 < FRAME_BITS {
                            stage = Stage::BitHigh;
                            bit = bit + 1;
                            elapsed = 0;
                            Phase::Poll
                        } else {
                            Phase::Resume(decode(variant, &frame))
                        }
                    },
                }
            },
            Phase::Tick => if elapsed < stage.timeout_us() {
                elapsed = elapsed + 1;
                Phase::Poll
            } else {
                Phase::Resume(Err(stage.timed_out()))
            },
        };
        Step::Continue(Dht { variant, phase, stage, bit, elapsed, frame })
    }
}

} // verus!
