//! What whole reads come to.
//!
//! [`State::next`](crate::protocol::State::next) says where one outcome leads.
//! This module follows the machine through a whole sequence of outcomes and
//! proves what every read has in common: interrupts are held back once at the
//! start and let through once at the end, a failing pin ends the read with its
//! own error, a sensor that stays silent is reported as absent, one that stalls
//! in the middle of a bit as timed out, a sensor that answers in time gets the
//! frame it sent decoded, and no read takes more than a fixed number of
//! actions, of looks at the line, and of microseconds spent pausing.

use vstd::prelude::*;
use crate::decode::{decoded, humidity_tenths, temperature_tenths, Variant};
use crate::error::DhtError;
use crate::frame::{bit_at, checksum, frame_of};
use crate::protocol::{
    Action, Phase, Progress, Stage, State, ACK_TIMEOUT_US, BIT_PULSE_TIMEOUT_US,
    BIT_START_TIMEOUT_US, ONE_THRESHOLD_US, REQUEST_HOLD_US, WAKE_HOLD_US,
};
use crate::reading::{Reading, MAX_HUMIDITY};

verus! {

/// Where the machine stands after it has been told `outcomes` one by one.
/// Outcomes that come after the verdict are not looked at.
pub open spec fn run<HE>(state: State<HE>, outcomes: Seq<Result<bool, HE>>) -> Progress<HE>
    decreases outcomes.len(),
{
    if outcomes.len() == 0 {
        Progress::Running(state)
    } else {
        match state.next(outcomes[0]) {
            Progress::Finished(verdict) => Progress::Finished(verdict),
            Progress::Running(then) => run(then, outcomes.skip(1)),
        }
    }
}

/// The actions that the caller has carried out by the time it has reported
/// `outcomes`, in order.
pub open spec fn actions<HE>(state: State<HE>, outcomes: Seq<Result<bool, HE>>) -> Seq<Action>
    decreases outcomes.len(),
{
    if outcomes.len() == 0 {
        Seq::empty()
    } else {
        seq![state.action()] + match state.next(outcomes[0]) {
            Progress::Finished(_) => Seq::empty(),
            Progress::Running(then) => actions(then, outcomes.skip(1)),
        }
    }
}

/// No action has failed.
pub open spec fn smooth<HE>(outcomes: Seq<Result<bool, HE>>) -> bool {
    forall|i: int| 0 <= i < outcomes.len() ==> (#[trigger] outcomes[i]) is Ok
}

/// The outcomes of a wait during which the level never showed up: the pin was
/// asked, said no, a tick passed, and so on, without any failure.
pub open spec fn unanswered<HE>(wait: Seq<Result<bool, HE>>) -> bool {
    &&& wait.len() % 2 == 0
    &&& forall|i: int|
        0 <= i < wait.len() ==> match #[trigger] wait[i] {
            Ok(ready) => i % 2 == 0 ==> !ready,
            Err(_) => false,
        }
}

/// The outcomes of a wait that ended with the level showing up: any number of
/// fruitless looks, then one that found it.
pub open spec fn answered<HE>(wait: Seq<Result<bool, HE>>) -> bool {
    &&& wait.len() % 2 == 1
    &&& unanswered(wait.drop_last())
    &&& wait.last() == Ok::<bool, HE>(true)
}

/// The number of ticks that passed during a wait.
pub open spec fn ticks<HE>(wait: Seq<Result<bool, HE>>) -> nat {
    wait.len() / 2
}

/// The outcomes of the first `count` bits put one after the other: for each
/// bit the wait for its pulse to begin, then the wait for it to end.
pub open spec fn pulses<HE>(
    rises: Seq<Seq<Result<bool, HE>>>,
    falls: Seq<Seq<Result<bool, HE>>>,
    count: nat,
) -> Seq<Result<bool, HE>>
    decreases count,
{
    if count == 0 {
        Seq::empty()
    } else {
        pulses(rises, falls, (count - 1) as nat) + rises[count - 1] + falls[count - 1]
    }
}

/// The bits that pulses of the given lengths stand for.
pub open spec fn bits_of<HE>(falls: Seq<Seq<Result<bool, HE>>>) -> Seq<bool> {
    Seq::new(falls.len(), |i: int| ticks(falls[i]) > ONE_THRESHOLD_US)
}

/// The state in which the machine waits for the pulse of bit `bit` to begin.
pub open spec fn sampling<HE>(variant: Variant, frame: Seq<u8>, bit: nat) -> State<HE> {
    State { variant, phase: Phase::Poll, stage: Stage::BitHigh, bit, elapsed: 0, frame }
}

/// A step never leads out of the states that the machine can be in.
pub proof fn law_next_keeps_wf<HE>(state: State<HE>, outcome: Result<bool, HE>)
    requires
        state.wf(),
    ensures
        state.next(outcome) matches Progress::Running(then) ==> then.wf(),
{
}

/// Telling the machine one sequence of outcomes and then another is the same
/// as telling it both in one go.
pub proof fn lemma_run_append<HE>(
    state: State<HE>,
    first: Seq<Result<bool, HE>>,
    second: Seq<Result<bool, HE>>,
)
    ensures
        run(state, first + second) == match run(state, first) {
            Progress::Running(then) => run(then, second),
            Progress::Finished(verdict) => Progress::Finished(verdict),
        },
    decreases first.len(),
{
    if first.len() == 0 {
        assert(first + second =~= second);
    } else {
        assert((first + second)[0] == first[0]);
        assert((first + second).skip(1) =~= first.skip(1) + second);
        match state.next(first[0]) {
            Progress::Finished(_) => {},
            Progress::Running(then) => {
                lemma_run_append(then, first.skip(1), second);
            },
        }
    }
}

proof fn lemma_unanswered<HE>(state: State<HE>, wait: Seq<Result<bool, HE>>)
    requires
        state.wf(),
        state.phase is Poll,
        unanswered(wait),
        state.elapsed + ticks(wait) <= state.stage.timeout() + 1,
    ensures
        run(state, wait) == Progress::Running(
            if state.elapsed + ticks(wait) <= state.stage.timeout() {
                state.waited(state.elapsed + ticks(wait))
            } else {
                state.waited(state.stage.timeout()).conclude(Err(state.stage.on_timeout()))
            },
        ),
    decreases wait.len(),
{
    if wait.len() == 0 {
        assert(state.waited(state.elapsed + ticks(wait)) == state);
    } else {
        let paused = state.enter(Phase::Tick);
        let rest = wait.skip(1);
        let tail = rest.skip(1);
        assert(wait[0] is Ok && wait[1] is Ok);
        assert(state.next(wait[0]) == Progress::Running(paused));
        assert(run(state, wait) == run(paused, rest));
        assert(rest[0] == wait[1]);
        assert(tail =~= wait.skip(2));
        if state.elapsed < state.stage.timeout() {
            let again = state.waited(state.elapsed + 1);
            assert(paused.next(rest[0]) == Progress::Running(again));
            assert(run(paused, rest) == run(again, tail));
            assert forall|i: int| 0 <= i < tail.len() implies match #[trigger] tail[i] {
                Ok(ready) => i % 2 == 0 ==> !ready,
                Err(_) => false,
            } by {
                assert(tail[i] == wait[i + 2]);
            }
            lemma_unanswered(again, tail);
            assert(ticks(tail) + 1 == ticks(wait));
        } else {
            let over = paused.conclude(Err(state.stage.on_timeout()));
            assert(paused.next(rest[0]) == Progress::Running(over));
            assert(tail.len() == 0);
            assert(run(paused, rest) == run(over, tail));
        }
    }
}

/// A wait that is answered in time leads on to whatever follows the level
/// that was waited for, and the machine knows how many ticks the wait took.
pub proof fn law_wait_answered<HE>(state: State<HE>, wait: Seq<Result<bool, HE>>)
    requires
        state.wf(),
        state.phase is Poll,
        state.elapsed == 0,
        answered(wait),
        ticks(wait) <= state.stage.timeout(),
    ensures
        run(state, wait) == Progress::Running(state.waited(ticks(wait)).arrive()),
        state.waited(ticks(wait)).arrive().wf(),
{
    let quiet = wait.drop_last();
    let found = seq![wait.last()];
    let waited = state.waited(ticks(wait));
    assert(wait =~= quiet + found);
    lemma_unanswered(state, quiet);
    lemma_run_append(state, quiet, found);
    assert(run(state, quiet) == Progress::Running(waited));
    assert(waited.next(found[0]) == Progress::Running(waited.arrive()));
    assert(found.skip(1).len() == 0);
    assert(run(waited, found) == run(waited.arrive(), found.skip(1)));
}

/// A wait that is never answered ends the read as soon as its time is up:
/// once interrupts are let through again, the verdict is the error that
/// belongs to the level waited for.
pub proof fn law_wait_unanswered<HE>(
    state: State<HE>,
    wait: Seq<Result<bool, HE>>,
    release: Result<bool, HE>,
)
    requires
        state.wf(),
        state.phase is Poll,
        state.elapsed == 0,
        unanswered(wait),
        ticks(wait) == state.stage.timeout() + 1,
    ensures
        run(state, wait.push(release)) == Progress::<HE>::Finished(
            Err(state.stage.on_timeout()),
        ),
{
    let over = state.waited(state.stage.timeout()).conclude(Err(state.stage.on_timeout()));
    let last = seq![release];
    assert(wait.push(release) =~= wait + last);
    lemma_unanswered(state, wait);
    lemma_run_append(state, wait, last);
    assert(run(over, last) == Progress::<HE>::Finished(Err(state.stage.on_timeout())));
}

/// A sensor that does not acknowledge is reported as not present, whichever
/// half of the acknowledgment it leaves out.
pub proof fn law_silent_sensor_is_not_present<HE>(
    state: State<HE>,
    wait: Seq<Result<bool, HE>>,
    release: Result<bool, HE>,
)
    requires
        state.wf(),
        state.phase is Poll,
        state.stage is AckHigh || state.stage is AckLow,
        state.elapsed == 0,
        unanswered(wait),
        ticks(wait) == state.stage.timeout() + 1,
    ensures
        run(state, wait.push(release)) == Progress::<HE>::Finished(Err(DhtError::NotPresent)),
{
    law_wait_unanswered(state, wait, release);
}

/// A sensor that has acknowledged and then lets a wait for the beginning or
/// the end of a pulse run out is reported as timed out. This holds for every
/// bit and whatever has been received before it: nothing of the frame gets
/// out.
pub proof fn law_stalled_bit_times_out<HE>(
    state: State<HE>,
    wait: Seq<Result<bool, HE>>,
    release: Result<bool, HE>,
)
    requires
        state.wf(),
        state.phase is Poll,
        state.stage is BitHigh || state.stage is BitLow,
        state.elapsed == 0,
        unanswered(wait),
        ticks(wait) == state.stage.timeout() + 1,
    ensures
        run(state, wait.push(release)) == Progress::<HE>::Finished(Err(DhtError::Timeout)),
{
    law_wait_unanswered(state, wait, release);
}

/// A failure of the pin ends the read at once, whatever the machine was
/// doing: interrupts are let through again, and the verdict is that failure.
pub proof fn law_pin_failure_ends_read<HE>(
    state: State<HE>,
    error: HE,
    release: Result<bool, HE>,
)
    requires
        !(state.phase is Resume),
    ensures
        run(state, seq![Err(error), release]) == Progress::<HE>::Finished(
            Err(DhtError::PinError(error)),
        ),
        actions(state, seq![Err(error), release]) == seq![state.action(), Action::EnableInterrupts],
{
    let outcomes = seq![Err(error), release];
    let over = state.conclude(Err(DhtError::PinError(error)));
    let rest = outcomes.skip(1);
    assert(state.next(outcomes[0]) == Progress::Running(over));
    assert(rest[0] == release);
    assert(rest.skip(1).len() == 0);
    assert(run(over, rest) == Progress::<HE>::Finished(Err(DhtError::PinError(error))));
    assert(actions(over, rest) =~= seq![Action::EnableInterrupts]);
    assert(actions(state, outcomes) =~= seq![state.action(), Action::EnableInterrupts]);
}

proof fn lemma_guard<HE>(state: State<HE>, outcomes: Seq<Result<bool, HE>>)
    requires
        run(state, outcomes) is Finished,
    ensures
        ({
            let done = actions(state, outcomes);
            &&& done.len() >= 1
            &&& done.last() == Action::EnableInterrupts
            &&& (done[0] == Action::DisableInterrupts <==> state.phase is Suspend)
            &&& (state.phase is Suspend ==> done.len() >= 2)
            &&& forall|i: int| 0 < i < done.len() ==> done[i] != Action::DisableInterrupts
            &&& forall|i: int| 0 <= i < done.len() - 1 ==> done[i] != Action::EnableInterrupts
        }),
    decreases outcomes.len(),
{
    let done = actions(state, outcomes);
    match state.next(outcomes[0]) {
        Progress::Finished(_) => {
            assert(done =~= seq![Action::EnableInterrupts]);
        },
        Progress::Running(then) => {
            let later = actions(then, outcomes.skip(1));
            lemma_guard(then, outcomes.skip(1));
            assert(done =~= seq![state.action()] + later);
            assert(!(then.phase is Suspend));
            assert forall|i: int| 0 < i < done.len() implies done[i]
                != Action::DisableInterrupts by {
                assert(done[i] == later[i - 1]);
            }
            assert forall|i: int| 0 <= i < done.len() - 1 implies done[i]
                != Action::EnableInterrupts by {
                if i > 0 {
                    assert(done[i] == later[i - 1]);
                }
            }
            assert(done.last() == later.last());
        },
    }
}

/// Every read that reaches a verdict, good or bad, holds interrupts back
/// exactly once, before anything else, and lets them through exactly once,
/// after everything else.
pub proof fn law_guard_brackets_read<HE>(variant: Variant, outcomes: Seq<Result<bool, HE>>)
    requires
        run(State::<HE>::start(variant), outcomes) is Finished,
    ensures
        ({
            let done = actions(State::<HE>::start(variant), outcomes);
            &&& done.len() >= 2
            &&& done.first() == Action::DisableInterrupts
            &&& done.last() == Action::EnableInterrupts
            &&& forall|i: int| 0 < i < done.len() ==> done[i] != Action::DisableInterrupts
            &&& forall|i: int| 0 <= i < done.len() - 1 ==> done[i] != Action::EnableInterrupts
        }),
{
    lemma_guard(State::<HE>::start(variant), outcomes);
}

/// Waking the sensor and asking it for data takes five actions, and when none
/// of them fails the machine goes on to wait for the acknowledgment.
pub proof fn law_request<HE>(variant: Variant, setup: Seq<Result<bool, HE>>)
    requires
        setup.len() == 5,
        smooth(setup),
    ensures
        run(State::<HE>::start(variant), setup) == Progress::Running(
            State::<HE>::start(variant).await_level(Stage::AckHigh, 0),
        ),
        actions(State::<HE>::start(variant), setup) == seq![
            Action::DisableInterrupts,
            Action::SetLow,
            Action::DelayUs(crate::protocol::WAKE_HOLD_US),
            Action::SetHigh,
            Action::DelayUs(crate::protocol::REQUEST_HOLD_US),
        ],
{
    let s0 = State::<HE>::start(variant);
    let s1 = s0.enter(Phase::WakeDrive);
    let s2 = s0.enter(Phase::WakeHold);
    let s3 = s0.enter(Phase::RequestDrive);
    let s4 = s0.enter(Phase::RequestHold);
    let s5 = s0.await_level(Stage::AckHigh, 0);
    let o1 = setup.skip(1);
    let o2 = o1.skip(1);
    let o3 = o2.skip(1);
    let o4 = o3.skip(1);
    let o5 = o4.skip(1);
    assert(setup[0] is Ok && setup[1] is Ok && setup[2] is Ok && setup[3] is Ok && setup[4] is Ok);
    assert(o1[0] == setup[1] && o2[0] == setup[2] && o3[0] == setup[3] && o4[0] == setup[4]);
    assert(s0.next(setup[0]) == Progress::Running(s1));
    assert(s1.next(o1[0]) == Progress::Running(s2));
    assert(s2.next(o2[0]) == Progress::Running(s3));
    assert(s3.next(o3[0]) == Progress::Running(s4));
    assert(s4.next(o4[0]) == Progress::Running(s5));
    assert(run(s5, o5) == Progress::Running(s5));
    assert(run(s4, o4) == Progress::Running(s5));
    assert(run(s3, o3) == Progress::Running(s5));
    assert(run(s2, o2) == Progress::Running(s5));
    assert(run(s1, o1) == Progress::Running(s5));
    assert(actions(s5, o5) =~= Seq::<Action>::empty());
    assert(actions(s4, o4) =~= seq![s4.action()]);
    assert(actions(s3, o3) =~= seq![s3.action(), s4.action()]);
    assert(actions(s2, o2) =~= seq![s2.action(), s3.action(), s4.action()]);
    assert(actions(s1, o1) =~= seq![s1.action(), s2.action(), s3.action(), s4.action()]);
    assert(actions(s0, setup) =~= seq![
        s0.action(),
        s1.action(),
        s2.action(),
        s3.action(),
        s4.action(),
    ]);
}

/// What has to hold of the outcomes of the first `count` bits for the sensor
/// to have sent them in time: each pulse begins and ends before its wait runs
/// out.
pub open spec fn in_time<HE>(
    rises: Seq<Seq<Result<bool, HE>>>,
    falls: Seq<Seq<Result<bool, HE>>>,
    count: nat,
) -> bool {
    &&& rises.len() >= count
    &&& falls.len() >= count
    &&& forall|i: int|
        0 <= i < count ==> answered(#[trigger] rises[i]) && ticks(rises[i])
            <= Stage::BitHigh.timeout()
    &&& forall|i: int|
        0 <= i < count ==> answered(#[trigger] falls[i]) && ticks(falls[i])
            <= Stage::BitLow.timeout()
}

proof fn lemma_bit<HE>(
    variant: Variant,
    frame: Seq<u8>,
    bit: nat,
    rise: Seq<Result<bool, HE>>,
    fall: Seq<Result<bool, HE>>,
)
    requires
        frame.len() == 5,
        bit < 40,
        answered(rise),
        ticks(rise) <= Stage::BitHigh.timeout(),
        answered(fall),
        ticks(fall) <= Stage::BitLow.timeout(),
    ensures
        run(sampling::<HE>(variant, frame, bit), rise + fall) == Progress::Running(
            sampling::<HE>(variant, frame, bit).await_level(Stage::BitLow, bit).waited(
                ticks(fall),
            ).arrive(),
        ),
{
    let begin = sampling::<HE>(variant, frame, bit);
    let high = begin.await_level(Stage::BitLow, bit);
    law_wait_answered(begin, rise);
    assert(begin.waited(ticks(rise)).arrive() == high);
    law_wait_answered(high, fall);
    lemma_run_append(begin, rise, fall);
}

/// When the sensor acknowledges and sends the first `count` bits in time, the
/// machine has them in its frame, each a one if and only if its pulse took
/// more than thirty ticks, and waits for the next.
pub proof fn law_bits_received<HE>(
    variant: Variant,
    setup: Seq<Result<bool, HE>>,
    ack_high: Seq<Result<bool, HE>>,
    ack_low: Seq<Result<bool, HE>>,
    rises: Seq<Seq<Result<bool, HE>>>,
    falls: Seq<Seq<Result<bool, HE>>>,
    count: nat,
)
    requires
        setup.len() == 5,
        smooth(setup),
        answered(ack_high),
        ticks(ack_high) <= Stage::AckHigh.timeout(),
        answered(ack_low),
        ticks(ack_low) <= Stage::AckLow.timeout(),
        count < 40,
        in_time(rises, falls, count),
    ensures
        run(
            State::<HE>::start(variant),
            setup + ack_high + ack_low + pulses(rises, falls, count),
        ) == Progress::Running(sampling::<HE>(variant, frame_of(bits_of(falls), count), count)),
    decreases count,
{
    let start = State::<HE>::start(variant);
    let bits = bits_of(falls);
    let lead = setup + ack_high + ack_low;
    if count == 0 {
        let asked = start.await_level(Stage::AckHigh, 0);
        let risen = start.await_level(Stage::AckLow, 0);
        law_request(variant, setup);
        law_wait_answered(asked, ack_high);
        assert(asked.waited(ticks(ack_high)).arrive() == risen);
        law_wait_answered(risen, ack_low);
        assert(risen.waited(ticks(ack_low)).arrive() == sampling::<HE>(
            variant,
            frame_of(bits, 0),
            0,
        ));
        lemma_run_append(start, setup, ack_high);
        lemma_run_append(start, setup + ack_high, ack_low);
        assert(lead + pulses(rises, falls, 0) =~= lead);
    } else {
        let before = (count - 1) as nat;
        let rise = rises[count - 1];
        let fall = falls[count - 1];
        let earlier = frame_of(bits, before);
        law_bits_received(variant, setup, ack_high, ack_low, rises, falls, before);
        crate::frame::law_frame_of(bits, before, 0);
        lemma_bit(variant, earlier, before, rise, fall);
        lemma_run_append(start, lead + pulses(rises, falls, before), rise + fall);
        assert(lead + pulses(rises, falls, count) =~= lead + pulses(rises, falls, before) + (rise
            + fall));
        assert(bits[count - 1] == (ticks(fall) > ONE_THRESHOLD_US));
    }
}

/// A read of a sensor that behaves yields what the sensor sent.
///
/// When nothing fails, the sensor acknowledges in time and all forty pulses
/// begin and end in time, the verdict is that of the frame whose bits are the
/// forty pulses, each a one if and only if it took more than thirty ticks: a
/// reading if the frame is intact and plausible, and else the error that says
/// what is wrong with it.
pub proof fn law_read<HE>(
    variant: Variant,
    setup: Seq<Result<bool, HE>>,
    ack_high: Seq<Result<bool, HE>>,
    ack_low: Seq<Result<bool, HE>>,
    rises: Seq<Seq<Result<bool, HE>>>,
    falls: Seq<Seq<Result<bool, HE>>>,
    release: Result<bool, HE>,
)
    requires
        setup.len() == 5,
        smooth(setup),
        answered(ack_high),
        ticks(ack_high) <= Stage::AckHigh.timeout(),
        answered(ack_low),
        ticks(ack_low) <= Stage::AckLow.timeout(),
        in_time(rises, falls, 40),
    ensures
        run(
            State::<HE>::start(variant),
            setup + ack_high + ack_low + pulses(rises, falls, 40) + seq![release],
        ) == Progress::<HE>::Finished(decoded(variant, frame_of(bits_of(falls), 40))),
{
    let start = State::<HE>::start(variant);
    let bits = bits_of(falls);
    let lead = setup + ack_high + ack_low;
    let rise = rises[39];
    let fall = falls[39];
    let earlier = frame_of(bits, 39);
    let last = sampling::<HE>(variant, earlier, 39);
    let over = last.await_level(Stage::BitLow, 39).waited(ticks(fall)).arrive();
    let end = seq![release];
    law_bits_received(variant, setup, ack_high, ack_low, rises, falls, 39);
    crate::frame::law_frame_of(bits, 39, 0);
    lemma_bit(variant, earlier, 39, rise, fall);
    assert(bits[39] == (ticks(fall) > ONE_THRESHOLD_US));
    assert(over.phase == Phase::<HE>::Resume(decoded(variant, frame_of(bits, 40))));
    lemma_run_append(start, lead + pulses(rises, falls, 39), rise + fall);
    assert(lead + pulses(rises, falls, 40) =~= lead + pulses(rises, falls, 39) + (rise + fall));
    lemma_run_append(start, lead + pulses(rises, falls, 40), end);
    assert(end.skip(1).len() == 0);
    assert(run(over, end) == Progress::<HE>::Finished(decoded(variant, frame_of(bits, 40))));
}

/// A read of a sensor that behaves returns what the sensor measured.
///
/// Let the sensor send `frame`, a one as a pulse of more than thirty ticks and
/// a zero as a shorter one, and let nothing fail or come late. Then the
/// verdict of the read is that of `frame`. If the checksum in `frame` is
/// right and its humidity at most 100 %, this is the reading with the
/// humidity and the temperature that `frame` encodes for the sensor at hand.
pub proof fn law_sent_frame_is_read<HE>(
    variant: Variant,
    frame: Seq<u8>,
    setup: Seq<Result<bool, HE>>,
    ack_high: Seq<Result<bool, HE>>,
    ack_low: Seq<Result<bool, HE>>,
    rises: Seq<Seq<Result<bool, HE>>>,
    falls: Seq<Seq<Result<bool, HE>>>,
    release: Result<bool, HE>,
)
    requires
        setup.len() == 5,
        smooth(setup),
        answered(ack_high),
        ticks(ack_high) <= Stage::AckHigh.timeout(),
        answered(ack_low),
        ticks(ack_low) <= Stage::AckLow.timeout(),
        in_time(rises, falls, 40),
        frame.len() == 5,
        forall|i: int| 0 <= i < 40 ==> bit_at(frame, i) == (ticks(#[trigger] falls[i]) > 30),
    ensures
        run(
            State::<HE>::start(variant),
            setup + ack_high + ack_low + pulses(rises, falls, 40) + seq![release],
        ) == Progress::<HE>::Finished(decoded(variant, frame)),
        frame[4] == checksum(frame) && humidity_tenths(variant, frame) <= MAX_HUMIDITY ==> run(
            State::<HE>::start(variant),
            setup + ack_high + ack_low + pulses(rises, falls, 40) + seq![release],
        ) == Progress::<HE>::Finished(
            Ok(Reading::of(humidity_tenths(variant, frame), temperature_tenths(variant, frame))),
        ),
{
    let received = frame_of(bits_of(falls), 40);
    law_read(variant, setup, ack_high, ack_low, rises, falls, release);
    assert forall|i: int| 0 <= i < 40 implies bit_at(received, i) == bit_at(frame, i) by {
        crate::frame::law_frame_of(bits_of(falls), 40, i);
        assert(bits_of(falls)[i] == (ticks(falls[i]) > ONE_THRESHOLD_US));
    }
    crate::frame::law_frame_of(bits_of(falls), 40, 0);
    crate::frame::law_same_bits_same_frame(received, frame);
}

/// The most actions that a single bit can take: each of its two waits is
/// answered only at the last tick.
pub const LONGEST_BIT: u32 = (2 * BIT_START_TIMEOUT_US + 1) + (2 * BIT_PULSE_TIMEOUT_US + 1);

/// The most actions that a whole read can take. This is the read in which
/// every wait is answered at the last tick, except the very last, which is
/// not answered at all: five actions for the request, two waits for the
/// acknowledgment, forty bits, and at the end one more tick and the release
/// of interrupts.
pub const LONGEST_READ: u32 = 5 + 2 * (2 * ACK_TIMEOUT_US + 1) + 40 * LONGEST_BIT + 2;

/// The most actions that a wait for the level of `stage` takes when it is
/// answered.
pub open spec fn longest_wait(stage: Stage) -> int {
    2 * (stage.timeout() as int) + 1
}

/// The most actions that can follow once the wait for the level of `stage`
/// during bit `bit` has been answered, counting one tick more than the last
/// wait needs when it is answered.
pub open spec fn most_after(stage: Stage, bit: nat) -> int {
    match stage {
        Stage::AckHigh => longest_wait(Stage::AckLow) + 40 * LONGEST_BIT + 2,
        Stage::AckLow => 40 * LONGEST_BIT + 2,
        Stage::BitHigh => longest_wait(Stage::BitLow) + (39 - bit) * LONGEST_BIT + 2,
        Stage::BitLow => (39 - bit) * LONGEST_BIT + 2,
    }
}

/// The most actions that are still to come in `state`, the one that is due
/// included.
pub open spec fn most_left<HE>(state: State<HE>) -> int {
    let whole = longest_wait(Stage::AckHigh) + most_after(Stage::AckHigh, 0);
    match state.phase {
        Phase::Suspend => 5 + whole,
        Phase::WakeDrive => 4 + whole,
        Phase::WakeHold => 3 + whole,
        Phase::RequestDrive => 2 + whole,
        Phase::RequestHold => 1 + whole,
        Phase::Poll => 2 * (state.stage.timeout() - state.elapsed) + 1 + most_after(
            state.stage,
            state.bit,
        ),
        Phase::Tick => 2 * (state.stage.timeout() - state.elapsed) + most_after(
            state.stage,
            state.bit,
        ),
        Phase::Resume(_) => 1,
    }
}

/// Every step brings the end of the read nearer.
pub proof fn law_step_counts_down<HE>(state: State<HE>, outcome: Result<bool, HE>)
    requires
        state.wf(),
    ensures
        most_left(state) >= 1,
        state.next(outcome) matches Progress::Running(then) ==> then.wf() && most_left(then)
            < most_left(state),
{
    assert(LONGEST_BIT == 252);
}

proof fn lemma_ends<HE>(state: State<HE>, outcomes: Seq<Result<bool, HE>>)
    requires
        state.wf(),
    ensures
        actions(state, outcomes).len() <= most_left(state),
        outcomes.len() >= most_left(state) ==> run(state, outcomes) is Finished,
    decreases outcomes.len(),
{
    if outcomes.len() > 0 {
        law_step_counts_down(state, outcomes[0]);
        match state.next(outcomes[0]) {
            Progress::Finished(_) => {},
            Progress::Running(then) => {
                lemma_ends(then, outcomes.skip(1));
            },
        }
    }
}

/// No read goes on forever: whatever the pin answers, the verdict is in after
/// at most [`LONGEST_READ`] actions.
pub proof fn law_read_ends<HE>(variant: Variant, outcomes: Seq<Result<bool, HE>>)
    ensures
        actions(State::<HE>::start(variant), outcomes).len() <= LONGEST_READ,
        outcomes.len() >= LONGEST_READ ==> run(State::<HE>::start(variant), outcomes) is Finished,
{
    lemma_ends(State::<HE>::start(variant), outcomes);
}

/// The longest that the two waits of one bit can make the caller pause, in
/// microseconds, when both are answered.
pub const LONGEST_BIT_PAUSE_US: u32 = BIT_START_TIMEOUT_US + BIT_PULSE_TIMEOUT_US;

/// The longest that a read which yields a reading can make the caller pause,
/// in microseconds: the wake pulse, the request, and every wait answered only
/// at its last tick.
pub const LONGEST_ANSWERED_PAUSE_US: u32 = WAKE_HOLD_US + REQUEST_HOLD_US + 2 * ACK_TIMEOUT_US + 40
    * LONGEST_BIT_PAUSE_US;

/// The longest that any read can make the caller pause, in microseconds: one
/// tick more, which is spent when the very last wait is not answered at all.
pub const LONGEST_PAUSE_US: u32 = LONGEST_ANSWERED_PAUSE_US + 1;

/// The most looks at the line that one bit can take.
pub const MOST_BIT_LOOKS: u32 = (BIT_START_TIMEOUT_US + 1) + (BIT_PULSE_TIMEOUT_US + 1);

/// The most looks at the line that a read can take.
pub const MOST_LOOKS: u32 = 2 * (ACK_TIMEOUT_US + 1) + 40 * MOST_BIT_LOOKS;

/// The microseconds for which an action makes the caller pause.
pub open spec fn pause_of(action: Action) -> nat {
    match action {
        Action::DelayUs(us) => us as nat,
        _ => 0,
    }
}

/// Whether an action is a look at the line.
pub open spec fn is_look(action: Action) -> bool {
    action == Action::IsHigh || action == Action::IsLow
}

/// The microseconds for which `actions` make the caller pause, all in all.
pub open spec fn paused(actions: Seq<Action>) -> nat
    decreases actions.len(),
{
    if actions.len() == 0 {
        0
    } else {
        pause_of(actions[0]) + paused(actions.skip(1))
    }
}

/// The number of looks at the line among `actions`.
pub open spec fn looks(actions: Seq<Action>) -> nat
    decreases actions.len(),
{
    if actions.len() == 0 {
        0
    } else {
        (if is_look(actions[0]) {
            1nat
        } else {
            0nat
        }) + looks(actions.skip(1))
    }
}

/// The longest pause that can follow once the wait for the level of `stage`
/// during bit `bit` has been answered, counting the one tick more that is
/// spent when the last wait is not answered.
pub open spec fn longest_pause_after(stage: Stage, bit: nat) -> int {
    match stage {
        Stage::AckHigh => ACK_TIMEOUT_US + 40 * LONGEST_BIT_PAUSE_US + 1,
        Stage::AckLow => 40 * LONGEST_BIT_PAUSE_US + 1,
        Stage::BitHigh => BIT_PULSE_TIMEOUT_US + (39 - bit) * LONGEST_BIT_PAUSE_US + 1,
        Stage::BitLow => (39 - bit) * LONGEST_BIT_PAUSE_US + 1,
    }
}

/// The longest that the caller can still be made to pause in `state`.
pub open spec fn longest_pause_left<HE>(state: State<HE>) -> int {
    let waits = ACK_TIMEOUT_US + longest_pause_after(Stage::AckHigh, 0);
    match state.phase {
        Phase::Suspend | Phase::WakeDrive | Phase::WakeHold => WAKE_HOLD_US + REQUEST_HOLD_US
            + waits,
        Phase::RequestDrive | Phase::RequestHold => REQUEST_HOLD_US + waits,
        Phase::Poll | Phase::Tick => state.stage.timeout() - state.elapsed + longest_pause_after(
            state.stage,
            state.bit,
        ),
        Phase::Resume(_) => 0,
    }
}

/// The most looks that can follow once the wait for the level of `stage`
/// during bit `bit` is over.
pub open spec fn most_looks_after(stage: Stage, bit: nat) -> int {
    match stage {
        Stage::AckHigh => ACK_TIMEOUT_US + 1 + 40 * MOST_BIT_LOOKS,
        Stage::AckLow => 40 * MOST_BIT_LOOKS,
        Stage::BitHigh => BIT_PULSE_TIMEOUT_US + 1 + (39 - bit) * MOST_BIT_LOOKS,
        Stage::BitLow => (39 - bit) * MOST_BIT_LOOKS,
    }
}

/// The most looks at the line that are still to come in `state`.
pub open spec fn most_looks_left<HE>(state: State<HE>) -> int {
    match state.phase {
        Phase::Poll => state.stage.timeout() - state.elapsed + 1 + most_looks_after(
            state.stage,
            state.bit,
        ),
        Phase::Tick => state.stage.timeout() - state.elapsed + most_looks_after(
            state.stage,
            state.bit,
        ),
        Phase::Resume(_) => 0,
        _ => ACK_TIMEOUT_US + 1 + most_looks_after(Stage::AckHigh, 0),
    }
}

/// Every action uses up what it costs of the pauses and looks that are left,
/// and a read on its way to a reading never spends the last tick.
pub proof fn law_step_uses_time<HE>(state: State<HE>, outcome: Result<bool, HE>)
    requires
        state.wf(),
    ensures
        longest_pause_left(state) >= pause_of(state.action()),
        most_looks_left(state) >= 0,
        state.next(outcome) matches Progress::Running(then) ==> {
            &&& pause_of(state.action()) + longest_pause_left(then) <= longest_pause_left(state)
            &&& (if is_look(state.action()) {
                1int
            } else {
                0int
            }) + most_looks_left(then) <= most_looks_left(state)
            &&& (then.phase matches Phase::Resume(Ok(_)) ==> pause_of(state.action()) + 1
                <= longest_pause_left(state))
        },
        state.next(outcome) is Finished ==> pause_of(state.action()) == 0 && !is_look(
            state.action(),
        ),
{
    assert(LONGEST_BIT_PAUSE_US == 125);
    assert(MOST_BIT_LOOKS == 127);
}

proof fn lemma_time<HE>(state: State<HE>, outcomes: Seq<Result<bool, HE>>)
    requires
        state.wf(),
    ensures
        paused(actions(state, outcomes)) <= longest_pause_left(state),
        looks(actions(state, outcomes)) <= most_looks_left(state),
        (run(state, outcomes) matches Progress::Finished(Ok(_))) && !(state.phase is Resume)
            ==> paused(actions(state, outcomes)) + 1 <= longest_pause_left(state),
    decreases outcomes.len(),
{
    let done = actions(state, outcomes);
    if outcomes.len() > 0 {
        law_step_uses_time(state, outcomes[0]);
        assert(done[0] == state.action());
        match state.next(outcomes[0]) {
            Progress::Finished(_) => {
                assert(done =~= seq![state.action()]);
                assert(done.skip(1).len() == 0);
                assert(paused(done.skip(1)) == 0);
                assert(looks(done.skip(1)) == 0);
            },
            Progress::Running(then) => {
                let rest = outcomes.skip(1);
                let later = actions(then, rest);
                lemma_time(then, rest);
                assert(done =~= seq![state.action()] + later);
                assert(done.skip(1) =~= later);
                assert(paused(done) == pause_of(state.action()) + paused(later));
                assert(looks(done) == (if is_look(state.action()) {
                    1nat
                } else {
                    0nat
                }) + looks(later));
                if then.phase is Resume && rest.len() > 0 {
                    law_step_uses_time(then, rest[0]);
                }
            },
        }
    } else {
        law_step_uses_time(state, Ok(true));
    }
}

/// No read takes long. Whatever the pin answers, the pauses of a read add up
/// to at most [`LONGEST_PAUSE_US`], the line is looked at no more than
/// [`MOST_LOOKS`] times, and a read that yields a reading has paused for at
/// most [`LONGEST_ANSWERED_PAUSE_US`].
pub proof fn law_read_time<HE>(variant: Variant, outcomes: Seq<Result<bool, HE>>)
    ensures
        paused(actions(State::<HE>::start(variant), outcomes)) <= LONGEST_PAUSE_US,
        LONGEST_PAUSE_US == 8196,
        looks(actions(State::<HE>::start(variant), outcomes)) <= MOST_LOOKS,
        MOST_LOOKS == 5252,
        (run(State::<HE>::start(variant), outcomes) matches Progress::Finished(Ok(_))) ==> paused(
            actions(State::<HE>::start(variant), outcomes),
        ) <= LONGEST_ANSWERED_PAUSE_US,
        LONGEST_ANSWERED_PAUSE_US == 8195,
{
    lemma_time(State::<HE>::start(variant), outcomes);
    assert(LONGEST_BIT_PAUSE_US == 125);
    assert(MOST_BIT_LOOKS == 127);
}

} // verus!
