//! The board's boot sequence: which hardware step comes when, which of them
//! are announced on the debug queue, and what happens when a step fails.
//! The steps themselves touch the hardware and are carried out by the caller.
use crate::debug_message::{debug_message_from_str, enqueue_debug_message, padded_message, DebugQueue};
use vstd::prelude::*;

verus! {

/// What claiming the one-time initialization does to the flag `initialized`:
/// whether the claim succeeds, and the flag afterwards.
pub open spec fn claim_outcome(initialized: bool) -> (bool, bool) {
    (!initialized, true)
}

/// Claims the one-time initialization of the board: succeeds, and sets the
/// flag, only when it was not set before.
pub fn claim_initialization(initialized: &mut bool) -> (claimed: bool)
    ensures
        (claimed, *final(initialized)) == claim_outcome(*old(initialized)),
{
    if *initialized {
        false
    } else {
        *initialized = true;
        true
    }
}

/// The board is initialized at most once: a claim on a fresh flag succeeds,
/// and every claim after any claim is refused.
pub proof fn lemma_initialized_at_most_once(initialized: bool)
    ensures
        claim_outcome(false).0,
        !claim_outcome(claim_outcome(initialized).1).0,
{
}

/// How handing heap memory of `heap_len` bytes to the allocator goes: empty
/// memory fails the step, before the allocator is touched.
pub fn heap_outcome(heap_len: usize) -> (outcome: StepOutcome)
    ensures
        outcome == (if heap_len == 0 {
            StepOutcome::Failed
        } else {
            StepOutcome::Completed
        }),
{
    if heap_len == 0 {
        StepOutcome::Failed
    } else {
        StepOutcome::Completed
    }
}

/// The board's drivers, in the order in which they are brought up.
#[derive(Clone, Copy, Debug, PartialEq, Eq, Structural)]
pub enum Driver {
    Uart,
    Rtc,
    Twi,
    Mpu,
    Barometer,
    Battery,
    Flash,
    Motor,
    Radio,
}

/// Whether the radio is set up to send or to receive.
#[derive(Clone, Copy, Debug, PartialEq, Eq, Structural)]
pub enum RadioRole {
    Sender,
    Reader,
}

/// One step of the boot sequence.
#[derive(Clone, Copy, Debug, PartialEq, Eq, Structural)]
pub enum BootStep {
    /// Wait long enough for the host computer to listen.
    WaitForHost,
    /// Claim the one-time initialization (see `claim_initialization`).
    ClaimInitialization,
    /// Take the device and core peripherals.
    TakePeripherals,
    /// Hand the heap memory to the allocator; fails on empty memory.
    InitHeap,
    /// Bring up the leds.
    InitLeds,
    /// Switch the yellow led on: initialization is under way.
    YellowLedOn,
    /// Bring up a driver other than the radio.
    InitDriver(Driver),
    /// Bring up the radio in the given role.
    InitRadio(RadioRole),
    /// Report over UART that a driver is up; its message is queued already.
    /// Whether the report could be sent does not matter to the boot.
    Announce(Driver),
    /// Switch the yellow led off: initialization is done.
    YellowLedOff,
}

/// How the step that was handed out last went.
#[derive(Clone, Copy, Debug, PartialEq, Eq, Structural)]
pub enum StepOutcome {
    Completed,
    Failed,
}

/// What the caller is to do next.
#[derive(Clone, Copy, Debug, PartialEq, Eq, Structural)]
pub enum BootAction {
    /// Carry out this step, then report how it went.
    Perform(BootStep),
    /// This step failed: the boot cannot go on.
    Abort(BootStep),
    /// Every step is done.
    Finished,
}

/// The role of the radio for a board that sends or not.
pub open spec fn radio_role(is_sender: bool) -> RadioRole {
    if is_sender {
        RadioRole::Sender
    } else {
        RadioRole::Reader
    }
}

/// Bringing up `driver`, announced when `debug` is on.
pub open spec fn driver_steps(driver: Driver, debug: bool) -> Seq<BootStep> {
    if debug {
        seq![BootStep::InitDriver(driver), BootStep::Announce(driver)]
    } else {
        seq![BootStep::InitDriver(driver)]
    }
}

/// Bringing up the radio, announced when `debug` is on.
pub open spec fn radio_steps(is_sender: bool, debug: bool) -> Seq<BootStep> {
    if debug {
        seq![BootStep::InitRadio(radio_role(is_sender)), BootStep::Announce(Driver::Radio)]
    } else {
        seq![BootStep::InitRadio(radio_role(is_sender))]
    }
}

/// The opening steps of every boot sequence, before any driver comes up.
pub open spec fn opening_steps() -> Seq<BootStep> {
    seq![
        BootStep::WaitForHost,
        BootStep::ClaimInitialization,
        BootStep::TakePeripherals,
        BootStep::InitHeap,
        BootStep::InitLeds,
        BootStep::YellowLedOn,
    ]
}

/// The steps of the boot sequence, in order.
pub open spec fn boot_plan(debug: bool, is_sender: bool) -> Seq<BootStep> {
    opening_steps() + driver_steps(Driver::Uart, debug) + driver_steps(Driver::Rtc, debug)
        + driver_steps(Driver::Twi, debug) + driver_steps(Driver::Mpu, debug) + driver_steps(
        Driver::Barometer,
        debug,
    ) + driver_steps(Driver::Battery, debug) + driver_steps(Driver::Flash, debug) + driver_steps(
        Driver::Motor,
        debug,
    ) + radio_steps(is_sender, debug) + seq![BootStep::YellowLedOff]
}

/// The text that announces that `driver` is up.
pub open spec fn announcement(driver: Driver) -> Seq<char> {
    match driver {
        Driver::Uart => "UART driver initialized"@,
        Driver::Rtc => "RTC driver initialized"@,
        Driver::Twi => "TWI initialized"@,
        Driver::Mpu => "MPU driver initialized"@,
        Driver::Barometer => "Barometer driver initialized"@,
        Driver::Battery => "Battery driver initialized"@,
        Driver::Flash => "Flash driver initialized"@,
        Driver::Motor => "MOTOR driver initialized"@,
        Driver::Radio => "RADIO driver initialized"@,
    }
}

/// The debug message that announces that `driver` is up.
pub open spec fn announcement_message(driver: Driver) -> Seq<u8> {
    padded_message(vstd::utf8::encode_utf8(announcement(driver)))
}

/// The text that announces that `driver` is up.
pub fn announcement_text(driver: Driver) -> (text: &'static str)
    ensures
        text@ == announcement(driver),
{
    match driver {
        Driver::Uart => "UART driver initialized",
        Driver::Rtc => "RTC driver initialized",
        Driver::Twi => "TWI initialized",
        Driver::Mpu => "MPU driver initialized",
        Driver::Barometer => "Barometer driver initialized",
        Driver::Battery => "Battery driver initialized",
        Driver::Flash => "Flash driver initialized",
        Driver::Motor => "MOTOR driver initialized",
        Driver::Radio => "RADIO driver initialized",
    }
}

fn push_driver_steps(plan: &mut Vec<BootStep>, driver: Driver, debug: bool)
    ensures
        final(plan)@ == old(plan)@ + driver_steps(driver, debug),
{
    plan.push(BootStep::InitDriver(driver));
    if debug {
        plan.push(BootStep::Announce(driver));
    }
    assert(final(plan)@ =~= old(plan)@ + driver_steps(driver, debug));
}

fn push_radio_steps(plan: &mut Vec<BootStep>, is_sender: bool, debug: bool)
    ensures
        final(plan)@ == old(plan)@ + radio_steps(is_sender, debug),
{
    let role = if is_sender {
        RadioRole::Sender
    } else {
        RadioRole::Reader
    };
    plan.push(BootStep::InitRadio(role));
    if debug {
        plan.push(BootStep::Announce(Driver::Radio));
    }
    assert(final(plan)@ =~= old(plan)@ + radio_steps(is_sender, debug));
}

/// The progress of a boot sequence.
pub struct Boot {
    plan: Vec<BootStep>,
    next: usize,
    failed: Option<BootStep>,
}

impl Boot {
    /// The steps of this boot sequence.
    pub closed spec fn plan(&self) -> Seq<BootStep> {
        self.plan@
    }

    /// How many steps have been handed out.
    pub closed spec fn position(&self) -> nat {
        self.next as nat
    }

    /// The step that failed, if one did.
    pub closed spec fn failed_step(&self) -> Option<BootStep> {
        self.failed
    }

    /// No more steps are handed out than the plan has.
    #[verifier::type_invariant]
    spec fn wf(&self) -> bool {
        self.next <= self.plan@.len()
    }

    /// A boot sequence that has not started; `debug` announces each driver
    /// on the debug queue, `is_sender` sets the radio up to send.
    pub fn new(debug: bool, is_sender: bool) -> (boot: Boot)
        ensures
            boot.plan() == boot_plan(debug, is_sender),
            boot.position() == 0,
            boot.failed_step() is None,
    {
        let mut plan: Vec<BootStep> = Vec::new();
        plan.push(BootStep::WaitForHost);
        plan.push(BootStep::ClaimInitialization);
        plan.push(BootStep::TakePeripherals);
        plan.push(BootStep::InitHeap);
        plan.push(BootStep::InitLeds);
        plan.push(BootStep::YellowLedOn);
        assert(plan@ =~= opening_steps());
        push_driver_steps(&mut plan, Driver::Uart, debug);
        push_driver_steps(&mut plan, Driver::Rtc, debug);
        push_driver_steps(&mut plan, Driver::Twi, debug);
        push_driver_steps(&mut plan, Driver::Mpu, debug);
        push_driver_steps(&mut plan, Driver::Barometer, debug);
        push_driver_steps(&mut plan, Driver::Battery, debug);
        push_driver_steps(&mut plan, Driver::Flash, debug);
        push_driver_steps(&mut plan, Driver::Motor, debug);
        push_radio_steps(&mut plan, is_sender, debug);
        let ghost before_last = plan@;
        plan.push(BootStep::YellowLedOff);
        assert(plan@ =~= before_last + seq![BootStep::YellowLedOff]);
        Boot { plan, next: 0, failed: None }
    }

    /// Hands out what to do next, given how the step handed out last went.
    /// A failed step aborts the boot for good, but for an announcement: a
    /// report over UART that could not be sent does not stop the boot.
    /// Handing out an announcement queues its debug message.
    pub fn next_action(&mut self, queue: &mut DebugQueue, outcome: StepOutcome) -> (action:
        BootAction)
        ensures
            final(self).plan() == old(self).plan(),
            match old(self).failed_step() {
                Some(step) => {
                    &&& action == BootAction::Abort(step)
                    &&& *final(self) == *old(self)
                    &&& final(queue)@ == old(queue)@
                },
                None => if outcome == StepOutcome::Failed && old(self).position() > 0
                    && !(old(self).plan()[old(self).position() - 1] is Announce) {
                    let step = old(self).plan()[old(self).position() - 1];
                    &&& action == BootAction::Abort(step)
                    &&& final(self).failed_step() == Some(step)
                    &&& final(self).position() == old(self).position()
                    &&& final(queue)@ == old(queue)@
                } else if old(self).position() < old(self).plan().len() {
                    let step = old(self).plan()[old(self).position() as int];
                    &&& action == BootAction::Perform(step)
                    &&& final(self).failed_step() is None
                    &&& final(self).position() == old(self).position() + 1
                    &&& match step {
                        BootStep::Announce(driver) => {
                            &&& final(queue)@.len() == old(queue)@.len() + 1
                            &&& final(queue)@.drop_last() == old(queue)@
                            &&& final(queue)@.last()@ == announcement_message(driver)
                        },
                        _ => final(queue)@ == old(queue)@,
                    }
                } else {
                    &&& action == BootAction::Finished
                    &&& *final(self) == *old(self)
                    &&& final(queue)@ == old(queue)@
                },
            },
    {
        proof {
            use_type_invariant(&*self);
        }
        if let Some(step) = self.failed {
            return BootAction::Abort(step);
        }
        if self.next > 0 && outcome == StepOutcome::Failed {
            let step = self.plan[self.next - 1];
            if !matches!(step, BootStep::Announce(_)) {
                self.failed = Some(step);
                return BootAction::Abort(step);
            }
        }
        if self.next < self.plan.len() {
            let step = self.plan[self.next];
            self.next = self.next + 1;
            if let BootStep::Announce(driver) = step {
                let message = debug_message_from_str(announcement_text(driver));
                enqueue_debug_message(queue, message);
                assert(final(queue)@.drop_last() =~= old(queue)@);
            }
            BootAction::Perform(step)
        } else {
            BootAction::Finished
        }
    }
}

/// Whether `step` brings up a driver.
pub open spec fn is_initialization(step: BootStep) -> bool {
    step is InitDriver || step is InitRadio
}

/// Whether `step` announces a driver.
pub open spec fn is_announcement(step: BootStep) -> bool {
    step is Announce
}

/// Whether `step` brings up `driver`.
pub open spec fn brings_up(step: BootStep, driver: Driver) -> bool {
    match step {
        BootStep::InitDriver(d) => d == driver && driver != Driver::Radio,
        BootStep::InitRadio(_) => driver == Driver::Radio,
        _ => false,
    }
}

/// The steps that bring up drivers, in the order in which they are due.
pub open spec fn initialization_order(is_sender: bool) -> Seq<BootStep> {
    seq![
        BootStep::InitDriver(Driver::Uart),
        BootStep::InitDriver(Driver::Rtc),
        BootStep::InitDriver(Driver::Twi),
        BootStep::InitDriver(Driver::Mpu),
        BootStep::InitDriver(Driver::Barometer),
        BootStep::InitDriver(Driver::Battery),
        BootStep::InitDriver(Driver::Flash),
        BootStep::InitDriver(Driver::Motor),
        BootStep::InitRadio(radio_role(is_sender)),
    ]
}

/// The announcements of a sequence with `debug` on, in order.
pub open spec fn announcement_order() -> Seq<BootStep> {
    seq![
        BootStep::Announce(Driver::Uart),
        BootStep::Announce(Driver::Rtc),
        BootStep::Announce(Driver::Twi),
        BootStep::Announce(Driver::Mpu),
        BootStep::Announce(Driver::Barometer),
        BootStep::Announce(Driver::Battery),
        BootStep::Announce(Driver::Flash),
        BootStep::Announce(Driver::Motor),
        BootStep::Announce(Driver::Radio),
    ]
}

/// The boot sequence with `debug` off, written out.
pub open spec fn quiet_plan(is_sender: bool) -> Seq<BootStep> {
    seq![
        BootStep::WaitForHost,
        BootStep::ClaimInitialization,
        BootStep::TakePeripherals,
        BootStep::InitHeap,
        BootStep::InitLeds,
        BootStep::YellowLedOn,
        BootStep::InitDriver(Driver::Uart),
        BootStep::InitDriver(Driver::Rtc),
        BootStep::InitDriver(Driver::Twi),
        BootStep::InitDriver(Driver::Mpu),
        BootStep::InitDriver(Driver::Barometer),
        BootStep::InitDriver(Driver::Battery),
        BootStep::InitDriver(Driver::Flash),
        BootStep::InitDriver(Driver::Motor),
        BootStep::InitRadio(radio_role(is_sender)),
        BootStep::YellowLedOff,
    ]
}

/// The boot sequence with `debug` on, written out.
pub open spec fn announced_plan(is_sender: bool) -> Seq<BootStep> {
    seq![
        BootStep::WaitForHost,
        BootStep::ClaimInitialization,
        BootStep::TakePeripherals,
        BootStep::InitHeap,
        BootStep::InitLeds,
        BootStep::YellowLedOn,
        BootStep::InitDriver(Driver::Uart),
        BootStep::Announce(Driver::Uart),
        BootStep::InitDriver(Driver::Rtc),
        BootStep::Announce(Driver::Rtc),
        BootStep::InitDriver(Driver::Twi),
        BootStep::Announce(Driver::Twi),
        BootStep::InitDriver(Driver::Mpu),
        BootStep::Announce(Driver::Mpu),
        BootStep::InitDriver(Driver::Barometer),
        BootStep::Announce(Driver::Barometer),
        BootStep::InitDriver(Driver::Battery),
        BootStep::Announce(Driver::Battery),
        BootStep::InitDriver(Driver::Flash),
        BootStep::Announce(Driver::Flash),
        BootStep::InitDriver(Driver::Motor),
        BootStep::Announce(Driver::Motor),
        BootStep::InitRadio(radio_role(is_sender)),
        BootStep::Announce(Driver::Radio),
        BootStep::YellowLedOff,
    ]
}

proof fn lemma_plan_written_out(debug: bool, is_sender: bool)
    ensures
        boot_plan(debug, is_sender) == if debug {
            announced_plan(is_sender)
        } else {
            quiet_plan(is_sender)
        },
{
    if debug {
        assert(boot_plan(debug, is_sender) =~= announced_plan(is_sender));
    } else {
        assert(boot_plan(debug, is_sender) =~= quiet_plan(is_sender));
    }
}

proof fn lemma_filter_boot_plan(debug: bool, is_sender: bool, pred: spec_fn(BootStep) -> bool)
    ensures
        boot_plan(debug, is_sender).filter(pred) == opening_steps().filter(pred) + driver_steps(
            Driver::Uart,
            debug,
        ).filter(pred) + driver_steps(Driver::Rtc, debug).filter(pred) + driver_steps(
            Driver::Twi,
            debug,
        ).filter(pred) + driver_steps(Driver::Mpu, debug).filter(pred) + driver_steps(
            Driver::Barometer,
            debug,
        ).filter(pred) + driver_steps(Driver::Battery, debug).filter(pred) + driver_steps(
            Driver::Flash,
            debug,
        ).filter(pred) + driver_steps(Driver::Motor, debug).filter(pred) + radio_steps(
            is_sender,
            debug,
        ).filter(pred) + seq![BootStep::YellowLedOff].filter(pred),
{
    let p0 = opening_steps();
    let p1 = p0 + driver_steps(Driver::Uart, debug);
    let p2 = p1 + driver_steps(Driver::Rtc, debug);
    let p3 = p2 + driver_steps(Driver::Twi, debug);
    let p4 = p3 + driver_steps(Driver::Mpu, debug);
    let p5 = p4 + driver_steps(Driver::Barometer, debug);
    let p6 = p5 + driver_steps(Driver::Battery, debug);
    let p7 = p6 + driver_steps(Driver::Flash, debug);
    let p8 = p7 + driver_steps(Driver::Motor, debug);
    let p9 = p8 + radio_steps(is_sender, debug);
    Seq::filter_distributes_over_add(p0, driver_steps(Driver::Uart, debug), pred);
    Seq::filter_distributes_over_add(p1, driver_steps(Driver::Rtc, debug), pred);
    Seq::filter_distributes_over_add(p2, driver_steps(Driver::Twi, debug), pred);
    Seq::filter_distributes_over_add(p3, driver_steps(Driver::Mpu, debug), pred);
    Seq::filter_distributes_over_add(p4, driver_steps(Driver::Barometer, debug), pred);
    Seq::filter_distributes_over_add(p5, driver_steps(Driver::Battery, debug), pred);
    Seq::filter_distributes_over_add(p6, driver_steps(Driver::Flash, debug), pred);
    Seq::filter_distributes_over_add(p7, driver_steps(Driver::Motor, debug), pred);
    Seq::filter_distributes_over_add(p8, radio_steps(is_sender, debug), pred);
    Seq::filter_distributes_over_add(p9, seq![BootStep::YellowLedOff], pred);
    assert(boot_plan(debug, is_sender) == p9 + seq![BootStep::YellowLedOff]);
}

/// The steps of `plan` that bring up drivers, in order.
pub open spec fn initializations(plan: Seq<BootStep>) -> Seq<BootStep> {
    plan.filter(|step: BootStep| is_initialization(step))
}

/// The announcements of `plan`, in order.
pub open spec fn announcements(plan: Seq<BootStep>) -> Seq<BootStep> {
    plan.filter(|step: BootStep| is_announcement(step))
}

/// `plan` without its announcements.
pub open spec fn without_announcements(plan: Seq<BootStep>) -> Seq<BootStep> {
    plan.filter(|step: BootStep| !is_announcement(step))
}

proof fn lemma_initialization_pieces(debug: bool, is_sender: bool, driver: Driver)
    ensures
        initializations(driver_steps(driver, debug)) == seq![BootStep::InitDriver(driver)],
        initializations(radio_steps(is_sender, debug)) == seq![
            BootStep::InitRadio(radio_role(is_sender))
        ],
        initializations(seq![BootStep::YellowLedOff]) == Seq::<BootStep>::empty(),
        initializations(opening_steps()) == Seq::<BootStep>::empty(),
{
    reveal_with_fuel(Seq::filter, 7);
    assert(initializations(driver_steps(driver, debug)) =~= seq![BootStep::InitDriver(driver)]);
    assert(initializations(radio_steps(is_sender, debug)) =~= seq![
        BootStep::InitRadio(radio_role(is_sender))
    ]);
    assert(initializations(seq![BootStep::YellowLedOff]) =~= Seq::<BootStep>::empty());
    assert(initializations(opening_steps()) =~= Seq::<BootStep>::empty());
}

proof fn lemma_announcement_pieces(debug: bool, is_sender: bool, driver: Driver)
    ensures
        announcements(driver_steps(driver, debug)) == if debug {
            seq![BootStep::Announce(driver)]
        } else {
            Seq::<BootStep>::empty()
        },
        announcements(radio_steps(is_sender, debug)) == if debug {
            seq![BootStep::Announce(Driver::Radio)]
        } else {
            Seq::<BootStep>::empty()
        },
        announcements(seq![BootStep::YellowLedOff]) == Seq::<BootStep>::empty(),
        announcements(opening_steps()) == Seq::<BootStep>::empty(),
{
    reveal_with_fuel(Seq::filter, 7);
    assert(announcements(driver_steps(driver, debug)) =~= if debug {
        seq![BootStep::Announce(driver)]
    } else {
        Seq::<BootStep>::empty()
    });
    assert(announcements(radio_steps(is_sender, debug)) =~= if debug {
        seq![BootStep::Announce(Driver::Radio)]
    } else {
        Seq::<BootStep>::empty()
    });
    assert(announcements(seq![BootStep::YellowLedOff]) =~= Seq::<BootStep>::empty());
    assert(announcements(opening_steps()) =~= Seq::<BootStep>::empty());
}

proof fn lemma_quiet_pieces(debug: bool, is_sender: bool, driver: Driver)
    ensures
        without_announcements(driver_steps(driver, debug)) == seq![BootStep::InitDriver(driver)],
        without_announcements(radio_steps(is_sender, debug)) == seq![
            BootStep::InitRadio(radio_role(is_sender))
        ],
        without_announcements(seq![BootStep::YellowLedOff]) == seq![BootStep::YellowLedOff],
        without_announcements(opening_steps()) == opening_steps(),
{
    reveal_with_fuel(Seq::filter, 7);
    assert(without_announcements(driver_steps(driver, debug)) =~= seq![
        BootStep::InitDriver(driver)
    ]);
    assert(without_announcements(radio_steps(is_sender, debug)) =~= seq![
        BootStep::InitRadio(radio_role(is_sender))
    ]);
    assert(without_announcements(seq![BootStep::YellowLedOff]) =~= seq![BootStep::YellowLedOff]);
    assert(without_announcements(opening_steps()) =~= opening_steps());
}

/// Each driver is brought up exactly once, and in a fixed order: UART, RTC,
/// TWI, MPU, barometer, battery, flash, motors, then the radio in the role
/// that `is_sender` selects; announcing drivers changes none of this.
pub proof fn lemma_drivers_come_up_once_in_order(debug: bool, is_sender: bool)
    ensures
        initializations(boot_plan(debug, is_sender)) == initialization_order(is_sender),
{
    lemma_initialization_pieces(debug, is_sender, Driver::Uart);
    lemma_initialization_pieces(debug, is_sender, Driver::Rtc);
    lemma_initialization_pieces(debug, is_sender, Driver::Twi);
    lemma_initialization_pieces(debug, is_sender, Driver::Mpu);
    lemma_initialization_pieces(debug, is_sender, Driver::Barometer);
    lemma_initialization_pieces(debug, is_sender, Driver::Battery);
    lemma_initialization_pieces(debug, is_sender, Driver::Flash);
    lemma_initialization_pieces(debug, is_sender, Driver::Motor);
    lemma_filter_boot_plan(debug, is_sender, |step: BootStep| is_initialization(step));
    assert(initializations(boot_plan(debug, is_sender)) =~= initialization_order(is_sender));
}

/// With `debug` on, every driver is announced once, in the order in which
/// they come up; with `debug` off, nothing is announced.
pub proof fn lemma_announced_only_when_debug(debug: bool, is_sender: bool)
    ensures
        announcements(boot_plan(debug, is_sender)) == if debug {
            announcement_order()
        } else {
            Seq::<BootStep>::empty()
        },
{
    lemma_announcement_pieces(debug, is_sender, Driver::Uart);
    lemma_announcement_pieces(debug, is_sender, Driver::Rtc);
    lemma_announcement_pieces(debug, is_sender, Driver::Twi);
    lemma_announcement_pieces(debug, is_sender, Driver::Mpu);
    lemma_announcement_pieces(debug, is_sender, Driver::Barometer);
    lemma_announcement_pieces(debug, is_sender, Driver::Battery);
    lemma_announcement_pieces(debug, is_sender, Driver::Flash);
    lemma_announcement_pieces(debug, is_sender, Driver::Motor);
    lemma_filter_boot_plan(debug, is_sender, |step: BootStep| is_announcement(step));
    assert(announcements(boot_plan(debug, is_sender)) =~= if debug {
        announcement_order()
    } else {
        Seq::<BootStep>::empty()
    });
}

/// Announcing drivers adds nothing but the announcements: without them, the
/// sequence is the same whether `debug` is on or off.
pub proof fn lemma_debug_adds_only_announcements(debug: bool, is_sender: bool)
    ensures
        without_announcements(boot_plan(debug, is_sender)) == boot_plan(false, is_sender),
{
    lemma_quiet_pieces(debug, is_sender, Driver::Uart);
    lemma_quiet_pieces(debug, is_sender, Driver::Rtc);
    lemma_quiet_pieces(debug, is_sender, Driver::Twi);
    lemma_quiet_pieces(debug, is_sender, Driver::Mpu);
    lemma_quiet_pieces(debug, is_sender, Driver::Barometer);
    lemma_quiet_pieces(debug, is_sender, Driver::Battery);
    lemma_quiet_pieces(debug, is_sender, Driver::Flash);
    lemma_quiet_pieces(debug, is_sender, Driver::Motor);
    lemma_filter_boot_plan(debug, is_sender, |step: BootStep| !is_announcement(step));
    lemma_plan_written_out(false, is_sender);
    assert(without_announcements(boot_plan(debug, is_sender)) =~= quiet_plan(is_sender));
}

/// Every sequence opens the same way: wait for the host, claim the one-time
/// initialization, take the peripherals, set up the heap and the leds, and
/// light the yellow led. It ends by switching the yellow led off, and every
/// driver is brought up and announced while the yellow led is lit.
pub proof fn lemma_boot_frame(debug: bool, is_sender: bool)
    ensures
        boot_plan(debug, is_sender).subrange(0, 6) == opening_steps(),
        boot_plan(debug, is_sender).last() == BootStep::YellowLedOff,
        forall|i: int|
            0 <= i < boot_plan(debug, is_sender).len() && (is_initialization(
                #[trigger] boot_plan(debug, is_sender)[i],
            ) || is_announcement(boot_plan(debug, is_sender)[i])) ==> 6 <= i
                < boot_plan(debug, is_sender).len() - 1,
{
    lemma_plan_written_out(debug, is_sender);
    assert(boot_plan(debug, is_sender).subrange(0, 6) =~= opening_steps());
}

/// Each announcement comes right after the step that brings its driver up.
pub proof fn lemma_announcement_follows_bring_up(debug: bool, is_sender: bool)
    ensures
        forall|i: int|
            0 <= i < boot_plan(debug, is_sender).len() && #[trigger] boot_plan(
                debug,
                is_sender,
            )[i] is Announce ==> i >= 1 && brings_up(
                boot_plan(debug, is_sender)[i - 1],
                boot_plan(debug, is_sender)[i]->Announce_0,
            ),
{
    lemma_plan_written_out(debug, is_sender);
}

} // verus!
