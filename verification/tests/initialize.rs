use quadrupel::debug_message::{debug_message_from_str, dequeue_debug_message, is_debug_queue_empty, DebugQueue};
use quadrupel::initialize::{
    announcement_text, claim_initialization, heap_outcome, Boot, BootAction, BootStep, Driver, RadioRole,
    StepOutcome,
};

const DRIVERS: [Driver; 8] = [
    Driver::Uart,
    Driver::Rtc,
    Driver::Twi,
    Driver::Mpu,
    Driver::Barometer,
    Driver::Battery,
    Driver::Flash,
    Driver::Motor,
];

fn run_to_end(boot: &mut Boot, queue: &mut DebugQueue) -> Vec<BootStep> {
    let mut steps = Vec::new();
    loop {
        match boot.next_action(queue, StepOutcome::Completed) {
            BootAction::Perform(step) => steps.push(step),
            BootAction::Finished => return steps,
            BootAction::Abort(step) => panic!("unexpected abort at {:?}", step),
        }
    }
}

fn opening() -> Vec<BootStep> {
    vec![
        BootStep::WaitForHost,
        BootStep::ClaimInitialization,
        BootStep::TakePeripherals,
        BootStep::InitHeap,
        BootStep::InitLeds,
        BootStep::YellowLedOn,
    ]
}

#[test]
fn claim_initialization_succeeds_once() {
    let mut initialized = false;
    assert!(claim_initialization(&mut initialized));
    assert!(initialized);
    assert!(!claim_initialization(&mut initialized));
    assert!(initialized);
    assert!(!claim_initialization(&mut initialized));
}

#[test]
fn quiet_boot_of_a_reader() {
    let mut queue = DebugQueue::new();
    let mut boot = Boot::new(false, false);
    let steps = run_to_end(&mut boot, &mut queue);
    let mut expected = opening();
    for d in DRIVERS {
        expected.push(BootStep::InitDriver(d));
    }
    expected.push(BootStep::InitRadio(RadioRole::Reader));
    expected.push(BootStep::YellowLedOff);
    assert_eq!(steps, expected);
    assert!(is_debug_queue_empty(&queue));
}

#[test]
fn announced_boot_of_a_sender() {
    let mut queue = DebugQueue::new();
    let mut boot = Boot::new(true, true);
    let steps = run_to_end(&mut boot, &mut queue);
    let mut expected = opening();
    for d in DRIVERS {
        expected.push(BootStep::InitDriver(d));
        expected.push(BootStep::Announce(d));
    }
    expected.push(BootStep::InitRadio(RadioRole::Sender));
    expected.push(BootStep::Announce(Driver::Radio));
    expected.push(BootStep::YellowLedOff);
    assert_eq!(steps, expected);

    let texts = [
        "UART driver initialized",
        "RTC driver initialized",
        "TWI initialized",
        "MPU driver initialized",
        "Barometer driver initialized",
        "Battery driver initialized",
        "Flash driver initialized",
        "MOTOR driver initialized",
        "RADIO driver initialized",
    ];
    for text in texts {
        assert_eq!(dequeue_debug_message(&mut queue), Some(debug_message_from_str(text)));
    }
    assert!(is_debug_queue_empty(&queue));
}

#[test]
fn finished_boot_stays_finished() {
    let mut queue = DebugQueue::new();
    let mut boot = Boot::new(false, true);
    run_to_end(&mut boot, &mut queue);
    assert_eq!(boot.next_action(&mut queue, StepOutcome::Completed), BootAction::Finished);
    assert_eq!(boot.next_action(&mut queue, StepOutcome::Completed), BootAction::Finished);
}

#[test]
fn failed_claim_aborts_for_good() {
    let mut queue = DebugQueue::new();
    let mut boot = Boot::new(true, false);
    assert_eq!(
        boot.next_action(&mut queue, StepOutcome::Completed),
        BootAction::Perform(BootStep::WaitForHost)
    );
    assert_eq!(
        boot.next_action(&mut queue, StepOutcome::Completed),
        BootAction::Perform(BootStep::ClaimInitialization)
    );
    assert_eq!(
        boot.next_action(&mut queue, StepOutcome::Failed),
        BootAction::Abort(BootStep::ClaimInitialization)
    );
    assert_eq!(
        boot.next_action(&mut queue, StepOutcome::Completed),
        BootAction::Abort(BootStep::ClaimInitialization)
    );
    assert!(is_debug_queue_empty(&queue));
}

#[test]
fn failed_flash_aborts_before_its_announcement() {
    let mut queue = DebugQueue::new();
    let mut boot = Boot::new(true, false);
    let mut last = BootAction::Finished;
    loop {
        let action = boot.next_action(&mut queue, StepOutcome::Completed);
        if action == BootAction::Perform(BootStep::InitDriver(Driver::Flash)) {
            last = action;
            break;
        }
    }
    assert_eq!(last, BootAction::Perform(BootStep::InitDriver(Driver::Flash)));
    assert_eq!(
        boot.next_action(&mut queue, StepOutcome::Failed),
        BootAction::Abort(BootStep::InitDriver(Driver::Flash))
    );
    let mut count = 0;
    while dequeue_debug_message(&mut queue).is_some() {
        count += 1;
    }
    assert_eq!(count, 6);
}

#[test]
fn failure_reported_before_any_step_is_ignored() {
    let mut queue = DebugQueue::new();
    let mut boot = Boot::new(false, false);
    assert_eq!(
        boot.next_action(&mut queue, StepOutcome::Failed),
        BootAction::Perform(BootStep::WaitForHost)
    );
}

#[test]
fn announcement_texts() {
    assert_eq!(announcement_text(Driver::Uart), "UART driver initialized");
    assert_eq!(announcement_text(Driver::Twi), "TWI initialized");
    assert_eq!(announcement_text(Driver::Radio), "RADIO driver initialized");
}

#[test]
fn empty_heap_fails_its_step() {
    assert_eq!(heap_outcome(0), StepOutcome::Failed);
    assert_eq!(heap_outcome(1), StepOutcome::Completed);
    assert_eq!(heap_outcome(4096), StepOutcome::Completed);
}

#[test]
fn failed_heap_aborts_before_any_driver() {
    let mut queue = DebugQueue::new();
    let mut boot = Boot::new(true, true);
    let mut performed = Vec::new();
    let mut outcome = StepOutcome::Completed;
    loop {
        match boot.next_action(&mut queue, outcome) {
            BootAction::Perform(step) => {
                performed.push(step);
                outcome = if step == BootStep::InitHeap { heap_outcome(0) } else { StepOutcome::Completed };
            }
            BootAction::Abort(step) => {
                assert_eq!(step, BootStep::InitHeap);
                break;
            }
            BootAction::Finished => panic!("boot finished on an empty heap"),
        }
    }
    assert_eq!(performed, opening()[..4].to_vec());
    assert!(is_debug_queue_empty(&queue));
}

#[test]
fn failed_announcement_does_not_stop_the_boot() {
    let mut queue = DebugQueue::new();
    let mut boot = Boot::new(true, false);
    let mut steps = Vec::new();
    let mut outcome = StepOutcome::Completed;
    loop {
        match boot.next_action(&mut queue, outcome) {
            BootAction::Perform(step) => {
                steps.push(step);
                outcome = if matches!(step, BootStep::Announce(_)) {
                    StepOutcome::Failed
                } else {
                    StepOutcome::Completed
                };
            }
            BootAction::Abort(step) => panic!("unexpected abort at {:?}", step),
            BootAction::Finished => break,
        }
    }
    assert_eq!(steps.last(), Some(&BootStep::YellowLedOff));
    assert_eq!(steps.len(), 25);
    let mut count = 0;
    while dequeue_debug_message(&mut queue).is_some() {
        count += 1;
    }
    assert_eq!(count, 9);
}
