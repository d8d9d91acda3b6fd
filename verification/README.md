# quadrupel

Support library for the quadrupel drone board (nRF51), written in Verus.

- `src/` is the verified library:
  - `debug_message`: 32-byte debug messages built from strings or bytes, and
    the first-in, first-out queue that holds them;
  - `radio`: the "Radio State: N" debug report;
  - `initialize`: the one-time initialization claim and the boot sequence, a
    state machine that hands out the hardware steps in order, announces each
    driver on the debug queue when asked to, and aborts on a failed step
    (a report over UART that could not be sent excepted).
- `app/` is the hardware side: the global debug queue, the radio register
  set-up and its TIMER0 interrupt, and the loop that performs each boot step
  on the peripherals.
- `tests/` exercises the library on concrete values.
