# jetsongpio

Control of the GPIO pins of NVIDIA Jetson boards, with the bookkeeping and
the decisions proved correct by Verus.

- `src/` — the verified library.
  - `gpio_pin_data` — pin definitions, the channel table of each numbering
    mode, and the pieces of model detection (compatible strings, module
    revisions, board ids).
  - `gpio` — the GPIO state: numbering mode, channel lookup, setup, cleanup,
    input, output and PWM claims. Operations that touch the device return
    what has to be done on it, and take back what it answered.
  - `gpio_cdev` — the character-device request structures and the pinmux
    register decoding.
  - `gpio_event` — edge flags, debouncing, the decisions on each read of an
    event line, and the registry of channels with edge detection.
  - `gpio_laws` — properties that span several operations.
  - `cli` — the computations of the command-line tool.
- `app/` — the `jetsongpio` command-line tool: device I/O, threads, sysfs PWM.
- `tests/` — tests of the library.
