# Flightpanel

The firmware of a flight panel with 16 push buttons, 14 double-throw switches, 6 rotary encoders
with push buttons and 8 axes, which a host sees as a joystick. Its logic is written and proved in
Verus.

## Layout

- `src/` is the verified library.
  - `expander`: the word of switch lines that the port expanders give, and the polling round.
  - `encoder`: quadrature decoding, and the pulses that wait to be reported.
  - `mapping`: how lines and channels are wired to the controls.
  - `analog`: smoothing and scaling of the analog channels.
  - `joystick`: the report, built from all of these.
  - `descriptor`: HID report descriptors.
  - `bump`, `pool`: memory that is handed out once, and slots that are given back.
  - `log`, `lines`: log messages and their text.
  - `trace`, `trace_switch`: idle and busy time, the run time of each task, and whether they are
    kept at all.
  - `cli`: the serial console.
  - `bits`, `ticks`, `tasklist`: bits of a word, clock arithmetic, lists of tasks.
- `app/` is the firmware around it: peripherals, USB, and the tasks of the executor.
- `tests/` runs the library on concrete values.

## What is taken on trust

`ticks` calls `embassy_time`, and `tasklist` calls `heapless::Vec` and the sort of the standard
library. Each such call stands in a function of its own, whose comment says what is claimed of it.
`log` names the error type of the standard text writers, and claims nothing of it.
Everything else in `src/` is proved.
