# plane_core

The verified logic of a radio-controlled plane's ground station and flight
controller, written in Verus.

- `src/` is the library. Its functions are verified, except the small
  trusted wrappers (marked `external_body`) through which it reads the
  clock and calls the defmt crates' encoder and decoder. It covers: the byte-rate
  counter of the radio link (`byte_rate_counter`, `rates`), wall-clock
  reading (`clock`), decimal and file-name text (`text`), the messages of
  the flight controller and what the ground station shows of them
  (`telemetry`), defmt log decoding (`defmt_log`) and the tables it
  accepts (`defmt_format`), log-line rendering
  (`log_line`), the log pane's scroll-back (`log_history`), trim selection
  (`trim`), gamepad mapping (`control_mapping`), the decisions of both
  control loops (`commands`), serial-port and USB-device selection and the
  retries of the radio link (`serial_link`), the PWM period (`pwm`), and the
  flight controller's task-name registry and log-encoder lock (`tasks`).
- `tests/` runs the library on concrete values.
- `app/` is the ground-station program around the library: terminal UI,
  gamepad, serial port, files, and the floating-point control shaping.
