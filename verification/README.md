# dialpwm

A CPU-driven PWM generator: a pinned thread writes a channel bitmask to a
shared output byte for the first `duty` ticks of every cycle and `0` for the
rest; another thread forwards that byte over a serial link; a small window
sets the duty (a dial between two percentages) and the bitmask.

- `src/` is the verified library (Verus):
  - `pwm.rs` — the per-tick decisions of the generator (`PwmCtrl::step`), the
    cycle length in ticks, and the laws of a PWM cycle;
  - `ui.rs` — the parser for the bitmask typed in base 2;
  - `util/raw_ptr.rs` — the handle to the shared output slot.
- `app/` is the program around it: argument parsing, the serial link, the
  timing loop, thread pinning and the window.
- `tests/` runs the library on concrete values.
