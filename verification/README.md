# oxide_keys

Logic of a small RP2040 game panel (eight key switches, a rotary encoder, a
PWM buzzer and an ILI9341 LCD), written in Verus with its behaviour stated in
contracts and proved.

- `src/switches.rs`: debouncing of the eight switches, with the debounce laws
  for one switch and for runs of updates of all eight.
- `src/format.rs`: decimal text of the encoder count in a fixed 8-byte buffer.
- `src/buzzer.rs`: PWM wrap and duty values for a square-wave tone.
- `src/panel.rs`: the main loop's decisions (count, status LED, when to
  redraw) and the list of drawings that make up the status screen.
- `src/encoder.rs`: the encoder movement reported on each poll.
- `app/`: the firmware around the library: peripheral setup, pin reads,
  PWM writes and drawing on the LCD.
