# epd_watch

The logic of a small e-paper smartwatch (nRF52832, 200 x 200 monochrome panel, DS3231
clock), verified with Verus: drawing into the frame buffer, the panel's command sequences,
the event queue filled by the button and clock interrupts, the texts shown on the pages, the
page state machine with its settings and stopwatch, and the snake game.

- `src/display`: the frame buffer (`Display`), shapes, the 5-row font, `text` and anchored
  text, sequences of shapes, the QR code, the panel's start-up, refresh and sleep sequences, and terminal previews.
- `src/io`: events, the clock's date and time, the event queue, and the page texts.
- `src/sim.rs`: the desktop stand-in for the watch's inputs and clock.
- `src/pages`: the page states, the transition table and its moves, the laws of the state
  machine, the layout and drawing of every page, and the snake game.
- `app/`: the desktop program that drives the menus from the terminal, and the watch's
  hardware glue (SPI panel, I2C clock, GPIO interrupts) around the same library.
