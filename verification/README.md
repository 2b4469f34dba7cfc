# kteach

The verified core of a composable sample player controlled over MIDI.

- `src/` is the library, verified with Verus:
  - `engine`: node identifiers and the root mixer's inputs; the routes sent
    to the MIDI engine.
  - `message`, `wire`: the routed MIDI channel messages, their wire format
    (decoded and encoded with `wmidi`).
  - `midi`: the routing table (message slot -> parameter templates) and the
    MIDI engine that turns incoming bytes into parameter changes.
  - `queue`: the contracts given to the `ringbuf` queue between threads.
  - `modules`: the player transport (which chunk plays next; it loops over the
    whole track), mixer and root.
  - `decoder`: cutting decoded samples into chunks.
  - `utils`: the play, pause and gain messages of a player and their routes.
  - `crochet_gui`, `iced_gui`: the models of the two windows' controls (adding
    players, play, pause, gain).
- `app/` is the program around it: audio output, decoding, MIDI ports, the
  audio graph's modules and threads.
- `tests/` runs the library on concrete values.
