# yoruk

Controller for the Yörü-K differential-drive robot, which it drives over a serial
port or TCP with a small binary protocol (`0xAA`, command, length, payload,
Fletcher-16 checksum). The library is written in Verus: every function states its
behaviour in `requires`/`ensures` and is proved against it.

## Layout

- `src/checksum.rs`, `src/packet.rs`, `src/types.rs`: the checksum, command frames
  and the decoding of robot responses.
- `src/framing.rs`: taking frames out of a received byte stream.
- `src/keyboard.rs`, `src/hotkeys.rs`: drive keys and keyboard shortcuts.
- `src/state.rs`, `src/message.rs`, `src/update.rs`: the controller state machine;
  each message changes the state and returns the effects (frames to send, links to
  open, ...) that the application carries out.
- `src/sender.rs`: the periodic speed sender.
- `src/link.rs`, `src/worker.rs`, `src/input.rs`: link state, link error texts,
  worker reactions, port and address input.
- `src/tiles.rs`, `src/camera.rs`, `src/redraw.rs`: map tile bookkeeping, camera
  pipeline decisions, drawing-cache keys.
- `src/laws.rs`: properties that span several operations.
- `app/`: a console front end that runs the serial and TCP workers and the
  periodic sender, and feeds console input to the controller.
- `tests/`: tests of the library.

## Console

```
yoruk serial [PORT]
yoruk tcp [HOST [PORT]]
```

Each input line is a key (`w`, `a`, `s`, `d`, arrows as `up`/`down`/`left`/`right`,
`space` for the emergency stop, `1`-`3` for the gear, ...), a key release (`-w`),
or a button word (`connect`, `start`, `stop`, `gps`, `joy DX DY`, `quit`, ...).
