# gaze_foveation

Decides where the full-density center of a foveated video frame goes, from eye-tracking gaze.

- `src/` is the verified library: the UDP gaze protocol, the order and age of samples, the gaze
  filter and its short hold, the projection rules, and the centers of recent frames that an encoder
  and a decoder share. Floating-point numbers appear as their bit patterns, compared exactly.
- `app/` runs it: socket, thread, shared state, the encoder's C interface, and the floating-point
  arithmetic, whose results the library takes as values.
- `tests/` runs the library on concrete values.
