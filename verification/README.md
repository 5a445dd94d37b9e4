# ferum-greet

A login greeter for greetd that draws straight to KMS/DRM with wgpu and reads
the keyboard from evdev.

- `src/` is the verified library: the greeter state machine (`app`), the
  configuration and its defaults (`config`), the remembered user and the
  session command line (`session`), the US-QWERTY key table (`keymap`) and
  key-event decoding (`input`), greetd message classification
  (`greetd_client`), the background source (`background`), the connector
  order (`order`) and the scanout bookkeeping (`scanout`), with their laws
  stated and proved next to them.
- `app/` is the program around it: configuration file parsing, the greetd
  socket, evdev devices, DRM devices, wgpu rendering and the main loop.
- `tests/` exercises the library on concrete values.
