# slint_logic

The decisions behind three parts of a UI toolkit, written in Rust and verified with Verus:

- `fmt` lays out a syntax tree: which whitespace goes, what is inserted before which token.
- `software` turns pixels into colors and back, blends them, and sets up the frames that the
  software renderer draws into a mapped frame buffer.
- `event_loop` says what is done about each event of a window, of the application and of the loop
  itself. Each handler is a machine: it names the next action, and goes on with the reply.

`src/` holds the verified library. Where it calls another crate (`bytemuck`, `drm`,
`i_slint_core`), a small function with a trusted contract makes the call. `app/` does the input and
output around the library with winit and i-slint-core. `tests/` run the library on values.
