# screen_flash

Full-screen flash effects for Windows, with the decisions behind them proved
correct.

- `src/` is the proved library: the colour type and its `COLORREF` packing,
  the two colour parsers of the command line (`--color RRGGBB|r,g,b` and the
  positional `#RRGGBB|RRGGBB|r,g,b`), the schedules of the built-in default and
  rainbow effects, the choice of effect from the command line, and the
  decisions of the flash loop. `src/text.rs` holds the character-level rules
  (Unicode whitespace, splitting, decimal numbers) that the parsers are
  proved against.
- `app/` is the Windows side: the `FlashEffect` trait for custom effects,
  `flash_screen` with its Win32 overlay window, the floating-point opacity
  and hue computations, and the clap command line.
- `tests/` runs the library on concrete values.
