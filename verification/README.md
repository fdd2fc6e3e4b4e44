# px2asc

Turns images into character art: a classic ramp of characters per pixel, or
Unicode Braille with one 2x4 cell per character.

- `src/` is the verified library: settings, RGB extraction, the dithering
  kernels (Floyd-Steinberg and Atkinson error shares, the Bayer matrix), the
  Braille cell encoding and the classic glyph grid, each with its contract, and
  proof functions for the properties that span them.
- `app/` is the desktop program: window, file dialog, image decoding and the
  floating-point luminance pipeline (levels, inversion, quantisation, colour),
  which calls the library for everything that is integer logic.
- `tests/` runs the library on concrete frames.
