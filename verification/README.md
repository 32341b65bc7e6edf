# Floaty

A pool on the Windows taskbar: water that ripples, and a character that
floats or swims in it.

* `src/` is the library: which character is shown and how its frames are
  packed, how the water and the character move on from frame to frame, what
  the tray menu and the color picker do, which overlay windows exist, and how
  the settings follow their file. All of it is verified with Verus. The only
  code that it takes on trust is the `png` crate, in `src/png_file.rs`.
* `tests/` runs the library on concrete values.
* `app/` is the program around it: windows, drawing, files, the registry, and
  arithmetic in floating point. The library stores floating-point numbers by
  their bits (`src/single.rs`), compares and clamps them, and leaves the sums
  to the program. The drawings and the shaders that the program embeds belong
  in `assets/` and `app/shaders.hlsl`.
