# Scrollshot

Scrollshot takes long screenshots on Windows: it drags out a region of the screen, scrolls the page
under it, captures frame after frame, and stitches the frames into one tall PNG.

`src/` is a library that makes all decisions on plain values, verified with Verus:

| Module | What it decides |
|--------|-----------------|
| `raster`, `math`, `band` | images, exact ratios, column ranges |
| `difference`, `edges` | how far two frames differ, which rows never move |
| `vision` | the image operations of `image` and `imageproc`, and the parallel ones of `rayon` |
| `text_band`, `features` | where the text of a page is, and how steep an image is |
| `score`, `matching`, `overlap` | how many rows two frames share |
| `stitch` | stillness, progress, and the long image |
| `capture_progress`, `session` | when to keep a frame, scroll on, or stop |
| `region`, `screen_rect`, `capture`, `window`, `scroll`, `cli`, `error` | selection, screens, windows, input, options, messages |

Thresholds are compared exactly: means as ratios of integers, match scores by their IEEE 754
encodings.

`app/` is the program around it: windows, mouse, screen, files. `tests/` runs the library.
