# monitor-helper

A DDC/CI monitor controller for macOS and Windows: it lists external
monitors, reads and writes VCP features (brightness, input source, power,
...), shows the model-specific profile of a monitor, scans ranges of VCP
codes through time-limited probe subprocesses, and lists or watches USB
buses and devices.

## Layout

- `src/` is the library, verified with Verus. Every decision the program
  makes and every line it prints is computed here, with contracts over
  mathematical models:
  - `text`: trimming, ASCII case, number parsing and rendering.
  - `tables`, `profile`: the feature tables of the generic controller and of
    each monitor profile; profile detection; feature, value and label
    lookup.
  - `selection`: which displays a selector addresses; feature and code
    arguments.
  - `readback`: decoding of packed readings, the writeback choice, the
    report a probe prints and how its parent reads it back.
  - `probe`: the steps of a time-limited probe run and what its exit means.
  - `commands`: the lines each command prints.
  - `usb`, `watch`: the USB listing (grouping by bus, ordering of devices)
    and the hot-plug event reports over the devices known so far. The
    known devices are kept in a `Vec` of (identifier text, device) entries
    under a type invariant that no identifier occurs twice, and are viewed
    as a `Map`. A `HashMap` was not used: its identifier type belongs to
    `nusb`, and vstd's `HashMap` specifications prove lookups only for
    keys whose hashing vstd models, which text keys are not.
  - `cli`: the command line as the library sees it.
- `app/` is the program around it: argument parsing, the calls into
  `ddc-hi` and `nusb`, subprocesses, time and printing.
- `tests/` runs the library on concrete inputs.
