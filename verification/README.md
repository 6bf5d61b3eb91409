# Pro Audio Config

A configuration tool for Linux audio (PipeWire, WirePlumber, ALSA and
PulseAudio): sample rate, bit depth, buffer size, professional and exclusive
modes, a level monitor and an inspector of the configuration files.

The decisions of the tool live in the library under `src/`, verified with
Verus:

- `audio`: device listings of `pw-cli`, `aplay`/`arecord` and `pactl`, the
  current settings, and the settings script;
- `config`: the PipeWire and WirePlumber configuration texts and the edits
  of `pipewire.conf`;
- `apply`: the steps of applying settings, as state machines whose steps the
  program carries out, and the checks of what the sound server reports;
- `paths`: where configuration files are written, backed up and removed;
- `ui`: the choices, lists and messages of the window;
- `links`: planning the connections of the level monitor;
- `inspector`: which files are configuration files, which are active, and
  the order in which they are listed;
- `monitor`: the state of the level monitor;
- `laws`: properties of the library as a whole;
- `text`: the string operations the rest is written with.

`app/` holds the GTK window, the commands and the file handling around the
library. `tests/` runs the library on concrete values.
