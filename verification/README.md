# winisland

The core of WinIsland, a "dynamic island" widget for Windows that shows the
track playing in the system media session, its cover, a visualizer and the
current lyric line, and that hosts DLL plugins.

The library in `src/` is written in Verus: each function carries a contract
that Verus proves.

- `lyrics`: reading LRC lyrics and time tags, query encoding (with its
  decoding law), and the lookups against the lyric service's responses.
- `json`: the part of a JSON document that those lookups read.
- `media`: the lyric line at a playback position, and how a reading of the
  media session updates the track (song changes, seeks, play/pause).
- `i18n`: the English and Chinese texts of the user interface; both
  languages have the same keys, none empty.
- `plugin`: the registry of loaded plugins (new plugins start disabled) and
  the requests plugins make.
- `config`, `render`, `color`, `tray`, `updater`: the choices of the settings
  window, how the background is drawn, colour packing and cover sampling,
  the tray menu, and the version check with its texts.

`app/` is the Windows program around the library: the windows and drawing
(skia, winit, softbuffer), the media session and dialogs (windows), the tray
icon, network requests, files and the loading of plugin DLLs. It is plain
Rust and hands the library plain values.

`tests/` runs the library on concrete inputs.
