# hyperx_mic_lite

A small controller for the HyperX QuadCast S USB microphone: mute and gain,
the lighting controller's effects and persistent save, a JSON configuration
with validation and migration, remote control over MQTT with Home Assistant
discovery, logs, a background service and per-user start-up.

`src/` is the library, written in Verus: its functions are proved against
their contracts.  The one without a contract is `unix_timestamp_seconds`,
which reads the system clock: nothing can be promised of its result.

- `model`, `text`, `json`, `json_text`: the vocabulary (effects, targets,
  patterns), text helpers, and a JSON value type with its document view and
  its compact text.
- `config`, `config_doc`: the configuration, its defaults, validation and the
  migration of older files.
- `hid`, `lighting`, `lighting_cli`, `binary32`: decoding the microphone's
  reports, the lighting packets, colour arithmetic (interpolation rounds as
  single precision does), effect frames and the lighting stream.
- `mqtt`: topics, command parsing, state messages and discovery documents.
- `audio`, `logging`, `logs`, `paths`, `service`, `startup`, `tray`, `cli`:
  argument parsing, log records, file locations, service decisions, the
  tray icon's bitmaps and the command line.
- `controller`: the window's state and what each event makes it do.

`tests/` runs the library on concrete values. `app/` is the program around
it: files, the HID device, the MQTT connection and the command dispatch.
