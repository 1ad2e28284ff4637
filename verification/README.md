# esp32_uc

Verified core of a bridge that shares a Mac's keyboard and trackpad with
BLE devices: the host captures input and sends semantic messages over a
serial link; the ESP32-S3 firmware routes them as HID reports to the
selected BLE peer.

- `src/` — the library, verified with Verus:
  - `input`, `keyboard`, `ptp`, `wire`: report and message types, the
    HID byte layouts, and the stateful touch-report encoder;
  - `session`: the firmware's peer routing, as a function from state and
    event to next state and the messages/reports to send;
  - `hidd`: the firmware's reactions to HID device events (connection
    flag, advertising, feature reports);
  - `outbox`, `slots`, `cursor`, `capture`, `keymap`, `serial`, `debug`:
    the host's queueing, slot table, cursor lifecycle and capture
    decisions;
  - `timing`, `hid_descriptor`: scan-time arithmetic and the composite
    HID report descriptor.
- `tests/` — scenario tests of the library.
- `app/` — the host program: serial I/O (postcard/COBS framing), the
  macOS event tap, the multitouch callback, and the debug CLI.
