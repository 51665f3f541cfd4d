# v1060p_driver

A user-space Linux driver for the VINSA 1060 Plus drawing tablet, with its
decision logic verified in Verus.

- `src/` is the verified library:
  - `packet.rs` decodes the tablet's 64-byte interrupt reports;
  - `events.rs` names the keys and the input events the driver produces;
  - `dispatcher.rs` is the state machine that turns each report into batches
    of events for the virtual pen, the express-key keyboard and the media
    keyboard;
  - `dispatch_laws.rs` proves properties that span several reports;
  - `usb.rs` holds the USB decisions (which device, which endpoint, the
    full-mode report, what to do after a read).
- `app/` is the program around it: USB transfers (rusb), uinput devices
  (evdev), the settings file (serde, directories), the settings window
  (eframe), the command line and signal handling. The pointer smoothing and
  the pressure sensitivity are floating-point computations and live there.
- `tests/` runs the library on concrete reports.
