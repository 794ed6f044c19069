# gilrs-core (Flydigi vendor protocol, verified)

The platform independent core of the gamepad library's Flydigi support, written
in Verus:

* `src/flydigi/detect.rs` - identification of Flydigi controllers by USB VID/PID.
* `src/flydigi/protocol_v1.rs` - decoder of the first generation vendor report
  (report ID `0x04`, marker `0xFE`, extra buttons in byte 7).
* `src/flydigi/types.rs` - button sets, their byte encoding, and the edge
  detector that turns successive button states into press/release events.
* `src/platform/linux/flydigi_hid.rs` - the computing half of the Linux hidraw
  transport: the `HID_ID` parser for `uevent` files, the choice of event codes,
  and the routing of decoded reports to code events.
* `src/platform/ios/` - the native event codes and the force feedback
  placeholder of the iOS backend.
* `src/utils.rs` - bit test, clock arithmetic, wall clock.

Every function in `src/` carries a contract that Verus proves; the laws of the
library (bit round trips, the edge detector's promises, what the decoder reads)
are public proof functions next to the code they speak of.

`app/` holds the operating system glue that Verus does not check: opening and
reading `/dev/hidraw*`, `epoll` registration, the monotonic clock, and copies of
library types with `Display`, `Error` and serde impls.
