# usbipd

A USB/IP server for macOS. It exports the USB devices of a host to clients such as
the Linux kernel's `vhci-hcd`, and streams hotplug events to local consumers.

The library in `src/` is verified with Verus. It holds the protocol, the rules and the
state of the server, as functions of plain values:

- `wire`, `text`, `json`: integers, strings and JSON text as bytes and characters
- `op`, `urb`, `error`: the messages of the protocol
- `host`: the description and naming of devices
- `policy`, `server`: which devices are exported, and who has imported them
- `session`, `transfer`: the requests of a client, what is in flight, and the replies
- `events`, `hub`: the hotplug stream
- `capture`: the sequence of system calls that takes a device from its drivers

`app/` is the program: the command line, sockets, tasks and what they wait for, USB
transfers through `nusb`, and the IOKit calls. `tests/` runs the library on concrete values.

Each module states, as public proof functions, what holds of it as a whole: that
messages read back as they were written, that a device has one client at a time, that
a subscriber misses no device, that a capture gives back everything it took.
