# scrap

Capturing the screen of a Linux machine through the kernel's mode setting, and
encoding and decoding it with hardware codecs.

`src/` holds everything that is decided or computed, with contracts that Verus
proves. It does no input or output: where the system has to be asked, a state
machine says what to ask next and takes the answer.

| module | what it is about |
| --- | --- |
| `kms`, `linux`, `x11`, `wayland` | displays and their arrangement |
| `capturer`, `startup`, `session` | the client of a capture helper |
| `helper`, `serving`, `probing`, `route` | the helper: its commands, its service, its displays, the way to a framebuffer |
| `scanout`, `readback`, `formats`, `pixel` | framebuffers and what is read of them |
| `wire`, `ancillary` | what helper and client send each other |
| `retry`, `error` | failures, and when more rights may help |
| `hwconfig`, `hwcodec`, `convert` | hardware codecs |
| `sysfs`, `text`, `order` | texts and sorting |

`tests/` runs the library. `app/` is the ordinary Rust around it: devices,
processes, sockets, JSON, and what only other libraries compute.
