# inferno_aoip

The core of a device that exchanges audio over IP with Dante equipment, verified with Verus.

`src/` is the library. It decides what the device sends, advertises and remembers:

- `arc_server`: requests of the audio routing control protocol and the answers to them
- `protocol`: the messages of that protocol, and lists that are sent page by page
- `info_mcast_server`: what the device multicasts of itself
- `mdns_server`: the services that it advertises
- `state_storage`: the names that users give to channels, and what is kept of them
- `media_clock`: times in nanoseconds and in samples
- `device_server`: multicast flows, and the order in which parts are stopped
- `device_info`: what the device knows of itself
- `packet_buffer`, `hex_text`, `text`, `wire`: bytes and text. What is relied on without proof
  stands here: the crate `bytebuffer` in the first, the crate `hex` in the second, and the standard
  library's conversion of UTF-8 bytes to a string in the third

A function that cannot work on every input says so in `requires`. Where the condition is more than a
comparison, a companion function tests it (`can_serve` for `handle_request`, for one).

`app/` runs the device: sockets, files, clocks and tasks. `tests/` runs the library on examples.
