# fuota

Firmware updates over the air for LoRaWAN devices: a multicast group is set up, the devices are
asked to join it and to prepare a fragmentation session, and the image is sent in fragments with
forward error correction.

The library in `src/` holds the logic and is verified with Verus.  It performs no I/O: a
`flow::Flow` returns actions, and takes their outcomes as events.

| module          | contents                                                            |
|-----------------|---------------------------------------------------------------------|
| `flow`          | the jobs of an update, as a state machine                           |
| `fragmentation` | answers of devices to the fragmentation package                     |
| `requests`      | the multicast group, the requests and the fragments that are sent   |
| `fragments`     | number, padding and redundancy of fragments                         |
| `single`        | single-precision rounding and division, on integers                 |
| `narrow`        | conversions that keep the low bits of a number                      |
| `messages`      | messages, encoded and decoded by the `lrwn` crate                   |
| `keys`          | multicast keys, derived by the `lrwn` crate                         |
| `clock`         | points in time, on the calendar of the `chrono` crate               |
| `types`         | records and errors                                                  |
| `laws`          | what holds of whole runs, and of the jobs of an update              |

`app/` performs the actions against storage, queues and configuration.  `tests/` runs the library
together with the crates that it calls.
