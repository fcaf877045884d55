# mgmt

The management service of a core device, verified with Verus. A host that connects
to the device can read, clear and follow its log, set log levels, edit its
configuration, reboot it and have the state of its allocator printed. The requests
are about the device itself or, over a DRTIO link, about another one.

- `src/` decides what is done. `worker::worker` takes a connection and what came of
  the last action, and says which action comes next. `local_coremgmt` and
  `remote_coremgmt` hold a handler for each request, `laws` what holds of every
  connection.
- `app/` does it, on the scheduler, the network stack, the flash and the links of the
  firmware, whose crates it needs.
- `tests/` runs the library.

What is taken on trust: `core::str::from_utf8`, and of the `log` crate the numbers of
the levels, and that `log::max_level` and `log::set_max_level` are called where a
`level::LogLimit` says so. Nothing is claimed of the limit that they read and set,
which all threads share.
