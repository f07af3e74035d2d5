# infmon

A monitor for network flows. A backend inside the packet processor counts packets per flow; this
library holds the rules of everything around it, and Verus proves that the code follows them.

Every function in `src/` states in its contract what it returns and what it changes. What the
parts promise together stands beside them as proof functions.

## Layout

- `src/config/`: the configuration, how it is checked, and the live set of flow rules
- `src/ipc/`: flow statistics, the decoding of flow keys, and both sides of the control protocol
- `src/frontend/`: the daemon. The poller's tick loop, the control server, logging, start and
  reload, and the exporters
- `src/frontend/otlp/`: the OTLP exporter. Attributes, the limit on data points, batches, retries
- `src/cli/`: the command line tool. Each command as steps, tables, exit codes
- `src/text.rs`, `src/net.rs`, `src/duration.rs`, `src/pairs.rs`, `src/yaml.rs`: texts and
  numbers, addresses, time spans, ordered settings, values held as YAML
- `app/`: the daemon and the tool themselves. Sockets, files, threads, arguments, gRPC and the
  backend's binary interface
- `tests/`: the library on concrete values

Loops that do outside work, such as the poller's, are state machines in `src/`: the library takes
an event and says what to do next, and `app/` does it.

A few calls leave the library. Each stands in a small function whose comment says what is taken
for granted about it: reading and writing YAML values, making a random UUID, and the standard
library's ways of splitting paths and of writing some texts.
