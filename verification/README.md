# glasgow-tool

UART tools for the Glasgow Digital Interface Explorer and for the FTDI C232HD-DDHSP-0 cable,
with their logic verified by Verus.

- `src/` is the verified library: discovery and selection of devices, baud-rate arithmetic,
  resource validation, the Glasgow management protocol, the opening of both kinds of device,
  the two workers and the coordinator of a full-duplex session, and telemetry.
- `app/` is the `guart` and `c232uart` executables around it: argument parsing, USB and serial
  I/O, threads, the terminal, and log files.
- `tests/` runs the library on concrete values.

Where the library waits for the outside world it is written as a machine: a method names the
next action, a thread of `app/` performs it and hands back what came of it.

The executables read the Glasgow bitstreams and their manifests from the directory in
`GLASGOW_UART_RESOURCES`, or from `resources/glasgow-uart`. Which executable runs follows from
the name that the program is started by.
