# pi4gpio

The verified core of a local hardware-access daemon for the Raspberry Pi 4
(GPIO, I2C, SPI, UART over a Unix-domain socket, with per-connection
ownership of each bus).

- `src/` is the library, checked by Verus: client identity (`client`), the
  bus lock table (`lock`), the wire protocol's request rules and responses
  (`protocol`), the per-connection session logic (`session`: held buses,
  cached device handles, giving buses back, disconnect cleanup, request
  dispatch), polled edge detection (`edges`), stale-socket decisions
  (`startup`), configuration (`config`) and the register arithmetic and
  argument checks of the hardware layer (`hw`).
- `app/` is the daemon around it: the tokio server, JSON reading and
  writing, and the Linux device access (mmap, ioctl, termios).
- `tests/` runs the library on concrete values.
