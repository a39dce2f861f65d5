# kvasilloni

A drop-in `canlib32.dll` that bridges a Kvaser CANlib application to a Linux
`vcan` over cannelloni, with no Kvaser
hardware or driver. The shim is itself a cannelloni peer, over UDP or TCP.

The library under `src/` holds every decision of the shim and is verified with
Verus. It performs no I/O. The code under `app/` exports the C functions and owns
the sockets, threads, locks and files.

| Module | What it decides |
|---|---|
| `wire`, `wire_laws` | the cannelloni byte format, both decoders, Kvaser and SocketCAN identifiers |
| `text`, `addr` | trimming, numbers, IP literals |
| `settings`, `config` | the INI text, and the layers default, INI, environment |
| `shared`, `shared_laws` | the receive ring, filters, blocking reads, notify callbacks |
| `open` | binding, dialling, accepting and the handshake of a new channel |
| `transport` | sending, tearing down, the receive loops, closing |
| `handles` | the table of open channels |
| `canlib`, `canlib_laws` | the CANlib functions on plain values, and what holds end to end |
| `log` | where the debug log goes |

What the verification takes on trust of the standard library is stated at two
places: `String::push` in `text`, and the `Debug` form of a string in `config`.
