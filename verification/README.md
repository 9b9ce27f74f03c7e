# vm-pool

A service that manages a pool of isolated Linux VMs for running workloads, written in Verus.

- **VM pool**: allocation up to a limit, eviction by priority, timeouts, lifecycle records
- **Images**: references, types and build metadata
- **Snapshots**: metadata of saved VM state
- **Events**: an append-only log with a live feed, and the last log lines of each VM

## Layout

`src/` is the library. It decides and keeps the books; Verus proves that it does so as its contracts say.
Where an operation has to wait for something outside (a VM that starts, a file, a peer), it is split there:
one function says what is to be done, and another takes what came of it.

| Module | Holds |
| --- | --- |
| `protocol` | commands and events, framing of JSON lines |
| `events`, `feed` | event log, log buffers, announcement of new events |
| `pool` | the VMs, their limit, eviction, health check |
| `runtime`, `transport`, `channel` | what the VM backends run, the bridge between a VM and the pool |
| `service`, `client` | the command interface and the client's side of it |
| `supervisor` | the supervisor inside a VM |
| `images`, `snapshot`, `catalog` | metadata stores |
| `table`, `path`, `text`, `clock` | building blocks |

`app/` is the program around it: sockets, processes, files, JSON. `tests/` runs the library.

## Use

```sh
vm-pool serve   # the service, on /tmp/vm-pool.sock
supervisor      # the supervisor inside a VM, on its standard streams
```

Both are the same program; it is the supervisor where it is installed under that name.
