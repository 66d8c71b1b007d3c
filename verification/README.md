# m3kern

The decision logic of the M3 microkernel and of some of its programs, written in Verus and
proved against its contracts.

The kernel manages capabilities, kernel objects, endpoints and tiles on behalf of activities.
Where the kernel talks to hardware, to tile multiplexers or to other activities, the library
takes the outcome as a plain value and returns what to do next, for a caller to perform. Of
such callers, `app/` holds the revocation loop, drivers for a few system calls (activating a
receive gate, finishing a service derivation, stopping an activity), the kernel heap and the
accelerator's I/O loop; the parts that need the hardware (the TCU, the multiplexers' message
protocol) are reached through a trait there and are not implemented here.

## Layout

- `src/caps.rs`: capability tables as one arena with parent links; insertion, lookup,
  obtaining, revocation (single, subtree, whole table) and what releasing a capability implies.
- `src/kobjs.rs`: kernel objects (kernel memory, tile quotas, semaphores, memory, receive and
  send gates, endpoints, mappings, sessions, services).
- `src/slab.rs`: the slab allocator of the kernel heap.
- `src/eps.rs`, `src/tcu.rs`: endpoint allocation and the endpoint layout.
- `src/tiles.rs`: tile objects and their quotas, tile multiplexers, the activity table,
  activities and services.
- `src/activity.rs`: creating, starting, stopping, waiting for and destroying activities, and
  the capability layout of the root activity.
- `src/sysc.rs`: the system calls (creating, deriving, exchanging and revoking capabilities,
  activating gates, tile management).
- `src/tilemng.rs`: per-tile tables, tile objects for whole tiles, and the shutdown order.
- `src/exregs.rs`: exclusive memory regions.
- `src/loader.rs`: boot modules and ELF load segments.
- `src/muxctl.rs`: the kernel's side of the tile multiplexer protocol.
- `src/accel.rs`: the stream-accelerator multiplexer and its AES accelerator.
- `src/sig.rs`: verification of Ed25519-signed certificate chains (with `ed25519-dalek`).
- `src/cmdline.rs`: command lines of the benchmark programs.
- `app/`: the kernel heap on top of the slab allocator, the loop that revokes capabilities step
  by step and releases each one in between, the system-call drivers (`app/kernel.rs`), and the
  accelerator's I/O loop.
- `tests/`: tests of the library on concrete values.
