# fluxon_kv

The logic of a distributed key-value cache backend, verified with Verus.

Nodes of three kinds make up a cluster. A master knows where values are and places new ones. Owners
give memory to the cluster. External clients share the memory of an owner on their machine and use it
through that owner, or through its side workers.

The library decides; it neither sends nor waits. Where work has to be done outside (a block is to be
allocated, a request to be sent, a process to be watched), a function returns what is to be done, and
is told what came of it. Time is always an argument.

## Layout

- `src/master_kv_router`: the routes of keys, and the protocols of puts and gets
- `src/master_seg_manager`: the memory that owners register
- `src/master_lease_manager`: leases, and the keys that go with them
- `src/external_client_api`: the calls of an external client, how it finds its owner again, and the
  way of a value from one client to another
- `src/side_workers`: how an owner configures, starts and watches its side workers
- `src/startup.rs`, `src/node_plan.rs`, `src/bootstrap.rs`, `src/local_ipc.rs`: what a node is started
  with
- `src/kv_test`: the cluster test: its rounds, its probes, and how what it sees is judged
- `app`: the program around the library: command line, files, processes, memory maps and clocks
- `tests`: tests of the library

Proof functions whose names begin with `law_` state what holds across several functions.

## Trust

Functions marked `external_body` call an outside crate. Their contracts are not proved; each names the
outside function and says what is relied on. The blocks of a segment are handed out by an allocator
outside the library, which is told of in `AllocationOutcome`.
