# process-sandbox

Transports between an executor and an executee that run apart from each other, in two processes or
in two threads, and the exchange of their first services.

* `src/` is the library, verified with Verus.
  * `bytes`, `time`: big-endian numbers and timeouts.
  * `cbor`, `channel`: what is used of `serde_cbor` and of the channels of `crossbeam`. The contracts
    in these two modules, and that of the random number in `ipc::port`, are taken on trust.
  * `ipc::frame`: packets on a byte stream.
  * `ipc::stream_socket`: the sending side, the receiving side and the watch of a stream socket, as
    state machines that somebody else drives, and how a connection is described and opened.
  * `ipc::intra`: a transport within a process.
  * `ipc::udp`, `ipc::port`: a transport by datagrams, and finding free ports.
  * `execution::with_rto`: how an executor and an executee exchange the handles of their services.
* `app/` drives the library: sockets, threads, the pool of the process, and the traits of
  `remote-trait-object`.
* `tests/` are tests of the library.

Functions named `law_..` state what holds of several functions together. The main one is
`law_connection_keeps_packets`: whatever pieces a socket cuts the bytes into, what one end of a
connection receives is what entered the other end's queue, packet by packet and in order.
