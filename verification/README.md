# warpinator_lib

Sending files and text messages between the machines of a local network, with the logic verified
by Verus.

`src/` is the verified library:

- `types/`: remotes, transfers and messages.
- `proto.rs`: the messages of the protocol as plain values.
- `config/`: the settings of the user and of the protocol.
- `server/remote_manager.rs`: the known remotes, with what is exchanged with them and what has
  happened to them.
- `server/remote_worker.rs`: connecting to a remote, staying connected, and what is asked of it.
- `server/transfer_receiver.rs`: receiving a transfer.
- `server/relative_name.rs`: whether a name leads out of a directory.
- `server/transfers/transfer_sender.rs`: sending one.
- `server/mod.rs`: building the service, announcing it and winding it up.
- `grpc/warp.rs`: the answers to the calls of other machines.
- `text.rs`, `lookup.rs`: strings and searches.
- `platform.rs`: random identifiers, the clock, Base64, media types and path rules. Its contracts
  are believed without proof; so are the two on strings at the top of `text.rs`.

What has to wait for the network or the disk is written as steps: the library is told what has
happened and says what is to be done next. Public proof functions state what holds of many steps,
for example that a file that is sent arrives with all its bytes.

`app/` performs the steps with sockets, files and tasks. The stubs of the remote procedure calls,
the keys of the group and the search for other machines come in through its `Backend` trait.

`tests/` runs the library on concrete values.
