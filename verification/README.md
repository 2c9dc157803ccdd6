# raftmeta

A metadata store replicated by Raft: the decisions of a replica, verified with Verus.

- `src/` is the library. It never touches disk, network or clock (but for the time that a
  leader stamps on a command): its functions take what was read and say what to write, send
  or apply, and their contracts say exactly what that is.
- `app/` is a replica around it: RocksDB, TCP, the Raft node, the loop.
- `tests/` runs the library.

What the library proves, beside the contract of each function:

- a command that is encoded is decoded as the same command, no two commands are encoded alike,
  a command whose document could come near four gibibytes is refused before it is written, and
  a document is no longer than what it holds allows (`command`, `faithful`, `bulk`);
- every replica makes the same call on its store for a command, with the time that the leader
  stamped, and replicas that replay the same log come to the same state and give the same
  results (`replay`, `rocks_apply`);
- a batch takes effect as a whole or not at all, and a batch without commands is refused
  (`rocks_apply`);
- a write that is applied gives its caller a result of the form that the caller expects
  (`raft_meta_store`);
- what is appended to the log is read back, a conflicting tail is replaced, compaction keeps
  what it should, and a replica restarts where it stopped (`storage`);
- entries are worked off in the order of the log, the command of each is applied exactly once,
  each proposer is answered with what applying its own command gave, a refused one is told the
  leader, nothing leaves a replica before it is durable, and a replica that cannot make it
  durable stops (`state_machine`, `applier`);
- a message arrives as it was sent, and a replica off the network neither sends nor receives
  (`transport`);
- a snapshot is installed as it was built, inside its directory, and what it was built in is
  removed even if it could not be packed (`snapshot_builder`, `snapshot_payload`).

The calls into other crates stand behind small functions marked `external_body`, each with a
contract that its doc comment explains.
