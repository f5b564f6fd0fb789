# breez_ldk

The storage and locking core of an LDK-based Lightning node, verified with Verus.

Several instances of a wallet may run against one remote VSS store; only the one that holds
the lock record (`"<expiry>/<instance id>"` under the key `lock`) may use it. The local state
is a SQLite table mirrored to the remote with optimistic versions.

- `src/` is the verified library: the lock record format (`lock_data`, `text`), the two lock
  state machines (`locking_store`, `vss_lock`), the refresher task (`refresher`), the write
  and reconciliation decisions of the mirror (`mirroring_store`), the reading of VSS answers
  (`vss_store`), backups (`backup_transport`), and the node's records as the SDK shows them
  (`node_api`, `payments`, `logger`, `config`). Time is whole seconds since the Unix epoch.
- `app/` holds the asynchronous side: the VSS client, SQLite, the tokio tasks and the LDK
  node, each step deciding through the library.
- `tests/` runs the library on concrete values.
