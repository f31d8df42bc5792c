# raft_visualizer

The verified core of a visualiser for a simulated Raft cluster.

- `src/` is the library, verified with Verus:
  - `storage.rs` and `state.rs`: each node's log store (append, replicate,
    range reads, applying entries, compaction, snapshots) and the simulated
    network (links between nodes, messages in flight, delivery in order).
  - `toolbox.rs`: parsing of the node-id list typed into the control panel
    and the requests that the panel's buttons produce.
  - `text.rs`, `ui.rs`: the labels drawn for nodes and messages, and the
    role a node is drawn with.
  - `laws.rs`: properties that relate several operations.
- `app/` is the shell: the Raft actors, the async delivery loop, the conrod
  views and everything that draws with floating point.
- `tests/` exercises the library on concrete values.
