# opendut

The verified core of the openDuT cluster manager (CARL) and edge agent
(EDGAR), written in Verus.

- `src/can.rs`: decoding of the CAN part of netlink link-info data
  (bit timing, timing limits, control mode and its flags).
- `src/can_update.rs`: which CAN parameters a link update copies from
  another link.
- `src/resources.rs`, `src/volatile.rs`: the resource types of the cluster
  manager and the in-memory storage that keeps them, with the laws of its
  operations.
- `src/cluster.rs`: which cluster configurations are deployed.
- `src/persistence.rs`: the database rows of cluster configurations and the
  keys under which cluster resources are kept.
- `src/database.rs`: which failed connection attempts are retried.
- `src/conversion.rs`: the conversion errors of the shared types.
- `src/show.rs`: the arguments of the `show` command.

`app/` holds what runs around the library: database, redb and netlink I/O,
the command line, and the copies of library types that carry the derives of
outside crates.
