# pg_failover_slots_rs

A PostgreSQL extension that synchronizes logical replication slots from a primary server to a
physical streaming standby, so that the slots survive failover. It also enforces
physical-before-logical ordering: physical standbys have confirmed the write-ahead log before
logical replication data is sent downstream.

## Layout

- `src/` is the library: everything that is decided, verified with Verus.
  - `guc` – configuration parameters and their lists of filters and names
  - `text` – trimming, splitting and numbers
  - `remote` – connection parameters, queries and their results
  - `pg_compat` – transaction ids, log positions, timestamps
  - `server` – what the state machines ask of the server, and the replies
  - `slot_sync` – synchronization of slots on a standby
  - `standby_wait` – the wait for standbys on the primary
  - `worker` – the background worker
  - `laws` – what holds of all of it together
- `app/` is the extension itself. It registers parameters, the background worker and the
  walsender hook with the server, and serves the requests of the state machines through `pgrx`
  and `libpq-sys`. The calls that differ between PostgreSQL 15 to 18 are chosen by the features
  `pg17` and `pg18`; without them they are those of 15 and 16.
- `tests/` runs the library, the state machines against a simulated server.

## State machines

The background worker and the walsender hook alternate between decisions and calls into the
server. The decisions are state machines: `request()` tells what a machine needs next, and the
step function (`pg_failover_slots_rs_main`, `wait_for_standby_confirmation`) takes the reply and
gives the machine after it. A worker runs a synchronization cycle, a cycle synchronizes one slot
after the other, and a new slot may wait for the primary.

## Parameters

| Parameter | Default | Meaning |
|-----------|---------|---------|
| `pg_failover_slots_rs.standby_slot_names` | empty | physical slots that must confirm before logical data is sent |
| `pg_failover_slots_rs.standby_slots_min_confirmed` | `-1` | how many of them must; `-1` means all, `0` none |
| `pg_failover_slots_rs.synchronize_slot_names` | `name_like:%%` | which slots to synchronize: `name:`, `name_like:` and `plugin:` filters, or bare names |
| `pg_failover_slots_rs.drop_extra_slots` | `on` | drop local logical slots that the primary does not have, inside or outside the filters; nothing is dropped when it does not answer |
| `pg_failover_slots_rs.primary_dsn` | empty | connection string of the primary; that of the WAL receiver if empty |
| `pg_failover_slots_rs.worker_nap_time` | `60000` | milliseconds between two cycles |
| `pg_failover_slots_rs.maintenance_db` | `postgres` | database for connections to the primary |
| `pg_failover_slots_rs.version` | `0.1.0` | version of the extension, read-only |
