# helios_execution

The decisions of the execution layer of a light client, verified with Verus.

A light client takes state, blocks, receipts and logs from servers that it does not trust and
checks them against block headers that it does. This crate holds what such a client decides:

- `block_cache`: the recent blocks, and what a new block proves about them
- `cache`, `caching_provider`: accounts that were fetched once, and what is still to be asked for
- `rpc_provider`, `access_list`, `logs`: what a node is asked for and what its answers come to
- `evm`: the environment of a call on an OP Stack chain, and the loop that runs it
- `api_client`, `client_settings`, `urls`: the requests of the verifiable API
- `server`, `poller`: the newest sequencer commitment, and its backfill from other replicas
- `metrics`, `telemetry`, `trace`, `router`: the server of the verifiable API seen from outside
- `primitives`, `chain`, `account`, `error`, `text`: the values that the others speak of

The modules whose names end in `laws` state what holds across several calls.

The crate waits for nobody. Where work alternates with waiting for another party, a module offers
the steps, and `app/` performs them. `tests/` runs the library on concrete values.
