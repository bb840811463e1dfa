# starknet_graph

A web service that draws the transaction graph of a StarkNet wallet, with
its decision logic verified in Verus.

- `src/` — the verified library:
  - `text.rs`: decimal rendering, hexadecimal quantities (`0x…`) as node
    replies carry them, and the messages of integer parse errors;
  - `json.rs`: JSON values as plain data, with member lookup;
  - `errors.rs`: the service's errors, their messages and HTTP statuses;
  - `config.rs`: network and endpoint selection from settings;
  - `models.rs`: transactions (amounts in wei) and the graph types;
  - `rpc/transaction_utils.rs`: reading a transaction from a node's JSON;
  - `api/transactions.rs`: address validation and graph construction;
  - `rpc/client.rs`: judging JSON-RPC replies and choosing which transactions of
    events and blocks concern an address;
  - `rpc/scan.rs`: the lookup of an address's transactions and of a
    wallet's second-degree graph, as machines the application feeds with
    the node's replies;
  - `routes.rs`: first- and second-degree related wallets;
  - `addresses.rs`: ordered address lists without repetition.
- `app/` — the Rocket server, the reqwest-based RPC client, environment
  reading and the serialisable copies of the library's types.
- `tests/` — tests of the library on concrete values.
