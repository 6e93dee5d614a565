# qaul

The peer tracking, packet framing and link decisions of qaul.net's TCP
network module, and the call and subscription bookkeeping of its voice
service, as a Verus library.

- `src/` is the verified library: `peers` (the peer table, whose tables
  always agree, and its model),
  `peer_laws` (what its operations keep and what lookups give back),
  `frame` (length-prefixed frames), `link` (what a connection does with each
  packet), `reconnect` (the introduction loop's decisions), `voice` (calls,
  recipients, subscriptions), `call_task` (the steps of inviting, joining
  and leaving a call), `files` (file types), `addr` and `order`.
- `app/` holds the asynchronous sockets, the tasks and the serialised forms
  of the library's types.
- `tests/` exercises the library on concrete values.
