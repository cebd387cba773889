# rustopoly

A verified library for a small Rustopoly game server, with the client and
server programs around it.

- `src/memory_mgmt.rs`: the game state (board fields by id, player accounts
  by name) in hash maps, with its view as maps of plain values.
- `src/financial_mgmt.rs`: deposits, withdrawals, transfers, bankruptcy,
  buying and selling properties; each operation's effect is a spec function
  on the state, and the laws relating them are proof functions.
- `src/interface.rs`: the message type and its framing (4-byte big-endian
  size, then payload).
- `src/session.rs`: what a line of user input becomes and what the server
  answers each request.
- `app/`: the programs (`server` and `client` subcommands): sockets,
  standard input, bincode encoding, logging.
