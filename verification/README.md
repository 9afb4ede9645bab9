# game-tunnel

A tunnel for game servers behind NAT. A relay server with a public address takes
the players' connections and carries them, multiplexed over one TLS connection,
to a client beside the game server. A manager spreads tunnels over clients and
servers and keeps DNS records up to date. A web panel administers the tunnels.

- `src/` holds the verified library: the wire protocol (`protocol`, `wire`), who is
  let in (`auth`), the relay server's tables (`server`, `udp_sessions`, `registry`),
  the client's (`client`, `client_tasks`, `stats`), the manager's bookkeeping and
  answers (`assign`, `manager`, `manager_api`, `dns`, `database`), the rules of the
  web panel (`web`), and what holds of them as a whole (the `*_laws` modules).
- `app/` holds the four programs around it: sockets, TLS, HTTP, the database and
  the configuration files. Start one with `game-tunnel server|client|manager|web`.
  The web panel serves the page `index.html` of the directory that it is started in.
- `tests/` runs the library on concrete values.

Times are nanoseconds of one process clock that the caller reads. Maps that are
walked have no order; where a contract lists their contents, it says so up to
order.
