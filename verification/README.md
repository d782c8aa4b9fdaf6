# capitol_backend

The game rules of The Capitol, a persistent multiplayer crafting and trading game, as a
library verified with Verus, and the server around it.

- `src/` is the verified library: zones, items and containers, moving and merging stacks,
  resource nodes (extraction and regeneration), recipes and crafting, stations and plots,
  strands (the currency), property taxes and the fiber exchange's fees, trading between
  players, who receives each game event, password checks, session tokens and the admission of requests, whether a road reaches the arterial network, the seeded generator
  of the world's layout, and the tick engine that processes player commands and advances
  extraction, crafting and regeneration. Every function states its behaviour in `requires`/`ensures`; the laws that
  relate several functions are public proof functions (`lemma_*`).
- `tests/` runs the library on concrete values.
- `app/` is the server: HTTP routes and the WebSocket connection (axum), the database (sqlx,
  PostgreSQL), sessions (redis), the tick loop (tokio), and the world's
  geometry (positions, movement, water and bridges, the generated roads and suburban plots),
  which uses floating point.

Identifiers are UUIDs in the server and their 128-bit values in the library; times are
milliseconds since the Unix epoch.
