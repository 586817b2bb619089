# chess_server

A server for timed games of chess between two players whom a matchmaker has
paired, written in Rust and verified with Verus.

- `src/` is the verified library: the rooms and their keys, the clocks, the
  moves and results, the messages to both players, the stages of a session and
  the record of a finished match. Each public function states what it returns
  or changes; what holds over several steps is stated and proved in
  `src/laws.rs`, in `src/history.rs` (whole games and whole sessions) and beside
  the types it speaks of. The rules of chess come from the crate `chess`, the
  notation of a finished match from `rschess`, and random keys from `rand`; the
  functions that call them say what is taken on trust.
- `tests/` runs the library on concrete games and messages.
- `app/` is the server around it: WebSocket connections, tokens, Redis, MongoDB
  and timers. It turns what happens outside into values, asks the library what
  to do and does it.

Players get three minutes each and two seconds for every move after the first
of the match. A match without a move is called off twenty seconds after it was
made. A player who comes back with the key of a seat takes the seat over; the
room is cleared once both have left or the match is over.
