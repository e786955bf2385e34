# bsync

Peer-to-peer clipboard sync. Start it, share your ticket, connect, and what is copied on one machine
is on the clipboard of the others.

## Layout

- `src/` is the library: everything that the program decides, with its contracts, verified by Verus.
  - `text`, `digest`, `identity`, `wire`, `ticket`, `message`: names, hashes, keys, and the formats
    that travel between peers. Tickets are base64 of JSON; messages are JSON of at most 1 MB.
  - `state`, `engine`, `laws`: the sync core. `state` says what each event does, `engine` runs it,
    and `laws` proves what holds over any run: no echo of a remote write, no content applied twice in
    a row, nothing from a peer that was not approved in that room, at most four copies broadcast
    within a second, a history of the newest fifty entries. A core is in any number of rooms; each
    has its own peers, and a copied text or image goes to all of them.
  - `network`, `registry`: what becomes of the gossip of a room, what goes out, and which rooms have
    been entered.
  - `shell`: the plain shell. `tui`, `keys`, `screen`: the terminal interface.
- `app/` is the program around it: arguments, key file, clipboard, iroh network, terminal. The plain
  shell gives the peer of a ticket 30 seconds to connect.
- `tests/` runs the library on concrete values.

## What is trusted

The library calls `serde_json` for the values inside its JSON records, `base64`, `blake3`,
`iroh-base` for keys and endpoint ids, `ratatui` for the layout of the screen, and a few functions of
the standard library. Each of these calls has a contract that is believed, not proved; the comment
above it says what it claims.

Everything else is proved from those contracts.
