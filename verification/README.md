# rsnomadnet_core

A client for NomadNet pages, LXMF messages and RRC chat over Reticulum. What the
client decides and computes is a library that Verus verifies; what it does with
files, sockets, a database and a terminal is ordinary Rust around it.

## Layout

- `src/` is the library.
  - `text`, `hexadecimal`, `table`, `msgpack`, `digest`: characters, hexadecimal
    text, tables keyed by text, MessagePack values, digests.
  - `browser`, `fetch`, `mime`: addresses of pages, the Micron page format, fetching
    pages and files, the types of files.
  - `models`, `db`, `queries`, `retention`: what is stored, what is read of it in
    which order, and what is kept when the store grows.
  - `lxmf`, `announce`, `network`, `attachments`: messages coming in and going out,
    the directory of destinations, files offered by other people.
  - `rrc`: chat hubs and rooms.
  - `service`, `api`, `config`: the operations that the frontends offer, who may call
    them over HTTP, and how the program is configured.
  - `ui`: the state machines behind the terminal windows.
- `tests/` exercises the library on concrete values.
- `app/` is the program: the HTTP interface, the terminal interface, the database
  and the network.

## Contracts

Contracts are stated over sequences of characters and bytes, maps and integers.
Times are integers that the caller passes in, so every decision depends on its
arguments alone. Loops that wait for the network are functions from an event to
the next action.

Functions named `law_...` are proof functions that state what holds across several
operations: that an address is read back from its canonical text, that a refused
request changes nothing, that a queue of messages always comes to an end.

A call into another crate stands behind a small function whose contract is taken
as given. Its comment names the call and says what is claimed of it.
