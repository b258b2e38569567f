# place_rs

A collaborative pixel canvas: clients paint pixels, pick names and chat;
the server keeps the canvas and tells every client about every change.

- `src/` is the verified library (Verus): the canvas and its users
  (`place`, `model`), the wire messages and the command parser
  (`messages`), the server's canvas with its client connections and
  broadcasts (`meta_place`), the server's per-connection rules (`server`),
  the client's callback table, message routing and canvas replica
  (`client`), byte encodings (`codec`) and text utilities (`text`).
- `app/` holds the programs around it: the actix websocket server and the
  command-line client, settings files and prompts, canvas storage, and the
  serialisable copies of the library's types.
- `tests/` runs the library on concrete values.

Run `app` with the argument `server` for the server; without it, it runs the
client.

The client has no desktop window (that would be an eframe/egui
application with floating-point layout, plus an HTTP fetch of the server's
size that only such a window needs), so no GUI crate or HTTP client is a
dependency; the client's canvas picture is handed out as raw RGBA bytes
with its size. The Postgres storage has no implementation here: choosing it
reports an error, and no database crate is a dependency.
