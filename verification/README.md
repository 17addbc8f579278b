# Sinrana

Sinrana is a chat protocol and the logic of a server and a command-line client that speak it.
Clients talk in rooms or to one another, with three roles: `user < manager < admin`.

- A frame on the wire is a 32-bit big-endian length and a payload of at most 16 MiB.
- A payload is a MessagePack envelope: version, correlation id, message. A request has an id of its
  own and its answer repeats it; a push of the server has the id 0.
- The server alone orders the chat: every text in a room gets the next number.
- Passwords are kept as argon2id hashes; a session is a random token of 32 bytes. A token can be
  used to resume the session on another connection. Once its user has logged out, or been kicked,
  banned or deleted, it does not bring the user back online. A locked server lets only
  administrators in, with a password or with a token.

## Layout

- `src/` is the library, written in Verus. What its functions do is stated in contracts, and
  Verus proves them. The state of the server is a mathematical value (`model.rs`), each request is
  a function from state to state (`protocol.rs`), and `laws.rs` states what holds whatever is
  asked: every request is answered once, a refusal changes nothing, a text reaches exactly the
  members of its room, and so on. What is asked of outside crates and of the standard library
  (hashing, random bytes, JSON, certificates, the clock, paths) stands behind a few small functions
  whose contracts are not proved but taken on trust; each says so.
- `app/` is the program around the library: QUIC, SQLite, HTTP, files and the terminal.
- `tests/` runs the library.

The library does no input or output. A request that needs the database stops with a step that says
what it needs, and goes on when that is there.

## Running

```
sinrana server                        # 127.0.0.1:8080, web interface on 127.0.0.1:8090
sinrana client --server 127.0.0.1:8080 --cert cert.der
```

The first start makes the account `admin` with the password `admin`. Without `--cert` and `--key`
the server makes a self-signed certificate, which is for development only.
