# patchify

The request-handling core of the patchify package server, verified with Verus.

`src/` is the library:

- `errors` — the server's error kinds, their codes and messages.
- `auth` — authentication kinds as bit flags; reading a configured kind by
  name, in any letter case; the union of the kinds a configuration offers.
- `config` — the server configuration, its defaults, and which configuration
  files can be read.
- `session_manager` — one session per connection id.
- `package_resolver` — package resolution for an authenticated identity.
- `wire` — the flatbuffers calls: reading the root of a received buffer and
  writing tables through a builder. A builder is described by the calls made
  on it; offsets and finished bytes are named functions of those calls.
- `request_handler::api` — the API-version check, the response base and the
  answer to an over-long request; `request_handler::api::v1` — dispatch on
  the request kind and the need-auth response.

The laws of the library are the public `law_*` proof functions.

`app/` is the server around it: command line, reading the configuration
file, the QUIC endpoint, reading request buffers, and sending answers.

`extras/schemas/patchify.fbs` describes the wire format the library writes.
