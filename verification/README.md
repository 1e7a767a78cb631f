# httimple

A small HTTP/2 library whose frame logic is verified with Verus.

- `src/` is the library. Every public function has a contract, and Verus
  proves every function except the few trusted wrappers
  (`#[verifier::external_body]`) that call `bitreader`, `hpack_codec`,
  `rustls` and std; their contracts, stated from
  those crates' sources and documentation, are taken as given:
  - `bits`: bit reads through `bitreader` and the big-endian values they give;
  - `fields`: header fields by name (a map from names to values);
  - `proto`: the protocol layer: frame heads, DATA, HEADERS (HPACK blocks
    through `hpack_codec`, once a check shows the decoder reads them through),
    PRIORITY, SETTINGS, WINDOW_UPDATE and CONTINUATION frames, reading every
    frame of a buffer, the connection preface, the session;
  - `frame`: the first frame layer, which writes heads through binary strings;
  - `app`: calls assembled from frames, the messages that answer them, and
    `ConnectionState`, which turns received bytes into the writes and the calls
    to serve, and the choice of the handler registered for a path;
  - `codec`, `protocol`: a pass-through codec and a line codec;
  - `connection`: the outcome of a non-blocking read;
  - `keys`: the certificates and the private key read from PEM text (through
    `rustls`'s PEM readers).
- `app/` is the server around it: the TLS socket loop (`mio`, `rustls`), the
  reading of the key files, the handlers themselves, and the `tokio_io` /
  `tokio_proto` codec traits.
- `tests/` runs the library with the real outside crates.
