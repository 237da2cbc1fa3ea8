# assuan

Assuan protocol primitives, verified with Verus.

The library (`src/`) holds the protocol's logic with its contracts:

| Module        | What it holds                                                    |
|---------------|------------------------------------------------------------------|
| `request`     | `Request`: parsing a line into a request, writing it back        |
| `response`    | `Response`: parsing and writing `OK`, `ERR`, `S`, `#`, `D`, `INQUIRE` lines |
| `percent`     | percent-encoding of data lines and arguments                      |
| `line_reader` | `LineReader`: splitting received bytes into lines (1000-byte limit) |
| `line_writer` | `LineWriter`: protocol lines into a byte buffer                   |
| `server`      | `Server`: a server session (BYE, NOP, RESET, comments handled)    |
| `client`      | `Client`: a client session                                        |
| `error`       | `Error` and the libgpg-error compatible `ErrorCode`               |
| `number`, `text`, `wire` | decimal numbers, UTF-8 text, byte-level helpers       |

The sessions do no I/O: they take the bytes that arrive as events and
collect the bytes to send in an output buffer. `app/` runs them over
`Read + Write` transports and gives the error type `std::error::Error`.

Each model has round-trip laws. A request or response written as a line
parses back as itself (`lemma_request_round_trip`,
`lemma_response_round_trip`) whenever its text survives the trip: a status
or inquire keyword must be one word, an option's key and value and a
comment must read back unchanged, a command name must be one upper-case word
that is not a protocol verb, and data must be UTF-8 (`request_reparses`,
`response_reparses`). Percent-decoding undoes percent-encoding
(`lemma_decode_encode`). A line written by one end of a session, holding no
newline and not ending in a carriage return, is received as itself by the
other (`lemma_sent_request_received`, `lemma_sent_response_received`), and a
client receives a sequence of written responses in order
(`lemma_responses_received_in_order`).
