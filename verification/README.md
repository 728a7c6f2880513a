# morsh

A mobile shell: a remote shell over UDP that tolerates latency and survives changes of address. It
speaks the protocol of mosh: AES-128-OCB3 packets, zlib-compressed fragments and protobuf messages.

The library under `src/` is verified with [Verus](https://github.com/verus-lang/verus). Its functions
state what they return or change, and the laws that span functions are proof functions beside them. Of
the clock and of random numbers nothing is stated but what holds of any.

| Module | What it holds |
|---|---|
| `crypto` | keys, nonces, random numbers, authenticated encryption |
| `proto` | the wire format of the messages |
| `network` | fragments, round-trip times, connections, the transport |
| `terminal` | screens, and the escape sequences that turn one into another |
| `statesync` | the states that are kept in step: the screen, and what the user did |
| `prediction` | local echo before the server answers, and the status bar |
| `client`, `server`, `wrapper` | what `morsh-client`, `morsh-server` and `morsh` decide |
| `classic` | what the classic `mosh-client`, `mosh-server` and `mosh` decide |
| `words`, `text`, `bytes`, `time` | texts, numbers, bytes and the clock |

What the library takes on trust are the calls into `aes`, `ocb3`, `base64`, `flate2`, `getrandom` and
`subtle`, and a few of the standard library. Each stands behind a small function whose comment says what
is claimed of it.

`app/` holds the programs: sockets, terminals, processes and SSH around the library. The terminal emulator
is `libghostty-vt`, which needs zig to build.

`tests/` holds the tests of the library.
