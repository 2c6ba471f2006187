# monosend

A small LocalSend command-line client: it receives files from nearby devices and
shares files with them. The rules of the program are a library whose behaviour is
stated in contracts and proved with Verus; around it stands a thin program that
does the input and output.

```bash
monosend receive [--port PORT] [--autoaccept]
monosend share [--clipboard] <FILE>...
```

## Layout

`src/` is the library.

- `cli` reads the command line.
- `localsend::protocol` holds the messages and what a registration makes known.
- `localsend::discovery` decides what is announced, to whom, and what is made of
  the announcements of others.
- `localsend::server`, `localsend::prepare`, `localsend::upload` and
  `localsend::destination` are the receiving side: requests, sessions, uploads and
  the names under which files are stored.
- `localsend::client` is the sending side.
- `localsend::tls` gives the device its certificate and fingerprint;
  `localsend::ids` draws identifiers.
- `receive`, `share` and `clipboard` are the two commands and the clipboard.
- `json`, `path`, `sizes`, `table` and `text` are what the rest is built on; paths
  are those of Unix.
- `outside` holds the calls whose outcome rests on chance or on the system.

Where the library works with something that happens outside, such as a chunk of an
upload or the answer of a peer, it is a machine: it takes what happened and says
what is to be done next. The laws that hold of these machines are the public proof
functions whose names begin with `law_`.

`app/` is the program: sockets, files, processes and the terminal. `tests/` runs
the library on concrete values.

Clipboard features need `wl-clipboard`, `xclip` or `xsel`; notifications need
`notify-send`.
