# lansec

LAN remote desktop between Windows and macOS. The same program is host or client:
capture → hardware encode → BUD (an encrypted UDP protocol) → frame timing → hardware
decode → present.

`src/` is the library: everything that decides something, written in Verus and verified.

| Modules | What they hold |
| --- | --- |
| `bytes`, `wire`, `messages`, `codec`, `caps` | byte layouts, the messages on the wire, codec negotiation |
| `packet`, `crypto`, `reliable`, `ordering`, `video`, `congestion`, `link`, `endpoint` | BUD: headers and fragments, handshake and sealing, retransmission, in-order delivery, reassembly, rate control, the endpoint |
| `session_laws` | what two endpoints guarantee each other |
| `timing`, `present`, `audio`, `capture`, `encode`, `decode` | frame times, the drop-late presenter, PCM and Opus framing, which frames and which hardware are used |
| `host`, `client`, `input`, `keys`, `config`, `launcher`, `loopback` | the sessions, input, settings |

Every public function states its result in `ensures`. Properties that span several functions
are public proof functions beside what they are about. Calls into the cryptographic crates and
into `postcard` go through small wrappers in `crypto.rs` and `wire.rs`, whose contracts are
taken on trust; each says which function it calls and what is claimed of it.

`app/` is the program around the library: sockets, windows, files, the platforms' media
interfaces, and whatever needs floating point. `tests/` runs the library.

The Windows and macOS parts of `app/` link the C helpers `lansec_nvenc`, `lansec_mfx`,
`lansec_hevc_dxva` and `lansec_vt`, and need the crates `windows` and `cpal` there.
