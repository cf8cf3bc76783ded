# ringrtc (verified core)

The decision logic of a group and one-to-one calling library, written in
Verus with its behaviour stated in `requires`/`ensures` contracts and proved.

Layout:

- `src/signaling.rs`: the signaling messages (offers, answers, ICE candidates,
  hangups) and their display forms.
- `src/protobuf/`: the protocol buffer wire format (`wire.rs`: varints, keys,
  fields, groups, nesting depth) and the signaling message schema
  (`signaling.rs`), with laws that every message reads back as itself.
- `src/group_call/`: a device's state in a group call: remote devices, peeks,
  transceivers, send rates and bandwidth checks, speech detection, polling,
  rings, raised hands, media keys, forwarded video, SRTP key derivation,
  the frame encryption format, connecting, joining and leaving, the steps
  taken when the SFU accepts a join, the follow-ups of a peek, the routing
  of messages from the SFU, the periodic tick with its timers and queues,
  and the HTTP client's request header and join response mapping.
- `src/util/`: byte and text helpers, UUID formatting, and log redaction of
  ICE passwords and IP addresses.
- `app/`: what runs around the core: error messages, the task runtime,
  raw pointer helpers for foreign function interfaces, and a driver that
  keeps a call's state and feeds its events to the verified step functions.

Outside crates are reached only through small trusted functions whose
contracts are stated next to them: `sha2` (SHA-256), `hkdf` (HKDF-SHA256),
`x25519-dalek` (Diffie-Hellman), `regex-automata` (address matching) and
`hex` (hexadecimal encoding).
