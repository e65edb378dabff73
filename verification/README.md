# pihub

The verified core of a peer-to-peer tunnel sidecar: a launcher talks to it
over JSON lines on standard input and output, and it pairs a game host with a
player through WebRTC, either through a signaling server or by hand with
invite and answer codes.

- `src/` is the library, verified with Verus:
  - `signaling`: signaling-server URL normalisation, the server's events, the
    replies each request expects, and how socket frames are handled;
  - `engine`: invite/answer codes (base64 of the session description), the
    registry of peer connections, and the decisions of the host and client
    signaling loops;
  - `config`: the signaling-server list, its built-in default and the TTL
    cache in front of the remote API;
  - `ipc`: the launcher's requests, the command each becomes, and the
    responses, events and logs of the session handlers;
  - `bridge`: the local address and the ready event of a tunnel;
  - `domain`, `text`: value objects and character helpers.
- `app/` is the program around it: stdin/stdout, WebSockets, WebRTC, HTTP and
  the serde copies of the library's types.
- `tests/` exercises the library on concrete values.
