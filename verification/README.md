# streamdeck_mobile

A server for the Stream Deck Mobile app, so that a phone or a tablet shows up on the desktop as one
more device with keys. The logic is a library in Verus: every function states what it does, and the
statements are proved.

The library does no input or output. It takes what came in over a socket, and says what is to be
sent, who is to be asked and what is to be remembered. `app/` holds the sockets and the timers.

## Layout

| Module | What it is about |
| --- | --- |
| `wire`, `message` | the wire format of Protocol Buffers: splitting bytes into fields, and writing fields |
| `client_message`, `server_message` | the messages of the app and of the server |
| `app_messages` | how the app writes its messages, and that each is understood |
| `replies` | the answers of the server, and the layout of a keypad |
| `session` | one connection: from an event to the next state and what is to be done |
| `laws` | what holds of all connections together: who is trusted, when the desktop is asked |
| `pairing` | the code to scan, and the requests that wait for the desktop |
| `images` | pictures for the keys |
| `mdns` | the packets that announce the service in the local network |
| `identity`, `crypto`, `base64_text` | names, keys, digests, boxes and codes |
| `inbound` | what plugins and property inspectors may ask for |
| `registry`, `text` | a table by text, and text helpers |

Digests, boxes, QR codes, PNG files, picture decoding, Base64 and percent-encoding are left to the
crates that are made for it. What the library relies on is written above each call.
