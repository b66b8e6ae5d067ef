# msmq

MSMQ over HTTP, verified with Verus: one message is one Stream, carried as an SRMP envelope with its
body attached.

A send target is `msmq://<host>/<queue>`, the queue's HTTP URL `http://<host>/msmq/<queue>`, or
MSMQ's format name `DIRECT=HTTP://<host>/msmq/<queue>`. Each has a guarded form, `msmqs://`,
`https://` or `DIRECT=HTTPS://`, which is posted over HTTPS.

- `src/` is the library. `target` reads targets, `envelope` and `mime` write and read the two halves
  of a message, `receive` takes a message out of a request, `transport` composes, posts and answers.
  `laws` states what holds of all of it. The MIME, XML and HTTP libraries that bytes go through are
  handed in as functions (`codec`), and every contract speaks of what those functions answer;
  `libraries` says what they are for, which is what the laws on a whole round trip rest on.
- `tests/` runs both ends against small stand-ins for those libraries.
- `app/` puts the library on sockets, behind the `Transport` and `Loopback` traits.
