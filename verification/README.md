# relay_server

A relay server for end-to-end encrypted chat, with several devices per user, private
messages, groups, channels and push notifications.

`src/` is the library. It decides everything the server does, and Verus proves that it
does so:

- `wire`, `crypto`: the layout of messages, the handshake and the encryption;
- `text`: cutting, trimming and joining texts;
- `session`, `state`, `table`: the limit on messages, and who is connected;
- `statements`, `sql`, `db`, `rows`, `store`, `progress`: the operations on the database,
  each as a sequence of requests and of what is done with the replies;
- `runs`, `tables`, `archive`: the laws of whole operations, and of operations one after
  the other;
- `identity`: fresh identifiers and passwords;
- `auth`, `command`, `notice`: the first message of a client, the commands that users
  type, and push notifications;
- `turn`, `signin`, `posting`, `client`: one client, from its first message to its last;
- `laws`: what holds of the server as a whole. The other modules state the laws of their
  own functions.

`app/` is the program around it: it accepts connections, runs the requests against the
SQLite file, calls the push service and hands the library what came of it.

`tests/` runs the library, against SQLite in memory where the database matters.
