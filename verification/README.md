# chat

A chat server and terminal client speaking a line protocol of JSON
messages over TCP.

- `src/` is the verified library: the message formats and their exact
  bytes, the server's tables of users and rooms and what it does with each
  message a client sends, the identification of a new client, and the
  client's parsing of commands, addresses and names and its notices. Every
  function carries a contract that Verus proves; `src/laws.rs` states the
  properties that span several operations.
- `app/` is the program around it: sockets, tasks, channels and the
  terminal. It reads lines, hands them to the library and delivers what
  comes back. Run it without arguments for the server, or with `cliente`
  for the client.
- `tests/` runs the library on concrete values.
