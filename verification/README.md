# salamandra

A small tool that distributes a file from a server to registered clients.
Clients sign in over TCP; the server records them in a registry file and, on a
broadcast request, sends each client the HTTP URL of the shared file; each
client downloads it and answers "downloaded".

- `src/` is the verified library (Verus): message framing (`connection`),
  ASCII helpers (`text`), the server's decisions (`server`), the client registry
  format (`registry`), the client's configuration (`config`) and decisions
  (`client`), and properties of the exchange as a whole (`protocol`).
- `app/` is the program around it: sockets, files, HTTP, threads and the
  configuration files. `salamandra client` runs the client, anything else the
  server.
- `tests/` runs the library on concrete values.
