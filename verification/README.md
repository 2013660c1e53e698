# Andromeda Transfer Direct Mini

A tool that moves files between a server and its clients over HTTP, with
parallel workers, remapped paths and optional TLS. The decisions it takes are
verified with Verus; the connections and the file system are ordinary Rust
around them.

## Layout

- `src/` is the verified library.
  - `text`: lines, blank lines, decimal numbers.
  - `http`: headers and status codes. The contracts of the calls into
    `axum::http` stand here.
  - `queue`: the files that wait to be handed out.
  - `server`: settings, the records of transferred files, the manifest and
    its file, the state of the server, the course of an upload and of a shutdown.
  - `client`: settings, the mapping of paths, requests and replies, and the
    workers.
  - `certificate`: the self-signed certificate of the server.
  - `protocol`: what client and server can rely on of each other.
- `tests/` runs the library.
- `app/` is the program: command line, connections, files, progress bars.

## Use

```
andromeda-transfer-direct-mini server --port 7000 --target-dir /data --api-key KEY
andromeda-transfer-direct-mini client http://host:7000 --mode pull --remap /remote:/local --api-key KEY
```

`--concurrency` sets the number of workers, `--tls` switches to HTTPS. An
interrupted client finishes the transfers in progress. An interrupted server does
so too: it refuses new requests, lets the transfers under way finish, and then
saves its records of downloads and uploads and exits.
