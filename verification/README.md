# nbes

A build event service (BES) backend that forwards build event streams to several other backends.
The logic is a Verus library: executable Rust whose behaviour is stated in contracts and proved.

## Layout

- `src/` is the library.
  - `event.rs`, `status.rs`, `metadata.rs`, `path.rs`, `text.rs`: messages, statuses, request
    headers, file paths and strings.
  - `endpoint.rs`, `binding.rs`: endpoints of backends, and what the server listens on.
  - `forwarding.rs` and `forwarding/`: backends, how they are connected to, and the state machines
    of a build event stream. `request_stream.rs` decides which requests are forwarded,
    `response_stream.rs` when the build tool is sent an acknowledgement, `upload.rs` follows
    asynchronous backends, `service.rs` orders the calls of the backends, and `header_files.rs`
    makes headers of files. `laws.rs` states what holds of a stream as a whole.
  - `args.rs`, `config_file.rs`, `names.rs`, `build_config.rs`: command line, configuration file,
    and the configuration that the two make together. `args/laws.rs` states what does not matter in
    an argument.
  - `server.rs`, `lib.rs`: the server and what it is made of.
  - `backend.rs`, `nbes.rs`: a simpler service that forwards events in lockstep.
- `tests/` holds its tests.
- `app/` is the program around the library: the command line, YAML, files, TLS, gRPC and tasks.

## A stream

For each request of the build tool, `RequestStream::process_request` says whether it is sent to the
backends, and what status the response side is told. The response side asks
`BuildToolResponseStreamState::poll_next` what to wait for: a change of that status, or one reply
of every backend that is not asynchronous. It hands in what came, and is told what to send. An
event is acknowledged once every such backend has acknowledged it.

## What is taken on trust

Functions marked `external_body` call tonic, url and rand; each has a doc comment that says what its
contract claims. Which texts are URLs, and what their parts are, is left to the url crate: the
contracts speak of `url_result` and `url_text_with_port` by name. Which addresses a gRPC channel
takes is `channel_result`, and text made of bytes that are not UTF-8 is `utf8_lossy`. A map of
headers takes any number of values and at least `MAX_HEADER_NAMES` names; beyond that it is left to
the map whether it takes another one, and a refusal is reported.
