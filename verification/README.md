# UniFi Protect Archive

A command line tool that asks a UniFi Protect console to archive video to a storage destination
such as a NAS, and that can delete the archived footage from the console afterwards.

The decisions of the tool are a Verus library; what it reads, sends and waits for is ordinary Rust
around it.

- `src/archiver.rs`: which configurations a pass may start with, which cameras and which range it
  covers, the segments of a range, and the archive requests.
- `src/pass.rs`: an archive pass as a state machine. It says what to do next, and is told what came
  of it.
- `src/history.rs`: what holds of a whole pass. Archives are made one at a time, each segment of
  each camera once; only footage whose archive has left the queue is deleted; the report counts what
  was done.
- `src/client.rs`: the requests to the console, the session token, and the responses.
- `src/cli.rs`: the command line, and the loop of the daemon.
- `src/config.rs`, `src/protect.rs`, `src/error.rs`: the data.
- `src/json.rs`, `src/timestamp.rs`, `src/url_text.rs`, `src/text.rs`: the formats.
- `app/`: arguments, configuration files, the environment, HTTP, waiting and logging.
- `tests/`: tests of the library.

## Commands

- `init-config [PATH] [--force]`: write a sample configuration.
- `cameras --config PATH`: list the cameras.
- `run-once --config PATH [--camera NAME]... [--start TIME --end TIME] [--delete-after-archive
  --i-understand-this-deletes-protect-footage]`: run one pass.
- `daemon --config PATH`: run passes until interrupted.
