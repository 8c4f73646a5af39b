# Glimse

Glimse is a local service for the visual output of terminal-based agents. A daemon keeps immutable
publications under a per-user store root and serves them to a browser; short-lived commands publish
files, read the daemon's state and close sessions.

The library, `glim`, holds what the program decides. Every function in it has a contract that Verus
proves, but for the few wrappers of calls into other crates, whose contracts are taken on trust. The
program around it performs what the library asks for.

## Layout

- `src/`: the verified library
  - `storage/`: sessions, blobs, staging, publications, classification, reading, lifecycle, and
    what these leave in the tables and among the blob files
  - `api/`: authentication, paths, manifests, the reception of a publication, artifacts, the feed
  - `daemon/`: configuration, access modes, the access token, the cleanup of sessions
  - `cli/`: commands, flags, the preparation and sending of a publication, support files, Git
  - `service/`: the systemd user service
  - `logging.rs`: structured log lines
  - the remaining files: text, bytes, paths, numbers, hexadecimal and percent encodings, digests,
    random bytes, and the details of errors
- `app/`: the program: `main`, SQLite, files, HTTP, processes
- `tests/`: tests of the library

## How the two parts meet

Work that alternates between decisions and the outside world is a state machine of the library: it
names the next step, the program performs it and answers with what came of it. `Publishing`,
`Staging`, `Finalizing`, `Resolving`, `Purging`, `Draining`, `Reception`, `Preparation`,
`AssetCollection`, `ServiceRun`, `WriteStep` and `TokenStep` are of this kind. What holds of every run of such a machine is stated in
public proof functions whose names start with `law_`. Laws on what a run leaves in the database and
on disk say so of runs in which every step does what its description says. `storage/history.rs`
puts such runs one after another: there stands that publications are immutable, and that what was
published can be read back for as long as its session is there.

Calls into other crates stand behind functions marked `external_body`; the comment above each of
them says what is taken on trust.
