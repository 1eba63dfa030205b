# ABBS

ABBS is a small amateur-radio bulletin board system. It accepts AX.25
connections through an AGWPE-compatible endpoint, Mercury HF sessions, and plain
TCP terminal connections. Messages are stored in SQLite.

The board's logic is a Verus library: the functions of `src/` are verified
against their contracts. The exceptions are small wrappers round calls into other
crates and the standard library, marked `external_body`: their contracts, and
those given by `assume_specification`, are trusted. What touches sockets, the
database and the disk stands in `app/`, an ordinary program around the library.

| Module | What it holds |
| --- | --- |
| `text` | Trimming, splitting, joining, decimal numbers |
| `callsign` | Callsigns, their bases and SSIDs |
| `terminal` | Lines and raw bytes of a client, with CR, CRLF and LF |
| `command` | The commands that a caller can type |
| `report` | What the board writes: help, listings, messages |
| `session` | The dialogue with a caller, and the AGW registrations |
| `zmodem` | What becomes of each request of a ZMODEM transfer |
| `store` | Mail, visibility, deletion, logins and the migration of old rows |
| `files` | Safe file names, listings, download and upload paths |
| `service` | Radio options, TCP login, supervision of a radio |
| `mercury` | The radio link over a Mercury modem |

A session is a state machine: `run_session` takes an event, writes to the
terminal and says what is needed next. `app/driver.rs` carries that out and
reports back. The public proof functions named `law_...` state what holds across
functions, for example that private mail stays private, that a message is read as
it was typed, and that no upload leaves its directory.
