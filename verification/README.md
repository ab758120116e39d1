# pulson

Realtime monitoring of systems and robots: devices send pulses (pings or
structured data) on topics, a server stores them, and a command-line client
and a web dashboard show which devices and topics are online, recent, stale
or offline.

The library under `src/` holds the rules and the data handling, each
function with a contract proved by Verus:

- `status`, `listing`: status thresholds, how devices and topics are
  classified by age, sorted, filtered and summarised;
- `datatype`, `payload`, `json`: detection of the data type of a payload and
  the payloads the client sends;
- `pulses`, `trigger`, `events`, `sensor`, `image`, `location`, `dashboard`:
  what the dashboard computes from a device's history;
- `server`, `store`, `credentials`, `password`, `commands`, `client`,
  `assets`: the decisions of the HTTP server and of the client commands;
- `host`, `time`, `text`, `order`: addresses, instants, text and ordering.

Calls into outside crates (chrono, url, argon2, bcrypt, uuid, mime_guess, image)
and a few std functions go through small trusted wrappers whose contracts
say what the outside code is relied on for.

`app/` is the program around the library: argument parsing, the SQLite
store, the HTTP routes, network requests, files and the terminal.
`tests/` runs the library on concrete values.
