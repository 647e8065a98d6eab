# port_finder

`pf` finds and reclaims busy ports: it lists sockets with their owning
processes, finds the owner of one port, kills it, checks or scans ports for
availability, and offers an interactive table.

The logic is a Verus library under `src/`, with its behaviour stated in
`requires`/`ensures` contracts and proved:

- `port` builds the port listing from a socket table, formats durations and
  memory, labels well-known ports, parses port ranges, splits scans and
  decides kill targets and their outcomes;
- `report` holds the exit codes, the JSON answers and the command messages;
- `app` is the table view's state machine: sorting, filters, cursor, marks,
  pending kills, refresh that carries marks and cursor by identity, the
  layout of rows (plain or grouped by process) and the key map;
- `geometry` places the popups; `text` and `sort` are the string and stable
  sorting helpers the rest is proved with;
- `laws` states properties that relate the operations to each other.

`app/` is the program around it: argument parsing, the reads of the socket
and process tables, signalling processes, printing, and the terminal loop.
The tests under `tests/` exercise the library on concrete values.
