# ftrans

Transfer of large files between two machines on a local network: `send` on the old
machine, `receive` on the new one. By default no external server is involved: no
relay, no public lookup, no internet probes and no gateway port mapping.

## Layout

- `src/` is the library, verified with Verus: session codes and discovery, tickets
  and their exchange, the manifest and the index of a transfer, the selection of
  files, the verification report, and the flows that decide what is done next when
  fetching, receiving, retrying and signalling completion. What the library takes from outside
  crates (BLAKE3 digests, keys, tickets and relay URLs) stands behind small functions
  whose doc comments say what is believed of the outside function.
- `app/` is the program around it: the command line, sockets, files and the blob
  store.
- `tests/` runs the library on concrete values.

## Guarantees

The contracts of the functions say what each of them returns. The public proof
functions say what holds of them together, among other things:

- what the sender imports is what the receiver loads, and only the sender's contents
  pass the check (`sender`, `guarantees`);
- all failures of a verification are reported, and a retry touches just those files
  (`guarantees`, `retry_flow`, `receive_flow`);
- a failed-file list names just the failures when it is read, where no path holds a
  line break (`failed_list`, `guarantees`);
- a retry ends, and when it succeeds, it found nothing failing, or it downloaded,
  exported and verified one and the same set of files (`retry_flow`);
- a receive ends after a bounded number of attempts, and when it succeeds, the last
  verification that looked at a file of the manifest found its contents intact
  (`receive_flow`, `guarantees`);
- the ticket is handed out only for the announced code (`ticket`), and a typed code is
  understood in any spelling (`session`).
