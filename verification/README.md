# canopen-rs

A CANopen (CiA 301) protocol stack in Rust whose behaviour is stated in
contracts and proved with [Verus](https://github.com/verus-lang/verus).

The library implements the object dictionary, SDO (expedited, segmented, block),
PDO, NMT with heartbeat and node guarding, SYNC, EMCY, TIME, LSS with Fastscan,
and a frame-driven device `Node` that bundles them. None of it touches a bus:
every protocol consumes and produces frames.

## Layout

| Path | Contents |
|------|----------|
| `src/types.rs`, `src/datatypes.rs`, `src/little_endian.rs`, `src/frame.rs` | node ids and errors, values and their encoding, frames |
| `src/object_dictionary.rs`, `src/standard.rs` | the dictionary and the mandatory objects |
| `src/sdo/` | codecs, client, server, block transfer, and the laws of a transaction |
| `src/pdo.rs`, `src/nmt.rs`, `src/sync.rs`, `src/time.rs`, `src/emcy.rs` | the other communication objects |
| `src/lss.rs`, `src/lss/laws.rs` | layer setting services and the laws of selection and Fastscan |
| `src/node.rs`, `src/node/laws.rs` | the device node and what it guarantees |
| `src/host/`, `src/cli.rs`, `src/text.rs`, `src/display.rs` | EDS/DCF files, source generation, heartbeat monitoring, the decisions of a transport and of the command-line tool |
| `src/buffer.rs`, `src/transport.rs` | where `heapless` and `embedded-can` are called |
| `tests/` | tests of the compiled library |
| `app/` | the `canopen` command-line tool: arguments, files and SocketCAN |

## How to read a contract

Every type has a view: the dictionary's is a map from addresses to entries, a
node's is a record of its parts. Every operation has a specification function on
views, and its `ensures` says that the executable code does that. The proof
functions named `law_…` state what follows for several operations together, for
example:

- Fastscan ends with the exact address of a node on the bus, never with one that
  no node has, and leaves just that node in the configuration state.
- What an SDO client writes is what it reads back, whether the value travels
  inline or in segments; a refused request is answered with its abort code and
  changes nothing.
- A block transfer delivers its data for every block size, and its CRC accepts it.
- A packed PDO unpacks to the values it was packed from.

What is believed without proof of `heapless`, `embedded-can` and the standard
library stands in functions marked `external_body` and in one
`assume_specification`, each with a comment that says what it claims.
