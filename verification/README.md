# fomoxa_interop

The peers that check Fomoxa runtimes against one another over real sockets,
with their logic proved correct.

- `src/` is the proved library:
  - `wire`, `message`, `models`: the `rpc` wire format, a model of every
    message as a list of fields, and the codec of each demo message, with
    what a read gives back of a write;
  - `proto`, `interop`: the codec helpers of the demo calls, the methods the
    peers declare, and what a responder answers;
  - `handlers`: the handlers a responder polls and feeds;
  - `drive`, `reflection`: what the driver concludes from each outcome,
    the reflection listing included;
  - `schema`, `registry`: the schema and the registries, built with
    `fomoxa_net` and `fomoxa_rpc` and shown to be accepted;
  - `frames`, `text`, `cli`, `peer`, `status`, `methods`: printing, text,
    command lines and the Player peer's reading of its session;
  - `laws`: what holds across calls and over every input.
- `app/` is the fRPC peer program: sockets, threads, clocks and the
  `fomoxa_rpc` sessions, around the library.
- `tests/` runs the library, alone and against `fomoxa_rpc` itself.
