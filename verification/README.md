# lan-mouse-proto

The wire protocol of lan-mouse and the logic of its clipboard sharing, as a library whose
functions are proved to do what their contracts say with [Verus](https://github.com/verus-lang/verus).

- `src/` is the library. Events are encoded into datagrams of a fixed size and decoded from them;
  clipboard text is split into chunks and put together again; the clipboard logic decides which
  tool to use, what to run, which texts to share with a peer, and when the clipboard task ends. Contracts are stated over views:
  byte and character sequences, integers and plain records. Proof functions named `law_..` state
  what several functions promise together.
- `app/` surrounds it: processes, timers, channels and the environment, and counterparts of library
  types that carry floating-point numbers or derives of other crates.
- `tests/` runs the library.

A floating-point quantity of a pointer event is held by the library as its bit pattern. The few
functions that the proofs rest on without looking inside are marked `external_body`; the comment
above each says what is claimed of the function it calls.
