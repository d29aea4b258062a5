# solite

The logic of an embeddable engine for script-driven user interfaces: the
editing of native inputs and selects, and the dispatch of pointer, touch and
key events to a document and its scripts.

The library is written in Verus. The contracts state what the public functions
return and how the state changes, and the proofs are part of the sources. Of the
readings of the clock nothing is promised.

- `src/input.rs`, `src/keys.rs`, `src/select.rs`, `src/text.rs`: the state of
  the controls and what keystrokes do to it.
- `src/plan.rs`, `src/protocol.rs`, `src/instance.rs`: an `Instance` takes an
  event and hands out, one at a time, what the host is to do or to look up
  (`Ask`); each answer (`Reply`) brings the next step until the dispatch is
  done.
- `src/hit.rs`, `src/focus.rs`, `src/a11y.rs`: hit tests, the order of the
  focus, and what assistive technologies are told.
- `src/base_url.rs`, `src/paths.rs`, `src/source.rs`, `src/capture.rs`,
  `src/surface.rs`, `src/error.rs`: addresses, source files, captured images,
  and what is presented.
- `src/laws.rs`, `src/dispatch_laws.rs`, `src/histories.rs`, `src/endings.rs`:
  what holds of the library as a whole; among it, that every dispatch ends.
- `app/`: the host around the library, with the document, the graphics device
  and the files.
- `tests/`: the tests.
