# str0m media

The state of one media line (an m-line in SDP) of an RTP session, written in Rust and verified
with Verus.

A `Media` keeps the senders and receivers of the line, the packets that wait to be sent or sent
again, the samples that wait to be read, and the RTCP feedback that is due. It does no I/O: time
comes in as a value, packets and feedback go out as values.

## Layout

- `src/media/`: the m-line. `mod.rs` holds the type, its model `MediaModel` and the invariant `wf`;
  `create.rs` new lines, `negotiate.rs` changes by the other side, `sources.rs` senders and
  receivers, `write.rs` samples going out, `send.rs` their packets and resends, `wire.rs` the layout
  of a packet, `receive.rs` samples coming in, `feedback.rs` RTCP.
- `src/laws/`: properties that span several operations, as proof functions.
- `src/*.rs`: the values that the m-line works on.
- `tests/`: the library run on concrete values.
- `app/`: ordinary Rust that performs what the library leaves to its caller (writing header bytes,
  splitting samples, drawing random identifiers, reading a clock) and hands the outcome back.

## How the contracts read

Every operation states what it returns and what the m-line is afterwards, over the model: for
example `poll_packet` ensures `final(self)@ == old(self)@.polled(now, start)`. The spec functions on
`MediaModel` say in one place what each operation does, and the laws are proved from them.
