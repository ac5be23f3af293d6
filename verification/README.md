# antifa

A peer-to-peer messenger over Tor. Each instance publishes an onion service
and exchanges length-prefixed messages with the peer whose `.onion` address
the user enters; an experimental video mode cuts PNG frames out of the output
of an `ffmpeg` capture process.

Layout:

- `src/` is the library, verified with Verus:
  - `text.rs`: white space, trimming, concatenation, decimal numbers;
  - `onion.rs`: normalisation of pasted `.onion` addresses, and what it
    ignores (letter case, a trailing slash, a repeated `.onion`);
  - `wire.rs`: the frame format of messages (4-byte big-endian length, then
    the bincode encoding of sender and body) and its round trip;
  - `p2p.rs`: what each user command sends and reports, how incoming
    messages and onion-service states are reported;
  - `video.rs`: the PNG frame reader, decoding a received frame (through
    the `png` crate) into RGBA pixels, the `ffmpeg` arguments;
  - `app.rs`: the session state behind the window;
  - `messaging.rs`, `tor.rs`: chat messages and Tor events.
- `app/` is the program: the egui window, the Tor client and onion service
  (arti), stream I/O and the capture process.
- `tests/` exercises the library.
