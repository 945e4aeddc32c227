# syntro_rdp

A peer-to-peer remote desktop: one peer shares its screen as H.264 video and
takes mouse and keyboard input back; the other shows the pictures and sends
its input. Both talk over one bidirectional stream of length-prefixed
messages.

- `src/` is the library, verified with Verus:
  - `frame`: the length-prefixed framing and the reader that takes it apart,
    with the proof that a stream reads back the messages written to it;
  - `protocol`: the size announcement, the tag the viewer recognises it by;
  - `input`: input events and the actions injected for them;
  - `codec`: the H.264 encoder and decoder, each with a record of what has
    been handed to it;
  - `video`: the capture and display pipelines around the H.264, JPEG and
    base64 codecs;
  - `session`: the one-hosting/one-viewing bookkeeping and the command errors.
- `app/` holds the desktop shell: window commands, network endpoints, screen
  capture and input injection.
- `tests/` exercises the library, the codecs included.
