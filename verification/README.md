# Streame

A light video switcher. A phone sends its camera and microphone over WebRTC; the switcher composes
scenes, shows the programme on a second screen, routes the sound to a multichannel card, and is
steered from a Stream Deck, the multiview, a web page or OSC.

The library is written in Verus: every function states what it returns or changes, and the
statements are proved. The exception is the calls into other crates. Each goes through a small
wrapper (marked `external_body`) or a declaration (`assume_specification`), whose statement is
believed, not proved: its doc comment says what is claimed of the crate.

## Layout

- `src/` is the verified library: what the switcher and the phone decide.
  - `engine`, `config`, `server`, `osc`, `streamdeck`, `ui`, `layout`, `render`, `text`: scenes and
    transitions, their options, and everything that steers or shows them.
  - `webrtc`, `h264`, `vt`, `frame`, `opus`, `pc`, `signaling`, `offer_laws`: the phone's stream,
    from the offer to the picture on the screen.
  - `audio`, `avf`, `ring`: sound in and out, and files that play.
  - `client/`, `ios`: the phone's end.
  - `discovery`, `tls`, `startup`, `strings`: the rest of the machine room.
- `tests/` runs the library on given values.
- `app/` is ordinary Rust around it: sockets, devices, windows, files.

Times are nanoseconds of one clock, and numbers that the media crates give in floating point are
carried as their bits. What blocks, waits or talks to a device is a state machine here: an event
goes in, and what to do comes out.

## Building

The switcher's screens, sound and hardware codecs are those of macOS, and `app/` binds to them
through `wgpu`, `winit`, `cpal`, `elgato-streamdeck`, `image`, `ab_glyph`, `pollster`, `bytemuck`
and the `objc2` family there. On other systems `app/` serves its pages, sockets and API without
them.
