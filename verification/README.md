# simble

The profile layers of a Bluetooth Classic host stack, written in Verus: each is
a synchronous state machine that takes bytes from the peer and returns bytes to
send and events to act on, with contracts that say exactly which.

- `classic::sdp`: service discovery, client and server
- `classic::rfcomm`: serial channels with credit-based flow control
- `classic::at`, `classic::hfp`: AT lines and the Hands-Free profile
- `classic::avdtp`, `classic::a2dp`, `classic::rtp`: audio streams, their
  negotiation, and media packets
- `classic::avctp`, `classic::avc`, `classic::avrcp`: remote control
- `classic::hid`: input devices
- `l2cap`, `packets`, `types`: what the layers share
- `bytes`, `text`, `layout`, `models`: byte strings, text, fixed-size headers,
  and views of collections

Every type has a mathematical model, its view. The functions named `law_...`
state what holds across calls: what is written is read back, what one side sends
arrives at the other, what a peer cannot do.

`layout` and two functions of `text` are the only code that is not proved: they
hand their work to the `zerocopy` crate and to the standard library.

`tests/` runs the library; `app/` gives its errors the traits of standard
errors.
