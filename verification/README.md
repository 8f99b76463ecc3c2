# oxideav-vaapi

A bridge to VA-API, the hardware video decoding interface on Linux, with its
logic verified in Verus.

- `src/` is the library. It decides what is asked of libva, in which order, and
  what the answers mean: opening a display, probing capabilities, setting up a
  decoder, locating `slice_data()` in an H.264 slice, filling the parameter
  buffers, submitting a picture, reading it back, and walking the NAL units of
  a packet stream. Sequences of driver calls are state machines: a value says
  which call is due, and takes in the reply.
- `app/` makes the calls. It loads `libva.so.2` and `libva-drm.so.2` on first
  use, owns the handles, and registers the H.264 decoder with the codec
  registry of `oxideav-core`.
- `tests/` runs the library against scripted drivers and generated streams.

What is relied on without proof is in `src/bitstream.rs`: the statements about
the H.264 parser of `oxideav-bitstream`. The proof functions whose names begin
with `law_` state what holds of the library as a whole.
