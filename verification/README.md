# MinkaFX

Per-frame-hot, geometrically simple, **inputless** overlays rendered with wgpu on
wlr-layer-shell overlay surfaces, one per output. Currently owned: the snap-zone
preview, which `snap.preview {monitor, rect|null, kind}` broadcasts show and hide.

- `src/` is the verified library. It decides which overlay a broadcast belongs to,
  which steps its springs take, how large its surface is, what a frame shows, when
  another frame follows and when the overlay sleeps. `src/laws.rs` states what
  holds of all of that together.
- `app/` talks to the compositor, the message channel and the graphics device, and
  does the floating-point arithmetic.

The verifier has no floating point, so the library holds single-precision numbers
as their bit patterns. It compares them, by what they stand for, and picks the
operands; it adds and multiplies none.

Once the springs of an overlay settle, nothing is rendered until the next
broadcast or configure.
