# halfcopy

Halfcopy hands files from one computer to another. The sender is shown a coupon, such as
`17-maple-otter-comet`; the receiver types it in, and the files go straight from one to the other.

- `src/` is the library: what halfcopy decides and computes, written in Verus. The exchange of a
  coupon, the sender and the receiver are state machines whose every step is specified; public
  proof functions named `law_..` say what holds across steps.
- `app/` is the desktop program: it performs the actions that the state machines ask for, with
  Tauri for the windows and iroh for the network, and tells them what came of it.
- `tests/` runs the library.

What the library takes from other crates (SPAKE2, HKDF with BLAKE3, ChaCha20-Poly1305, postcard,
random numbers, hexadecimal text, paths) stands behind small functions in `src/crypto.rs`,
`src/wire.rs` and `src/path.rs`, each with a comment on what is relied on.
