//! The contracts the core asks of its collaborators: an input provider, a
//! display sink and a tone sink. They carry no semantic obligations — the
//! core states what it does with whatever they produce.

use vstd::prelude::*;

verus! {

/// The input provider: reports whether the key at `key_index` (0 through 15
/// by a fixed physical mapping) is currently down.
pub trait Controller {
    fn is_key_down(&self, key_index: usize) -> bool;
}

/// The display sink: accepts the 2048-cell framebuffer, row-major, one cell
/// per pixel, once per frame.
pub trait Renderer {
    fn render(&mut self, screen: &Vec<u8>);
}

/// The tone sink: `play` and `stop` signals, idempotent in the sense that
/// repeating a call in the same state is a no-op.
pub trait Synthetizer {
    fn play(&mut self);

    fn stop(&mut self);
}

} // verus!
