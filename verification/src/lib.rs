//! A bidirectional codec between native structured data and the D-Bus value
//! model: a self-describing tree of typed values, each carrying a compact
//! type-signature string.
//!
//! The value model and the signature grammar live in [`types`]; the closed
//! universe of native shapes the codec carries is in [`native`]. The engine
//! that turns natives into value trees is in [`encoder`], the engine that
//! reads them back is in [`decoder`], and the laws tying the two together —
//! the round trip and the signature correctness of everything the encoder
//! builds — are proved in [`laws`].

pub mod decoder;
pub mod encoder;
pub mod laws;
pub mod native;
pub mod types;
