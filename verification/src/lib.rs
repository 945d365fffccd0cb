//! Core of a venue connector for the Vertex exchange: it resolves the venue's
//! product catalog into canonical symbology, translates canonical orders and
//! cancels into venue-native calls and venue outcomes back into protocol
//! responses, and builds full account snapshots from raw venue balances.
//!
//! The transport and the venue client are external collaborators: they hand
//! this library plain values and take plain values back.
use vstd::prelude::*;

pub mod decimal;
pub mod text;
pub mod codec;
pub mod symbology;
pub mod orderflow;
pub mod order_entry;
pub mod positions;

verus! {

/// The connector's state: the account identity under which summaries are
/// reported and the immutable symbology snapshot loaded at startup. The
/// transport channels and the venue client live with the embedder, which
/// serializes all venue-mutating calls through one dispatcher loop.
pub struct VertexService {
    pub account_id: String,
    pub vertex_symbology: symbology::VertexSymbology,
}

} // verus!
