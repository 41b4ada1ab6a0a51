//! Decoding of the host's event envelopes into typed domain events.
//!
//! The host hands the guest an envelope per activation: a kind identifier
//! string and a raw little-endian argument buffer. [`decode`] matches the
//! kind against the closed set of known identifiers and slices the buffer at
//! that kind's fixed offsets. An unknown kind becomes [`Event::Unknown`]; a
//! buffer shorter than the matched kind's fixed offsets require is rejected
//! as a whole (the envelope decodes to nothing) rather than read out of
//! bounds.

use vstd::prelude::*;
use vstd::bytes::{spec_u32_from_le_bytes, spec_u64_from_le_bytes, u32_from_le_bytes,
    u64_from_le_bytes};
use vstd::slice::slice_subrange;
use crate::data::ChunkPos;

verus! {

/// A domain event, decoded from a host envelope.
///
/// `Started` is never decoded from an envelope: the driver raises it itself
/// on the first activation.
pub enum Event {
    /// The guest has been activated for the first time.
    Started,
    /// A player joined the server.
    PlayerJoined { session: u64 },
    /// A player left the server.
    PlayerLeft { session: u64 },
    /// A chunk of a player's world wants loading.
    ChunkLoading { session: u64, chunk: ChunkPos },
    /// A chunk of a player's world was unloaded.
    ChunkUnloaded { session: u64, chunk: ChunkPos },
    /// An envelope kind this guest does not know.
    Unknown { kind: String },
}

/// The signed reading of a 32-bit little-endian field (two's complement).
pub open spec fn spec_i32_of_u32(u: u32) -> i32 {
    if u < 0x8000_0000 {
        u as i32
    } else {
        (u - 0x1_0000_0000) as i32
    }
}

/// The session id field: bytes 0..8, little endian.
pub open spec fn session_of(args: Seq<u8>) -> u64 {
    spec_u64_from_le_bytes(args.subrange(0, 8))
}

/// The chunk coordinate fields: signed x at bytes 8..12, signed z at bytes
/// 12..16, little endian.
pub open spec fn chunk_of(args: Seq<u8>) -> ChunkPos {
    ChunkPos {
        x: spec_i32_of_u32(spec_u32_from_le_bytes(args.subrange(8, 12))),
        z: spec_i32_of_u32(spec_u32_from_le_bytes(args.subrange(12, 16))),
    }
}

/// What an envelope decodes to: the typed event, or nothing for a buffer too
/// short for its kind's fixed offsets.
pub open spec fn decoded(kind: Seq<char>, args: Seq<u8>) -> Option<Event> {
    if kind == "flywheel_player_joined"@ {
        if args.len() >= 8 {
            Some(Event::PlayerJoined { session: session_of(args) })
        } else {
            None
        }
    } else if kind == "flywheel_player_left"@ {
        if args.len() >= 8 {
            Some(Event::PlayerLeft { session: session_of(args) })
        } else {
            None
        }
    } else if kind == "flywheel_world_chunk_loading"@ {
        if args.len() >= 16 {
            Some(Event::ChunkLoading { session: session_of(args), chunk: chunk_of(args) })
        } else {
            None
        }
    } else if kind == "flywheel_world_chunk_unloaded"@ {
        if args.len() >= 16 {
            Some(Event::ChunkUnloaded { session: session_of(args), chunk: chunk_of(args) })
        } else {
            None
        }
    } else {
        None  // stands for `Unknown`, whose payload is not a spec value
    }
}

/// Whether `kind` is one of the identifiers this guest knows.
pub open spec fn known_kind(kind: Seq<char>) -> bool {
    ||| kind == "flywheel_player_joined"@
    ||| kind == "flywheel_player_left"@
    ||| kind == "flywheel_world_chunk_loading"@
    ||| kind == "flywheel_world_chunk_unloaded"@
}

/// The signed reading of a 32-bit field.
fn i32_of_u32(u: u32) -> (r: i32)
    ensures
        r == spec_i32_of_u32(u),
{
    if u < 0x8000_0000 {
        u as i32
    } else {
        ((u as i64) - 0x1_0000_0000) as i32
    }
}

/// Decodes one host envelope.
///
/// A known kind with a long-enough argument buffer gives its typed event; a
/// known kind with a too-short buffer gives `None` (the envelope is
/// rejected); an unknown kind gives [`Event::Unknown`] carrying the kind.
pub fn decode(kind: &String, args: &Vec<u8>) -> (r: Option<Event>)
    ensures
        known_kind(kind@) ==> r == decoded(kind@, args@),
        !known_kind(kind@) ==> (r matches Some(e) && (e matches Event::Unknown { kind: u }
            && u@ == kind@)),
{
    if *kind == "flywheel_player_joined".to_owned() {
        if args.len() >= 8 {
            let session = u64_from_le_bytes(slice_subrange(args.as_slice(), 0, 8));
            Some(Event::PlayerJoined { session })
        } else {
            None
        }
    } else if *kind == "flywheel_player_left".to_owned() {
        if args.len() >= 8 {
            let session = u64_from_le_bytes(slice_subrange(args.as_slice(), 0, 8));
            Some(Event::PlayerLeft { session })
        } else {
            None
        }
    } else if *kind == "flywheel_world_chunk_loading".to_owned() {
        if args.len() >= 16 {
            let session = u64_from_le_bytes(slice_subrange(args.as_slice(), 0, 8));
            let x = i32_of_u32(u32_from_le_bytes(slice_subrange(args.as_slice(), 8, 12)));
            let z = i32_of_u32(u32_from_le_bytes(slice_subrange(args.as_slice(), 12, 16)));
            Some(Event::ChunkLoading { session, chunk: ChunkPos { x, z } })
        } else {
            None
        }
    } else if *kind == "flywheel_world_chunk_unloaded".to_owned() {
        if args.len() >= 16 {
            let session = u64_from_le_bytes(slice_subrange(args.as_slice(), 0, 8));
            let x = i32_of_u32(u32_from_le_bytes(slice_subrange(args.as_slice(), 8, 12)));
            let z = i32_of_u32(u32_from_le_bytes(slice_subrange(args.as_slice(), 12, 16)));
            Some(Event::ChunkUnloaded { session, chunk: ChunkPos { x, z } })
        } else {
            None
        }
    } else {
        Some(Event::Unknown { kind: kind.clone() })
    }
}

} // verus!
