//! Data structures which don't do anything by themselves, but are used for
//! world operations: chunk and block positions, sound categories, and block
//! descriptors.

use vstd::prelude::*;
use vstd::utf8::encode_utf8;

verus! {

/// A chunk position in the world.
#[derive(Clone, Copy, Debug, PartialEq, Eq, Structural, Hash)]
pub struct ChunkPos {
    /// The x position of this `ChunkPos`.
    pub x: i32,
    /// The z position of this `ChunkPos`.
    pub z: i32,
}

impl ChunkPos {
    /// Create a new `ChunkPos` with the given `x` and `z` values.
    pub fn new(x: i32, z: i32) -> (r: Self)
        ensures
            r == (ChunkPos { x, z }),
    {
        ChunkPos { x, z }
    }

    /// Create a new `ChunkPos` with the given value as `x` and `z`.
    pub fn splat(v: i32) -> (r: Self)
        ensures
            r == (ChunkPos { x: v, z: v }),
    {
        ChunkPos { x: v, z: v }
    }

    /// Returns a new `ChunkPos` shifted `offset` chunks to the south (positive z).
    pub fn south(&self, offset: i32) -> (r: Self)
        requires
            i32::MIN <= self.z + offset <= i32::MAX,
        ensures
            r == (ChunkPos { x: self.x, z: (self.z + offset) as i32 }),
    {
        ChunkPos { x: self.x, z: self.z + offset }
    }

    /// Returns a new `ChunkPos` shifted `offset` chunks to the north (negative z).
    pub fn north(&self, offset: i32) -> (r: Self)
        requires
            i32::MIN <= self.z - offset <= i32::MAX,
        ensures
            r == (ChunkPos { x: self.x, z: (self.z - offset) as i32 }),
    {
        ChunkPos { x: self.x, z: self.z - offset }
    }

    /// Returns a new `ChunkPos` shifted `offset` chunks to the east (positive x).
    pub fn east(&self, offset: i32) -> (r: Self)
        requires
            i32::MIN <= self.x + offset <= i32::MAX,
        ensures
            r == (ChunkPos { x: (self.x + offset) as i32, z: self.z }),
    {
        ChunkPos { x: self.x + offset, z: self.z }
    }

    /// Returns a new `ChunkPos` shifted `offset` chunks to the west (negative x).
    pub fn west(&self, offset: i32) -> (r: Self)
        requires
            i32::MIN <= self.x - offset <= i32::MAX,
        ensures
            r == (ChunkPos { x: (self.x - offset) as i32, z: self.z }),
    {
        ChunkPos { x: self.x - offset, z: self.z }
    }

    /// The minimum (most negative `x`, `y`, and `z`) `BlockPos` in this chunk.
    pub fn min_block(&self) -> (r: BlockPos)
        ensures
            r == (BlockPos { x: (self.x * 16) as i64, y: 0, z: (self.z * 16) as i64 }),
    {
        BlockPos { x: (self.x as i64) * 16, y: 0, z: (self.z as i64) * 16 }
    }
}

/// A block position in the world.
#[derive(Clone, Copy, Debug, PartialEq, Eq, Structural, Hash)]
pub struct BlockPos {
    /// The x position of this `BlockPos`.
    pub x: i64,
    /// The y position of this `BlockPos`.
    pub y: i64,
    /// The z position of this `BlockPos`.
    pub z: i64,
}

/// Truncating division by 16, rounding toward zero as Rust's `/` does.
pub open spec fn div16_trunc(x: int) -> int {
    if x >= 0 {
        x / 16
    } else {
        -((-x) / 16)
    }
}

impl BlockPos {
    /// Create a new `BlockPos` with the given `x`, `y`, and `z` values.
    pub fn new(x: i64, y: i64, z: i64) -> (r: Self)
        ensures
            r == (BlockPos { x, y, z }),
    {
        BlockPos { x, y, z }
    }

    /// Create a new `BlockPos` with the given value as `x`, `y` and `z`.
    pub fn splat(v: i64) -> (r: Self)
        ensures
            r == (BlockPos { x: v, y: v, z: v }),
    {
        BlockPos { x: v, y: v, z: v }
    }

    /// Returns a new `BlockPos` shifted `offset` blocks to the south (positive z).
    pub fn south(&self, offset: i64) -> (r: Self)
        requires
            i64::MIN <= self.z + offset <= i64::MAX,
        ensures
            r == (BlockPos { x: self.x, y: self.y, z: (self.z + offset) as i64 }),
    {
        BlockPos { x: self.x, y: self.y, z: self.z + offset }
    }

    /// Returns a new `BlockPos` shifted `offset` blocks to the north (negative z).
    pub fn north(&self, offset: i64) -> (r: Self)
        requires
            i64::MIN <= self.z - offset <= i64::MAX,
        ensures
            r == (BlockPos { x: self.x, y: self.y, z: (self.z - offset) as i64 }),
    {
        BlockPos { x: self.x, y: self.y, z: self.z - offset }
    }

    /// Returns a new `BlockPos` shifted `offset` blocks up (positive y).
    pub fn up(&self, offset: i64) -> (r: Self)
        requires
            i64::MIN <= self.y + offset <= i64::MAX,
        ensures
            r == (BlockPos { x: self.x, y: (self.y + offset) as i64, z: self.z }),
    {
        BlockPos { x: self.x, y: self.y + offset, z: self.z }
    }

    /// Returns a new `BlockPos` shifted `offset` blocks down (negative y).
    pub fn down(&self, offset: i64) -> (r: Self)
        requires
            i64::MIN <= self.y - offset <= i64::MAX,
        ensures
            r == (BlockPos { x: self.x, y: (self.y - offset) as i64, z: self.z }),
    {
        BlockPos { x: self.x, y: self.y - offset, z: self.z }
    }

    /// Returns a new `BlockPos` shifted `offset` blocks to the east (positive x).
    pub fn east(&self, offset: i64) -> (r: Self)
        requires
            i64::MIN <= self.x + offset <= i64::MAX,
        ensures
            r == (BlockPos { x: (self.x + offset) as i64, y: self.y, z: self.z }),
    {
        BlockPos { x: self.x + offset, y: self.y, z: self.z }
    }

    /// Returns a new `BlockPos` shifted `offset` blocks to the west (negative x).
    pub fn west(&self, offset: i64) -> (r: Self)
        requires
            i64::MIN <= self.x - offset <= i64::MAX,
        ensures
            r == (BlockPos { x: (self.x - offset) as i64, y: self.y, z: self.z }),
    {
        BlockPos { x: self.x - offset, y: self.y, z: self.z }
    }

    /// Gets the `ChunkPos` that this `BlockPos` falls in.
    ///
    /// Chunk coordinates are the block coordinates divided by 16, rounding
    /// toward zero; they must fit in an `i32`.
    pub fn chunk(&self) -> (r: ChunkPos)
        requires
            -0x8_0000_0000_0 <= self.x < 0x8_0000_0000_0,
            -0x8_0000_0000_0 <= self.z < 0x8_0000_0000_0,
        ensures
            r == (ChunkPos { x: div16_trunc(self.x as int) as i32, z: div16_trunc(self.z as int) as i32 }),
    {
        let cx: i64 = if self.x >= 0 {
            self.x / 16
        } else {
            -((-self.x) / 16)
        };
        let cz: i64 = if self.z >= 0 {
            self.z / 16
        } else {
            -((-self.z) / 16)
        };
        ChunkPos { x: cx as i32, z: cz as i32 }
    }
}


/// The category that a played sound falls into.
///
/// Each category has its own volume slider in the player's option menu.
#[derive(Clone, Copy, Debug, PartialEq, Eq, Structural, Hash)]
pub enum SoundCategory {
    /// The `Master` volume control also affects the volumes of the other categories.
    /// Generally, only use `Master` for the most important sounds.
    Master,
    /// `Music` is used for the in-game music.
    /// A lot of players have this category muted. Consider using `Records` instead.
    Music,
    /// `Records` is used for note blocks and jukeboxes.
    /// This is a good substitute for `Music`.
    Records,
    /// `Weather` is used for rain and thunder.
    Weather,
    /// `Blocks` is used for block placement, breaking, and other block behaviours.
    Blocks,
    /// `Hostile` is used for hostile mobs for idle, attack, movement, and other actions.
    Hostile,
    /// `Neutral` is used for neutral mobs for idle, attack, movement, and other actions.
    Neutral,
    /// `Players` is used for players actions.
    Players,
    /// `Ambient` is used for ambient noises such as cave noises.
    Ambient,
    /// `Voice` is used for voices.
    Voice,
}

impl SoundCategory {
    /// The numeric code of this category on the foreign-call surface.
    pub fn code(&self) -> (r: u32)
        ensures
            r == match self {
                SoundCategory::Master => 0u32,
                SoundCategory::Music => 1u32,
                SoundCategory::Records => 2u32,
                SoundCategory::Weather => 3u32,
                SoundCategory::Blocks => 4u32,
                SoundCategory::Hostile => 5u32,
                SoundCategory::Neutral => 6u32,
                SoundCategory::Players => 7u32,
                SoundCategory::Ambient => 8u32,
                SoundCategory::Voice => 9u32,
            },
    {
        match self {
            SoundCategory::Master => 0,
            SoundCategory::Music => 1,
            SoundCategory::Records => 2,
            SoundCategory::Weather => 3,
            SoundCategory::Blocks => 4,
            SoundCategory::Hostile => 5,
            SoundCategory::Neutral => 6,
            SoundCategory::Players => 7,
            SoundCategory::Ambient => 8,
            SoundCategory::Voice => 9,
        }
    }
}

/// A UTF-8 encoding is at least one and at most four bytes per character.
pub proof fn lemma_encode_utf8_len_bounds(s: Seq<char>)
    ensures
        s.len() <= encode_utf8(s).len() <= 4 * s.len(),
    decreases s.len(),
{
    if s.len() == 0 {
    } else {
        lemma_encode_utf8_len_bounds(s.drop_first());
        assert(1 <= vstd::utf8::encode_scalar(s[0] as u32).len() <= 4);
    }
}

/// The largest character count accepted for block ids and state strings: it
/// keeps the UTF-8 byte length within the wire format's 4-byte length prefix.
pub const MAX_WIRE_STR_CHARS: usize = 0x3FFF_FFFF;

/// The mathematical content of a [`Block`]: its material id and its ordered
/// state pairs, as character sequences.
pub ghost struct BlockView {
    /// The material id.
    pub id: Seq<char>,
    /// The (key, value) state pairs, in the order they were first set.
    pub states: Seq<(Seq<char>, Seq<char>)>,
}

/// Whether the state sequence `s` holds a pair whose key is `k`.
pub open spec fn has_state_key(s: Seq<(Seq<char>, Seq<char>)>, k: Seq<char>) -> bool {
    exists|i: int| 0 <= i < s.len() && s[i].0 == k
}

/// Well-formedness of a block's mathematical content: state keys are
/// distinct, at most 15 states are set, and every string fits the wire
/// format's 4-byte length prefix once UTF-8 encoded.
pub open spec fn block_view_wf(b: BlockView) -> bool {
    &&& encode_utf8(b.id).len() <= u32::MAX
    &&& b.states.len() <= 15
    &&& (forall|i: int, j: int|
        0 <= i < j < b.states.len() ==> b.states[i].0 != b.states[j].0)
    &&& (forall|i: int|
        0 <= i < b.states.len() ==> encode_utf8(#[trigger] b.states[i].0).len() <= u32::MAX
            && encode_utf8(b.states[i].1).len() <= u32::MAX)
}

/// A world block, including material and states.
///
/// A block holds at most 15 states; setting a 16th distinct state key is a
/// caller contract violation and is rejected at the point of mutation.
pub struct Block {
    id: String,
    states: Vec<(String, String)>,
}

impl View for Block {
    type V = BlockView;

    closed spec fn view(&self) -> BlockView {
        BlockView {
            id: self.id@,
            states: Seq::new(self.states@.len(), |i: int| (self.states@[i].0@, self.states@[i].1@)),
        }
    }
}

impl Block {
    /// Every block is well formed.
    #[verifier::type_invariant]
    pub open spec fn inv(self) -> bool {
        block_view_wf(self@)
    }

    /// Create a new block from a given block material ID.
    pub fn new(id: &str) -> (r: Self)
        requires
            id@.len() <= MAX_WIRE_STR_CHARS,
        ensures
            r@.id == id@,
            r@.states.len() == 0,
    {
        proof {
            lemma_encode_utf8_len_bounds(id@);
        }
        let r = Block { id: id.to_owned(), states: Vec::new() };
        proof {
            assert(r@.states =~= Seq::<(Seq<char>, Seq<char>)>::empty());
        }
        r
    }

    /// Returns the material ID of this block.
    pub fn id(&self) -> (r: &str)
        ensures
            r@ == self@.id,
    {
        self.id.as_str()
    }

    /// Sets a property of this block: the value under an already-set key is
    /// replaced in place, a new key is appended.
    ///
    /// For a variant of this function which returns `self` see [`Self::with`].
    #[verifier::loop_isolation(false)]
    pub fn set(&mut self, state: &str, value: &str)
        requires
            old(self)@.states.len() < 15 || has_state_key(old(self)@.states, state@),
            state@.len() <= MAX_WIRE_STR_CHARS,
            value@.len() <= MAX_WIRE_STR_CHARS,
        ensures
            final(self)@.id == old(self)@.id,
            if has_state_key(old(self)@.states, state@) {
                exists|i: int|
                    0 <= i < old(self)@.states.len() && old(self)@.states[i].0 == state@
                        && final(self)@.states == old(self)@.states.update(
                        i,
                        (state@, value@),
                    )
            } else {
                final(self)@.states == old(self)@.states.push((state@, value@))
            },
    {
        proof {
            use_type_invariant(&*self);
            lemma_encode_utf8_len_bounds(state@);
            lemma_encode_utf8_len_bounds(value@);
        }
        let key = state.to_owned();
        let mut i: usize = 0;
        while i < self.states.len()
            invariant
                *self == *old(self),
                key@ == state@,
                i <= self.states@.len(),
                forall|k: int| 0 <= k < i ==> self@.states[k].0 != state@,
            decreases self.states@.len() - i,
        {
            if self.states[i].0 == key {
                let mut states: Vec<(String, String)> = Vec::new();
                core::mem::swap(&mut states, &mut self.states);
                states[i] = (key, value.to_owned());
                proof {
                    let v = Seq::new(
                        states@.len(),
                        |k: int| (states@[k].0@, states@[k].1@),
                    );
                    assert(v =~= old(self)@.states.update(i as int, (state@, value@)));
                    assert(block_view_wf(BlockView { id: self.id@, states: v }));
                }
                core::mem::swap(&mut self.states, &mut states);
                proof {
                    assert(final(self)@.states =~= old(self)@.states.update(
                        i as int,
                        (state@, value@),
                    ));
                }
                return ;
            }
            i += 1;
        }
        let mut states: Vec<(String, String)> = Vec::new();
        core::mem::swap(&mut states, &mut self.states);
        states.push((key, value.to_owned()));
        proof {
            let v = Seq::new(states@.len(), |k: int| (states@[k].0@, states@[k].1@));
            assert(v =~= old(self)@.states.push((state@, value@)));
            assert(block_view_wf(BlockView { id: self.id@, states: v }));
        }
        core::mem::swap(&mut self.states, &mut states);
        proof {
            assert(final(self)@.states =~= old(self)@.states.push((state@, value@)));
        }
    }

    /// Sets a property of this block.
    ///
    /// For a variant of this function which mutates `self` see [`Self::set`].
    pub fn with(self, state: &str, value: &str) -> (r: Self)
        requires
            self@.states.len() < 15 || has_state_key(self@.states, state@),
            state@.len() <= MAX_WIRE_STR_CHARS,
            value@.len() <= MAX_WIRE_STR_CHARS,
        ensures
            r@.id == self@.id,
            if has_state_key(self@.states, state@) {
                exists|i: int|
                    0 <= i < self@.states.len() && self@.states[i].0 == state@ && r@.states
                        == self@.states.update(i, (state@, value@))
            } else {
                r@.states == self@.states.push((state@, value@))
            },
    {
        let mut r = self;
        r.set(state, value);
        r
    }

    /// Returns a property of this block if set.
    #[verifier::loop_isolation(false)]
    pub fn get(&self, state: &str) -> (r: Option<&str>)
        ensures
            match r {
                Some(v) => exists|i: int|
                    0 <= i < self@.states.len() && self@.states[i] == (state@, v@),
                None => !has_state_key(self@.states, state@),
            },
    {
        let key = state.to_owned();
        let mut i: usize = 0;
        while i < self.states.len()
            invariant
                key@ == state@,
                i <= self.states@.len(),
                forall|k: int| 0 <= k < i ==> self@.states[k].0 != state@,
            decreases self.states@.len() - i,
        {
            if self.states[i].0 == key {
                let v = self.states[i].1.as_str();
                proof {
                    assert(self@.states[i as int] == (state@, v@));
                }
                return Some(v);
            }
            i += 1;
        }
        None
    }

    /// Returns the number of states set on this block.
    pub fn states_len(&self) -> (r: usize)
        ensures
            r == self@.states.len(),
    {
        self.states.len()
    }

    /// Returns this block's states, in order.
    pub fn states(&self) -> (r: &Vec<(String, String)>)
        ensures
            r@.len() == self@.states.len(),
            forall|i: int|
                0 <= i < r@.len() ==> (#[trigger] r@[i].0@, r@[i].1@) == self@.states[i],
    {
        &self.states
    }
}

} // verus!
