//! Bulk world mutations: the block-batch accumulator and its wire encoding.
//!
//! A [`BatchSet`] maps 3D block coordinates to block descriptors with
//! last-write-wins semantics, keeps its entries in coordinate order, and
//! [`BatchSet::encode`] lays them out in the exact binary format the host
//! expects for one bulk-mutation call. An empty batch encodes to nothing:
//! the host must not be called at all for it.

use vstd::prelude::*;
use vstd::bytes::{spec_u32_to_le_bytes, spec_u64_to_le_bytes, u32_to_le_bytes, u64_to_le_bytes};
use vstd::utf8::encode_utf8;
use vstd::slice::slice_to_vec;
use crate::data::{Block, BlockPos, BlockView, block_view_wf};

verus! {

/// Strict ordering of block positions: lexicographic over (x, y, z).
pub open spec fn pos_lt(a: BlockPos, b: BlockPos) -> bool {
    ||| a.x < b.x
    ||| (a.x == b.x && a.y < b.y)
    ||| (a.x == b.x && a.y == b.y && a.z < b.z)
}

/// Whether the entry sequence `e` holds an entry at coordinate `pos`.
pub open spec fn has_pos(e: Seq<(BlockPos, BlockView)>, pos: BlockPos) -> bool {
    exists|i: int| 0 <= i < e.len() && e[i].0 == pos
}

/// Entries are in strictly increasing coordinate order (hence coordinates
/// are unique).
pub open spec fn entries_sorted(e: Seq<(BlockPos, BlockView)>) -> bool {
    forall|i: int, j: int| 0 <= i < j < e.len() ==> pos_lt(#[trigger] e[i].0, #[trigger] e[j].0)
}

/// Well-formedness of a batch's entries: in order, within the wire format's
/// 4-byte entry count, and every descriptor well formed.
pub open spec fn entries_wf(e: Seq<(BlockPos, BlockView)>) -> bool {
    &&& e.len() <= u32::MAX
    &&& entries_sorted(e)
    &&& forall|i: int| 0 <= i < e.len() ==> block_view_wf((#[trigger] e[i]).1)
}

/// The coordinate-to-descriptor mapping an entry sequence holds; a later
/// entry for the same coordinate wins.
pub open spec fn map_of(e: Seq<(BlockPos, BlockView)>) -> Map<BlockPos, BlockView>
    decreases e.len(),
{
    if e.len() == 0 {
        Map::empty()
    } else {
        map_of(e.drop_last()).insert(e.last().0, e.last().1)
    }
}

/// The unsigned 64-bit pattern of a signed coordinate (two's complement).
pub open spec fn u64_of_i64(x: i64) -> u64 {
    if x >= 0 {
        x as u64
    } else {
        (x + 0x1_0000_0000_0000_0000) as u64
    }
}

/// A coordinate on the wire: 8 bytes, little endian, two's complement.
pub open spec fn le64(x: i64) -> Seq<u8> {
    spec_u64_to_le_bytes(u64_of_i64(x))
}

/// A string on the wire: 4-byte little-endian byte length, then the UTF-8
/// bytes.
pub open spec fn str_bytes(s: Seq<char>) -> Seq<u8> {
    spec_u32_to_le_bytes(encode_utf8(s).len() as u32) + encode_utf8(s)
}

/// State pairs on the wire: length-prefixed key, then length-prefixed value,
/// pair by pair in order.
pub open spec fn states_bytes(s: Seq<(Seq<char>, Seq<char>)>) -> Seq<u8>
    decreases s.len(),
{
    if s.len() == 0 {
        Seq::empty()
    } else {
        states_bytes(s.drop_last()) + str_bytes(s.last().0) + str_bytes(s.last().1)
    }
}

/// One record on the wire: signed little-endian x, y, z, the length-prefixed
/// block id, a 1-byte state count, then the state pairs.
pub open spec fn record_bytes(pos: BlockPos, b: BlockView) -> Seq<u8> {
    le64(pos.x) + le64(pos.y) + le64(pos.z) + str_bytes(b.id) + seq![b.states.len() as u8]
        + states_bytes(b.states)
}

/// All records of a batch, in entry order.
pub open spec fn records_bytes(e: Seq<(BlockPos, BlockView)>) -> Seq<u8>
    decreases e.len(),
{
    if e.len() == 0 {
        Seq::empty()
    } else {
        records_bytes(e.drop_last()) + record_bytes(e.last().0, e.last().1)
    }
}

/// The wire layout of a batch: 4-byte little-endian entry count, then one
/// record per entry in the batch's coordinate order.
pub open spec fn wire_bytes(e: Seq<(BlockPos, BlockView)>) -> Seq<u8> {
    spec_u32_to_le_bytes(e.len() as u32) + records_bytes(e)
}

/// Whether `a` comes strictly before `b` in coordinate order.
fn pos_lt_exec(a: &BlockPos, b: &BlockPos) -> (r: bool)
    ensures
        r == pos_lt(*a, *b),
{
    if a.x != b.x {
        a.x < b.x
    } else if a.y != b.y {
        a.y < b.y
    } else {
        a.z < b.z
    }
}

/// An accumulator for bulk world mutations, keyed by block coordinate.
///
/// Populated by zero or more [`BatchSet::put`] calls and consumed exactly
/// once by encoding and sending; inserting a coordinate already present
/// replaces its descriptor, never merges.
pub struct BatchSet {
    session_id: u64,
    blocks: Vec<(BlockPos, Block)>,
}

impl View for BatchSet {
    type V = Seq<(BlockPos, BlockView)>;

    /// A batch is modelled as its entry sequence, in coordinate order.
    closed spec fn view(&self) -> Seq<(BlockPos, BlockView)> {
        Seq::new(self.blocks@.len(), |i: int| (self.blocks@[i].0, self.blocks@[i].1@))
    }
}

impl BatchSet {
    /// The entries always stay well formed.
    #[verifier::type_invariant]
    pub open spec fn inv(self) -> bool {
        entries_wf(self@)
    }

    /// The coordinate-to-descriptor mapping this batch holds.
    pub open spec fn map_view(&self) -> Map<BlockPos, BlockView> {
        map_of(self@)
    }

    /// The session whose world this batch will mutate.
    pub closed spec fn spec_session_id(&self) -> u64 {
        self.session_id
    }

    /// Creates an empty batch for the world of session `session_id`.
    pub fn new(session_id: u64) -> (r: Self)
        ensures
            r@ == Seq::<(BlockPos, BlockView)>::empty(),
            r.spec_session_id() == session_id,
    {
        let r = BatchSet { session_id, blocks: Vec::new() };
        proof {
            assert(r@ =~= Seq::<(BlockPos, BlockView)>::empty());
        }
        r
    }

    /// The session whose world this batch will mutate.
    pub fn session_id(&self) -> (r: u64)
        ensures
            r == self.spec_session_id(),
    {
        self.session_id
    }

    /// The number of distinct coordinates in this batch.
    pub fn len(&self) -> (r: usize)
        ensures
            r == self@.len(),
    {
        self.blocks.len()
    }

    /// Queue `block` to be placed at `pos`: the descriptor previously queued
    /// for `pos`, if any, is replaced (last write wins).
    #[verifier::loop_isolation(false)]
    pub fn put(&mut self, pos: BlockPos, block: Block)
        requires
            old(self)@.len() < u32::MAX || has_pos(old(self)@, pos),
        ensures
            final(self).spec_session_id() == old(self).spec_session_id(),
            final(self).map_view() == old(self).map_view().insert(pos, block@),
            has_pos(final(self)@, pos),
            final(self)@.len() == if has_pos(old(self)@, pos) {
                old(self)@.len()
            } else {
                old(self)@.len() + 1
            },
    {
        proof {
            use_type_invariant(&*self);
            use_type_invariant(&block);
        }
        let ghost e = self@;
        let mut idx: usize = 0;
        while idx < self.blocks.len() && pos_lt_exec(&self.blocks[idx].0, &pos)
            invariant
                *self == *old(self),
                idx <= e.len(),
                forall|k: int| 0 <= k < idx ==> pos_lt(e[k].0, pos),
            decreases e.len() - idx,
        {
            idx += 1;
        }
        if idx < self.blocks.len() && self.blocks[idx].0 == pos {
            let mut blocks: Vec<(BlockPos, Block)> = Vec::new();
            core::mem::swap(&mut blocks, &mut self.blocks);
            blocks[idx] = (pos, block);
            proof {
                let v = Seq::new(blocks@.len(), |i: int| (blocks@[i].0, blocks@[i].1@));
                assert(v =~= e.update(idx as int, (pos, block@)));
                assert forall|a: int, b: int| 0 <= a < b < v.len() implies pos_lt(
                    v[a].0,
                    v[b].0,
                ) by {
                    assert(pos_lt(e[a].0, e[b].0));
                    assert(v[a].0 == e[a].0 && v[b].0 == e[b].0);
                }
                assert(entries_wf(v));
            }
            core::mem::swap(&mut self.blocks, &mut blocks);
            proof {
                assert(self@ =~= e.update(idx as int, (pos, block@)));
                assert(self@[idx as int].0 == pos);
                lemma_map_of_update(e, idx as int, block@);
            }
        } else {
            proof {
                assert forall|k: int| 0 <= k < e.len() implies e[k].0 != pos by {
                    if k < idx {
                        assert(pos_lt(e[k].0, pos));
                    } else if k > idx {
                        assert(pos_lt(e[idx as int].0, e[k].0));
                        assert(!pos_lt(e[idx as int].0, pos));
                    }
                }
                assert(!has_pos(e, pos));
                assert(e.len() < u32::MAX);
            }
            let mut blocks: Vec<(BlockPos, Block)> = Vec::new();
            core::mem::swap(&mut blocks, &mut self.blocks);
            blocks.insert(idx, (pos, block));
            proof {
                let v = Seq::new(blocks@.len(), |i: int| (blocks@[i].0, blocks@[i].1@));
                assert(v =~= e.subrange(0, idx as int) + seq![(pos, block@)] + e.subrange(
                    idx as int,
                    e.len() as int,
                ));
                if idx < e.len() {
                    assert(!pos_lt(e[idx as int].0, pos) && e[idx as int].0 != pos);
                    assert(pos_lt(pos, e[idx as int].0));
                }
                assert forall|a: int, b: int| 0 <= a < b < v.len() implies pos_lt(
                    v[a].0,
                    v[b].0,
                ) by {
                    if a < idx && b < idx {
                        assert(pos_lt(e[a].0, e[b].0));
                    } else if a < idx && b == idx {
                        assert(pos_lt(e[a].0, pos));
                    } else if a < idx && b > idx {
                        assert(pos_lt(e[a].0, e[b - 1].0));
                    } else if a == idx {
                        assert(pos_lt(pos, e[idx as int].0));
                        if b - 1 > idx {
                            assert(pos_lt(e[idx as int].0, e[b - 1].0));
                        }
                    } else {
                        assert(pos_lt(e[a - 1].0, e[b - 1].0));
                    }
                }
                assert(entries_wf(v));
            }
            core::mem::swap(&mut self.blocks, &mut blocks);
            proof {
                assert(self@ =~= e.subrange(0, idx as int) + seq![(pos, block@)] + e.subrange(
                    idx as int,
                    e.len() as int,
                ));
                assert(self@[idx as int].0 == pos);
                lemma_map_of_insert_at(e, idx as int, pos, block@);
            }
        }
    }

    /// Queue `block` at `pos` and return the batch, for chaining.
    pub fn with(self, pos: BlockPos, block: Block) -> (r: Self)
        requires
            self@.len() < u32::MAX || has_pos(self@, pos),
        ensures
            r.spec_session_id() == self.spec_session_id(),
            r.map_view() == self.map_view().insert(pos, block@),
            has_pos(r@, pos),
            r@.len() == if has_pos(self@, pos) {
                self@.len()
            } else {
                self@.len() + 1
            },
    {
        let mut r = self;
        r.put(pos, block);
        r
    }
}

/// Appends the little-endian bytes of `x` to `out`.
fn push_u32_le(out: &mut Vec<u8>, x: u32)
    ensures
        final(out)@ == old(out)@ + spec_u32_to_le_bytes(x),
{
    let mut b = u32_to_le_bytes(x);
    out.append(&mut b);
}

/// Appends the little-endian bytes of `x` to `out`.
fn push_u64_le(out: &mut Vec<u8>, x: u64)
    ensures
        final(out)@ == old(out)@ + spec_u64_to_le_bytes(x),
{
    let mut b = u64_to_le_bytes(x);
    out.append(&mut b);
}

/// Appends the little-endian two's-complement bytes of `x` to `out`.
fn push_i64_le(out: &mut Vec<u8>, x: i64)
    ensures
        final(out)@ == old(out)@ + le64(x),
{
    let u: u64 = if x >= 0 {
        x as u64
    } else {
        ((x as i128) + 0x1_0000_0000_0000_0000) as u64
    };
    push_u64_le(out, u);
}

/// Appends the length-prefixed UTF-8 bytes of `s` to `out`.
fn push_str(out: &mut Vec<u8>, s: &str)
    requires
        encode_utf8(s@).len() <= u32::MAX,
    ensures
        final(out)@ == old(out)@ + str_bytes(s@),
{
    let bytes: &[u8] = s.as_bytes();
    push_u32_le(out, bytes.len() as u32);
    let mut bv = slice_to_vec(bytes);
    out.append(&mut bv);
}

impl BatchSet {
    /// Encodes this batch in the host's wire layout, or returns `None` for an
    /// empty batch: an empty batch must issue no host call at all, so there
    /// is nothing to encode.
    #[verifier::loop_isolation(false)]
    #[verifier::rlimit(30)]
    pub fn encode(&self) -> (r: Option<Vec<u8>>)
        ensures
            match r {
                Some(v) => self@.len() > 0 && v@ == wire_bytes(self@),
                None => self@.len() == 0,
            },
    {
        proof {
            use_type_invariant(&*self);
        }
        let n = self.blocks.len();
        if n == 0 {
            return None;
        }
        let mut body: Vec<u8> = Vec::new();
        let mut i: usize = 0;
        while i < n
            invariant
                i <= n,
                body@ == records_bytes(self@.subrange(0, i as int)),
            decreases n - i,
        {
            let pos: BlockPos = self.blocks[i].0;
            push_i64_le(&mut body, pos.x);
            push_i64_le(&mut body, pos.y);
            push_i64_le(&mut body, pos.z);
            let block: &Block = &self.blocks[i].1;
            proof {
                assert(block@ == self@[i as int].1);
                assert(block_view_wf(block@));
            }
            push_str(&mut body, block.id());
            let count = block.states_len();
            body.push(count as u8);
            let states: &Vec<(String, String)> = block.states();
            let ghost sv = block@.states;
            let ghost record_prefix = records_bytes(self@.subrange(0, i as int)) + le64(pos.x)
                + le64(pos.y) + le64(pos.z) + str_bytes(block@.id) + seq![(count as u8)];
            proof {
                assert(sv.subrange(0, 0) =~= Seq::<(Seq<char>, Seq<char>)>::empty());
                assert(body@ =~= record_prefix + states_bytes(sv.subrange(0, 0)));
            }
            let mut j: usize = 0;
            while j < count
                invariant
                    j <= count,
                    body@ == record_prefix + states_bytes(sv.subrange(0, j as int)),
                decreases count - j,
            {
                let p = &states[j];
                proof {
                    assert((p.0@, p.1@) == sv[j as int]);
                    assert(p.0@ == sv[j as int].0 && p.1@ == sv[j as int].1);
                    assert(encode_utf8(sv[j as int].0).len() <= u32::MAX);
                    assert(encode_utf8(sv[j as int].1).len() <= u32::MAX);
                }
                push_str(&mut body, p.0.as_str());
                push_str(&mut body, p.1.as_str());
                proof {
                    let pre = sv.subrange(0, j + 1);
                    assert(pre.drop_last() =~= sv.subrange(0, j as int));
                    assert(pre.last() == sv[j as int]);
                    assert(body@ =~= record_prefix + states_bytes(pre));
                }
                j += 1;
            }
            proof {
                assert(sv.subrange(0, count as int) =~= sv);
                let pre = self@.subrange(0, i + 1);
                assert(pre.drop_last() =~= self@.subrange(0, i as int));
                assert(pre.last() == self@[i as int]);
                assert(record_bytes(self@[i as int].0, self@[i as int].1) =~= le64(pos.x) + le64(
                    pos.y,
                ) + le64(pos.z) + str_bytes(block@.id) + seq![(count as u8)] + states_bytes(sv));
                assert(body@ =~= records_bytes(pre));
            }
            i += 1;
        }
        proof {
            assert(self@.subrange(0, n as int) =~= self@);
        }
        let mut out = u32_to_le_bytes(n as u32);
        out.append(&mut body);
        proof {
            assert(out@ =~= wire_bytes(self@));
        }
        Some(out)
    }
}

/// Replacing the descriptor at an existing coordinate updates the mapping at
/// that coordinate alone.
proof fn lemma_map_of_update(e: Seq<(BlockPos, BlockView)>, i: int, v: BlockView)
    requires
        entries_sorted(e),
        0 <= i < e.len(),
    ensures
        map_of(e.update(i, (e[i].0, v))) == map_of(e).insert(e[i].0, v),
    decreases e.len(),
{
    let e2 = e.update(i, (e[i].0, v));
    if i == e.len() - 1 {
        assert(e2.drop_last() =~= e.drop_last());
        assert(map_of(e2) =~= map_of(e).insert(e[i].0, v));
    } else {
        assert(e2.drop_last() =~= e.drop_last().update(i, (e[i].0, v)));
        lemma_map_of_update(e.drop_last(), i, v);
        assert(pos_lt(e[i].0, e.last().0));
        assert(map_of(e2) == map_of(e.drop_last()).insert(e[i].0, v).insert(
            e.last().0,
            e.last().1,
        ));
        assert(map_of(e2) =~= map_of(e).insert(e[i].0, v));
    }
}

/// Inserting an entry at its ordered place at a fresh coordinate inserts
/// that coordinate into the mapping.
proof fn lemma_map_of_insert_at(e: Seq<(BlockPos, BlockView)>, i: int, pos: BlockPos, v: BlockView)
    requires
        entries_sorted(e),
        0 <= i <= e.len(),
        !has_pos(e, pos),
    ensures
        map_of(e.subrange(0, i) + seq![(pos, v)] + e.subrange(i, e.len() as int)) == map_of(
            e,
        ).insert(pos, v),
    decreases e.len(),
{
    let e2 = e.subrange(0, i) + seq![(pos, v)] + e.subrange(i, e.len() as int);
    if i == e.len() {
        assert(e2.drop_last() =~= e);
        assert(e2.last() == (pos, v));
        assert(map_of(e2) == map_of(e).insert(pos, v));
    } else {
        assert(e2.last() == e.last());
        assert(e2.drop_last() =~= e.drop_last().subrange(0, i) + seq![(pos, v)]
            + e.drop_last().subrange(i, e.len() - 1));
        assert(!has_pos(e.drop_last(), pos)) by {
            if has_pos(e.drop_last(), pos) {
                let k = choose|k: int| 0 <= k < e.drop_last().len() && e.drop_last()[k].0 == pos;
                assert(e[k].0 == pos);
            }
        }
        lemma_map_of_insert_at(e.drop_last(), i, pos, v);
        assert(e.last().0 != pos) by {
            if e.last().0 == pos {
                assert(e[e.len() - 1].0 == pos);
            }
        }
        assert(map_of(e2) == map_of(e.drop_last()).insert(pos, v).insert(
            e.last().0,
            e.last().1,
        ));
        assert(map_of(e2) =~= map_of(e).insert(pos, v));
    }
}

/// A coordinate is in the mapping exactly when some entry holds it.
proof fn lemma_map_of_dom(e: Seq<(BlockPos, BlockView)>)
    ensures
        forall|k: BlockPos| #[trigger] map_of(e).contains_key(k) <==> has_pos(e, k),
    decreases e.len(),
{
    if e.len() == 0 {
    } else {
        lemma_map_of_dom(e.drop_last());
        assert forall|k: BlockPos| #[trigger] map_of(e).contains_key(k) <==> has_pos(e, k) by {
            if map_of(e).contains_key(k) {
                if k == e.last().0 {
                    assert(e[e.len() - 1].0 == k);
                } else {
                    assert(map_of(e.drop_last()).contains_key(k));
                    assert(has_pos(e.drop_last(), k));
                    let i = choose|i: int|
                        0 <= i < e.drop_last().len() && e.drop_last()[i].0 == k;
                    assert(e.drop_last()[i] == e[i]);
                    assert(e[i].0 == k);
                }
            }
            if has_pos(e, k) {
                let i = choose|i: int| 0 <= i < e.len() && e[i].0 == k;
                if i < e.len() - 1 {
                    assert(e.drop_last()[i] == e[i]);
                    assert(e.drop_last()[i].0 == k);
                    assert(has_pos(e.drop_last(), k));
                    assert(map_of(e.drop_last()).contains_key(k));
                }
            }
        }
    }
}

/// In an ordered entry sequence, the mapping sends each entry's coordinate to
/// that entry's descriptor.
proof fn lemma_map_of_index(e: Seq<(BlockPos, BlockView)>, i: int)
    requires
        entries_sorted(e),
        0 <= i < e.len(),
    ensures
        map_of(e).contains_key(e[i].0),
        map_of(e)[e[i].0] == e[i].1,
    decreases e.len(),
{
    if i == e.len() - 1 {
    } else {
        assert(entries_sorted(e.drop_last()));
        assert(e.drop_last()[i] == e[i]);
        lemma_map_of_index(e.drop_last(), i);
        assert(pos_lt(e[i].0, e.last().0));
    }
}

/// Ordered entry sequences with the same mapping are the same sequence.
proof fn lemma_sorted_map_eq(a: Seq<(BlockPos, BlockView)>, b: Seq<(BlockPos, BlockView)>)
    requires
        entries_sorted(a),
        entries_sorted(b),
        map_of(a) == map_of(b),
    ensures
        a == b,
    decreases a.len(),
{
    lemma_map_of_dom(a);
    lemma_map_of_dom(b);
    if a.len() == 0 && b.len() == 0 {
        assert(a =~= b);
    } else if a.len() == 0 {
        assert(b[b.len() - 1].0 == b.last().0);
        assert(map_of(b).contains_key(b.last().0));
        assert(false);
    } else if b.len() == 0 {
        assert(a[a.len() - 1].0 == a.last().0);
        assert(map_of(a).contains_key(a.last().0));
        assert(false);
    } else {
        let ka = a.last().0;
        let kb = b.last().0;
        assert(a[a.len() - 1].0 == ka);
        assert(map_of(b).contains_key(ka));
        let j = choose|j: int| 0 <= j < b.len() && b[j].0 == ka;
        if j < b.len() - 1 {
            assert(pos_lt(b[j].0, kb));
        }
        assert(b[b.len() - 1].0 == kb);
        assert(map_of(a).contains_key(kb));
        let j2 = choose|j2: int| 0 <= j2 < a.len() && a[j2].0 == kb;
        if j2 < a.len() - 1 {
            assert(pos_lt(a[j2].0, ka));
        }
        assert(ka == kb);
        lemma_map_of_index(a, a.len() - 1);
        lemma_map_of_index(b, b.len() - 1);
        assert(a.last().1 == map_of(a)[ka]);
        assert(b.last().1 == map_of(b)[kb]);
        assert(a.last() == b.last());
        assert(!has_pos(a.drop_last(), ka)) by {
            if has_pos(a.drop_last(), ka) {
                let i = choose|i: int|
                    0 <= i < a.drop_last().len() && a.drop_last()[i].0 == ka;
                assert(pos_lt(a[i].0, ka));
            }
        }
        assert(!has_pos(b.drop_last(), kb)) by {
            if has_pos(b.drop_last(), kb) {
                let i = choose|i: int|
                    0 <= i < b.drop_last().len() && b.drop_last()[i].0 == kb;
                assert(pos_lt(b[i].0, kb));
            }
        }
        lemma_map_of_dom(a.drop_last());
        lemma_map_of_dom(b.drop_last());
        assert(map_of(a.drop_last()) =~= map_of(a).remove(ka));
        assert(map_of(b.drop_last()) =~= map_of(b).remove(kb));
        assert(entries_sorted(a.drop_last()));
        assert(entries_sorted(b.drop_last()));
        lemma_sorted_map_eq(a.drop_last(), b.drop_last());
        assert(a.drop_last() == b.drop_last());
        assert(a.len() == b.len());
        assert forall|i: int| 0 <= i < a.len() implies a[i] == b[i] by {
            if i < a.len() - 1 {
                assert(a.drop_last()[i] == a[i]);
                assert(b.drop_last()[i] == b[i]);
            } else {
                assert(a.last() == b.last());
            }
        }
        assert(a =~= b);
    }
}

/// Law: the last write wins. Queueing a descriptor at a coordinate and then
/// another at the same coordinate leaves the mapping exactly as if only the
/// later one had been queued: the earlier descriptor is replaced, never
/// merged, so the encoding holds one record for the coordinate, encoding the
/// later descriptor.
pub proof fn lemma_last_write_wins(
    m: Map<BlockPos, BlockView>,
    pos: BlockPos,
    d1: BlockView,
    d2: BlockView,
)
    ensures
        m.insert(pos, d1).insert(pos, d2) == m.insert(pos, d2),
{
    assert(m.insert(pos, d1).insert(pos, d2) =~= m.insert(pos, d2));
}

/// Law: the wire encoding of a batch is a pure function of its final
/// coordinate-to-descriptor mapping. Two batches that hold the same mapping
/// — whatever order of `put` calls produced each — hold the same ordered
/// entries and encode to byte-identical output.
pub proof fn lemma_encoding_determined_by_map(a: BatchSet, b: BatchSet)
    requires
        a.inv(),
        b.inv(),
        a.map_view() == b.map_view(),
    ensures
        a@ == b@,
        wire_bytes(a@) == wire_bytes(b@),
{
    lemma_sorted_map_eq(a@, b@);
}

} // verus!
