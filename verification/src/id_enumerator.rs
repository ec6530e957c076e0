use crate::hresult::{HRESULT, S_FALSE, S_OK};
use crate::itemidlist::{chain_wire, representable, ItemIdList};
use vstd::prelude::*;

verus! {

/// What a cursor is: a place in a listing that it only reads.
pub struct Cursor {
    /// How many chains of the listing lie behind the cursor.
    pub position: nat,
    /// The listing, each chain as its segments' payloads.
    pub snapshot: Seq<Seq<Seq<u8>>>,
}

impl Cursor {
    /// How many chains are left to hand out; none once the position is at or
    /// past the end.
    pub open spec fn remaining(self) -> nat {
        if self.position < self.snapshot.len() {
            (self.snapshot.len() - self.position) as nat
        } else {
            0
        }
    }

    /// The cursor after skipping `n` chains: the position, a 32-bit counter,
    /// moves on by `n` and wraps round at 2^32.
    pub open spec fn skipped(self, n: nat) -> Cursor {
        Cursor { position: ((self.position + n) % 0x1_0000_0000) as nat, snapshot: self.snapshot }
    }

    /// The cursor back at the start of its listing.
    pub open spec fn rewound(self) -> Cursor {
        Cursor { position: 0, snapshot: self.snapshot }
    }

    /// Whether `k` is the number of chains that a fetch of `n` hands out: as
    /// many as asked for and left, up to the first chain that has no byte
    /// layout.
    pub open spec fn fetches(self, n: nat, k: nat) -> bool {
        &&& k <= n
        &&& k <= self.remaining()
        &&& forall|i: int| 0 <= i < k ==> representable(#[trigger] self.snapshot[self.position + i])
        &&& k == n || k == self.remaining() || !representable(self.snapshot[(self.position + k) as int])
    }
}

/// A fetch hands out one number of chains and no other.
pub proof fn lemma_fetch_count_unique(cursor: Cursor, n: nat, k1: nat, k2: nat)
    requires
        cursor.fetches(n, k1),
        cursor.fetches(n, k2),
    ensures
        k1 == k2,
{
    if k1 < k2 {
        assert(representable(cursor.snapshot[(cursor.position + k1) as int]));
    } else if k2 < k1 {
        assert(representable(cursor.snapshot[(cursor.position + k2) as int]));
    }
}

/// Over a listing in which every chain has a byte layout, a fetch hands out
/// as many chains as were asked for, or all that are left if those are fewer.
/// At or past the end that is none.
pub proof fn lemma_fetch_count(cursor: Cursor, n: nat, k: nat)
    requires
        forall|i: int| 0 <= i < cursor.snapshot.len() ==> representable(#[trigger] cursor.snapshot[i]),
    ensures
        cursor.fetches(n, k) <==> k == (if n <= cursor.remaining() {
            n
        } else {
            cursor.remaining()
        }),
{
    if cursor.fetches(n, k) && k != n && k != cursor.remaining() {
        assert(representable(cursor.snapshot[(cursor.position + k) as int]));
    }
}

/// A clone is a cursor of its own over the same listing. Skipping moves the
/// cursor that skips and no other, resetting puts the cursor that is reset
/// back to the start and no other: a step changes the value it is taken on,
/// and what it yields depends on that value alone, so that a cursor and its
/// clone go the same way under the same steps, and each keeps its place
/// while the other moves.
pub proof fn lemma_clone_is_independent(cursor: Cursor, fork: Cursor, n: nat)
    requires
        fork == cursor,
    ensures
        fork.skipped(n).snapshot == cursor.snapshot,
        fork.skipped(n).position == (cursor.position + n) % 0x1_0000_0000,
        fork.skipped(n) == cursor.skipped(n),
        fork.rewound().position == 0,
        fork.rewound().snapshot == cursor.snapshot,
        fork.skipped(n).rewound() == cursor.rewound(),
{
}

/// The chains of a listing, each as its segments' payloads.
pub open spec fn listing<'a>(list: Seq<ItemIdList<'a>>) -> Seq<Seq<Seq<u8>>> {
    Seq::new(list.len(), |i: int| list[i]@)
}

/// A cursor that pages through a listing of chains which it neither owns nor
/// changes. It stays usable after the end is reached.
pub struct EnumIdList<'a> {
    index: u32,
    list: &'a [ItemIdList<'a>],
}

impl<'a> View for EnumIdList<'a> {
    type V = Cursor;

    closed spec fn view(&self) -> Cursor {
        Cursor { position: self.index as nat, snapshot: listing(self.list@) }
    }
}

impl<'a> Clone for EnumIdList<'a> {
    /// A second cursor over the same listing, at the same position. From then
    /// on the two move independently.
    fn clone(&self) -> (r: Self)
        ensures
            r@ == self@,
    {
        EnumIdList { index: self.index, list: self.list }
    }
}

impl<'a> EnumIdList<'a> {
    /// A cursor at the start of `list`.
    pub fn new(list: &'a [ItemIdList<'a>]) -> (r: Self)
        ensures
            r@ == (Cursor { position: 0, snapshot: listing(list@) }),
    {
        EnumIdList { index: 0, list }
    }

    /// How many chains lie behind the cursor.
    pub fn position(&self) -> (r: u32)
        ensures
            r == self@.position,
    {
        self.index
    }

    /// The listing that the cursor pages through.
    pub fn snapshot(&self) -> (r: &'a [ItemIdList<'a>])
        ensures
            listing(r@) == self@.snapshot,
    {
        self.list
    }

    /// Hands out the byte layouts of the next chains, at most `celt` of them,
    /// and moves the position past them. The status is success when all
    /// `celt` were handed out, and the negative success when the listing ran
    /// out first, which is the end-of-listing signal and no failure. A chain
    /// that has no byte layout ends the fetch in front of it.
    pub fn next(&mut self, celt: u32) -> (r: (Vec<Vec<u8>>, HRESULT))
        ensures
            old(self)@.fetches(celt as nat, r.0@.len()),
            forall|i: int|
                0 <= i < r.0@.len() ==> (#[trigger] r.0@[i])@ == chain_wire(
                    old(self)@.snapshot[old(self)@.position + i],
                ),
            final(self)@ == old(self)@.skipped(r.0@.len()),
            r.1 == (if r.0@.len() == celt {
                HRESULT(S_OK)
            } else {
                HRESULT(S_FALSE)
            }),
    {
        let start = self.index as usize;
        let len = self.list.len();
        let left = if start < len {
            len - start
        } else {
            0
        };
        let mut items: Vec<Vec<u8>> = Vec::new();
        let mut fetched: u32 = 0;
        let mut blocked = false;
        while !blocked && fetched < celt && (fetched as usize) < left
            invariant
                start == self.index,
                len == self.list@.len(),
                *self == *old(self),
                left == self@.remaining(),
                fetched <= celt,
                fetched <= left,
                items@.len() == fetched,
                forall|i: int| 0 <= i < fetched ==> representable(#[trigger] self.list@[start + i]@),
                forall|i: int|
                    0 <= i < fetched ==> (#[trigger] items@[i])@ == chain_wire(
                        self.list@[start + i]@,
                    ),
                blocked ==> fetched < left && !representable(self.list@[start + fetched]@),
            decreases (if blocked { 0int } else { 1int }), celt - fetched,
        {
            let chain = &self.list[start + fetched as usize];
            match chain.encode_with(Some(Vec::new())) {
                Ok(bytes) => {
                    items.push(bytes);
                    fetched = fetched + 1;
                },
                Err(_) => {
                    blocked = true;
                },
            }
        }
        self.index = self.index.wrapping_add(fetched);
        let status = if fetched == celt {
            HRESULT(S_OK)
        } else {
            HRESULT(S_FALSE)
        };
        (items, status)
    }

    /// Moves the position on by `celt` chains without handing anything out.
    /// Nothing keeps the position within the listing: past the end every
    /// fetch reports the end. The position wraps round at 2^32.
    pub fn skip(&mut self, celt: u32) -> (r: HRESULT)
        ensures
            final(self)@ == old(self)@.skipped(celt as nat),
            r == HRESULT(S_OK),
    {
        self.index = self.index.wrapping_add(celt);
        HRESULT(S_OK)
    }

    /// Puts the position back to the start, wherever it was.
    pub fn reset(&mut self) -> (r: HRESULT)
        ensures
            final(self)@ == old(self)@.rewound(),
            r == HRESULT(S_OK),
    {
        self.index = 0;
        HRESULT(S_OK)
    }
}

} // verus!
