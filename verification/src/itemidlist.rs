use crate::error::CodecError;
use crate::item_id::{parse_record, prefix_value, ItemId, Record, MAX_PAYLOAD_LEN};
use crate::wide::{memory_bytes, utf16, wide_bytes};
use std::borrow::Cow;
use std::ops::Deref;
use vstd::prelude::*;
use vstd::std_specs::convert::FromSpecImpl;

verus! {

/// Whether every segment of the chain is short enough for its length prefix.
pub open spec fn representable(chain: Seq<Seq<u8>>) -> bool {
    forall|i: int| 0 <= i < chain.len() ==> (#[trigger] chain[i]).len() <= MAX_PAYLOAD_LEN
}

/// The chain's byte layout: each segment's record in order, then the
/// terminator.
pub open spec fn chain_wire(chain: Seq<Seq<u8>>) -> Seq<u8>
    decreases chain.len(),
{
    if chain.len() == 0 {
        Record::Terminator.wire()
    } else {
        Record::Segment(chain[0]).wire() + chain_wire(chain.drop_first())
    }
}

/// The size of the chain's byte layout: two bytes more than each payload,
/// and two for the terminator.
pub open spec fn wire_len(chain: Seq<Seq<u8>>) -> nat
    decreases chain.len(),
{
    if chain.len() == 0 {
        2
    } else {
        chain[0].len() + 2 + wire_len(chain.drop_first())
    }
}

/// The chain whose records start at `offset` in `buffer`: the payloads of the
/// records up to the first terminator, if all of them lie within the buffer.
pub open spec fn parse_chain(buffer: Seq<u8>, offset: int) -> Option<Seq<Seq<u8>>>
    decreases buffer.len() - offset,
{
    match parse_record(buffer, offset) {
        None => None,
        Some(Record::Terminator) => Some(Seq::empty()),
        Some(Record::Segment(payload)) => match parse_chain(buffer, offset + payload.len() + 2) {
            None => None,
            Some(rest) => Some(seq![payload] + rest),
        },
    }
}

/// `front` followed by what `rest` holds, if it holds a chain.
pub open spec fn extend_chain(front: Seq<Seq<u8>>, rest: Option<Seq<Seq<u8>>>) -> Option<
    Seq<Seq<u8>>,
> {
    match rest {
        None => None,
        Some(tail) => Some(front + tail),
    }
}

/// The payloads that a vector of segments holds, in order.
pub open spec fn payloads<'a>(segments: Seq<Cow<'a, [u8]>>) -> Seq<Seq<u8>> {
    Seq::new(segments.len(), |i: int| segments[i]@)
}

/// A chain of path segments, from the root down. A segment is either a view
/// into a buffer that someone else owns or a copy that the chain owns.
#[derive(Debug)]
pub struct ItemIdList<'a>(pub Vec<Cow<'a, [u8]>>);

impl<'a> View for ItemIdList<'a> {
    type V = Seq<Seq<u8>>;

    open spec fn view(&self) -> Seq<Seq<u8>> {
        payloads(self.0@)
    }
}

impl<'a> Deref for ItemIdList<'a> {
    type Target = Vec<Cow<'a, [u8]>>;

    /// The segments.
    fn deref(&self) -> (r: &Vec<Cow<'a, [u8]>>)
        ensures
            *r == self.0,
    {
        &self.0
    }
}

/// The bytes of one segment, borrowed or owned.
pub fn segment_bytes<'b, 'a>(segment: &'b Cow<'a, [u8]>) -> (r: &'b [u8])
    ensures
        r@ == segment@,
{
    match segment {
        Cow::Borrowed(bytes) => bytes,
        Cow::Owned(bytes) => bytes.as_slice(),
    }
}

/// Asks for an empty buffer with room for `size` bytes. `None` when the
/// allocator cannot give one.
fn allocate(size: usize) -> (r: Option<Vec<u8>>)
    ensures
        r matches Some(buffer) ==> buffer@.len() == 0,
{
    let mut buffer: Vec<u8> = Vec::new();
    match buffer.try_reserve(size) {
        Ok(_) => Some(buffer),
        Err(_) => None,
    }
}

/// Whether `chain` names the path `names`: one segment for each name, its
/// payload the name as UTF-16 as the machine holds it in memory.
pub open spec fn spells(chain: Seq<Seq<u8>>, names: Seq<&str>) -> bool {
    &&& chain.len() == names.len()
    &&& forall|i: int| 0 <= i < names.len() ==> memory_bytes(utf16(names[i]@), #[trigger] chain[i])
}

/// The payloads come out in the machine's byte order, so that no function of
/// the names alone gives the chain: `from` states what it returns itself.
impl<'a> FromSpecImpl<Vec<&str>> for ItemIdList<'a> {
    open spec fn obeys_from_spec() -> bool {
        false
    }

    open spec fn from_spec(value: Vec<&str>) -> Self {
        arbitrary()
    }
}

impl<'a> From<Vec<&str>> for ItemIdList<'a> {
    /// The chain that names a path, one owned segment for each name, each
    /// name as UTF-16.
    fn from(value: Vec<&str>) -> (r: Self)
        ensures
            spells(r@, value@),
            r.is_owned(),
    {
        let mut segments: Vec<Cow<'a, [u8]>> = Vec::new();
        let mut i: usize = 0;
        while i < value.len()
            invariant
                i <= value@.len(),
                segments@.len() == i,
                forall|j: int|
                    0 <= j < i ==> memory_bytes(utf16(value@[j]@), (#[trigger] segments@[j])@),
                forall|j: int| 0 <= j < i ==> (#[trigger] segments@[j]) is Owned,
            decreases value@.len() - i,
        {
            segments.push(Cow::Owned(wide_bytes(value[i])));
            i = i + 1;
        }
        ItemIdList(segments)
    }
}

impl<'a> ItemIdList<'a> {
    /// Whether the chain owns every one of its segments.
    pub open spec fn is_owned(&self) -> bool {
        forall|i: int| 0 <= i < self.0@.len() ==> (#[trigger] self.0@[i]) is Owned
    }

    /// Whether every segment is a view into a buffer owned elsewhere.
    pub open spec fn is_borrowed(&self) -> bool {
        forall|i: int| 0 <= i < self.0@.len() ==> (#[trigger] self.0@[i]) is Borrowed
    }

    /// Reads the chain at the start of `buffer`, up to its terminator. Bytes
    /// after the terminator are not looked at. The segments are views into
    /// `buffer`. A buffer that ends before the terminator is truncated.
    pub fn decode(buffer: &'a [u8]) -> (r: Result<ItemIdList<'a>, CodecError>)
        ensures
            match parse_chain(buffer@, 0) {
                Some(chain) => r matches Ok(list) && list@ == chain && list.is_borrowed(),
                None => r matches Err(e) && e == CodecError::TruncatedRecord,
            },
    {
        let mut segments: Vec<Cow<'a, [u8]>> = Vec::new();
        let mut offset: usize = 0;
        let len = buffer.len();
        loop
            invariant
                len == buffer@.len(),
                offset <= len,
                parse_chain(buffer@, 0) == extend_chain(
                    payloads(segments@),
                    parse_chain(buffer@, offset as int),
                ),
                forall|i: int| 0 <= i < segments@.len() ==> (#[trigger] segments@[i]) is Borrowed,
            decreases buffer@.len() - offset,
        {
            match ItemId::decode(buffer, offset) {
                Err(e) => {
                    return Err(e);
                },
                Ok(item) => {
                    if item.is_terminator() {
                        proof {
                            assert(payloads(segments@) + Seq::<Seq<u8>>::empty() == payloads(
                                segments@,
                            ));
                        }
                        return Ok(ItemIdList(segments));
                    }
                    let content = item.content();
                    let ghost before = segments@;
                    segments.push(Cow::Borrowed(content));
                    proof {
                        let rest = parse_chain(buffer@, offset + content@.len() + 2);
                        if rest is Some {
                            assert(payloads(before) + (seq![content@] + rest->0) == payloads(
                                segments@,
                            ) + rest->0);
                        }
                    }
                    assert(offset + item@.cb() <= buffer@.len()) by {
                        let cb = prefix_value(buffer@[offset as int], buffer@[offset + 1]);
                        assert(content@.len() == cb - 2);
                    }
                    offset = offset + item.size() as usize;
                },
            }
        }
    }

    /// Reads the chain at the start of `buffer` into storage of its own, so
    /// that it outlives the buffer.
    pub fn decode_owned(buffer: &[u8]) -> (r: Result<ItemIdList<'static>, CodecError>)
        ensures
            match parse_chain(buffer@, 0) {
                Some(chain) => r matches Ok(list) && list@ == chain && list.is_owned(),
                None => r matches Err(e) && e == CodecError::TruncatedRecord,
            },
    {
        match ItemIdList::decode(buffer) {
            Ok(list) => Ok(list.into_owned()),
            Err(e) => Err(e),
        }
    }

    /// The same chain with every segment copied into storage of its own.
    pub fn into_owned(self) -> (r: ItemIdList<'static>)
        ensures
            r@ == self@,
            r.is_owned(),
    {
        let mut owned: Vec<Cow<'static, [u8]>> = Vec::new();
        let mut i: usize = 0;
        while i < self.0.len()
            invariant
                i <= self.0@.len(),
                owned@.len() == i,
                forall|j: int| 0 <= j < i ==> (#[trigger] owned@[j])@ == self.0@[j]@,
                forall|j: int| 0 <= j < i ==> (#[trigger] owned@[j]) is Owned,
            decreases self.0@.len() - i,
        {
            let bytes = segment_bytes(&self.0[i]);
            owned.push(Cow::Owned(vstd::slice::slice_to_vec(bytes)));
            i = i + 1;
        }
        ItemIdList(owned)
    }

    /// How many segments the chain has.
    pub fn len(&self) -> (r: usize)
        ensures
            r == self@.len(),
    {
        self.0.len()
    }

    /// Whether the chain is empty, that is, names the root.
    pub fn is_empty(&self) -> (r: bool)
        ensures
            r == (self@.len() == 0),
    {
        self.0.len() == 0
    }

    /// The size of the buffer that the encoded chain needs. A chain with a
    /// segment too long for its prefix has no encoding; a size that no buffer
    /// can have is reported as out of memory.
    pub fn encoded_size(&self) -> (r: Result<usize, CodecError>)
        ensures
            !representable(self@) ==> (r matches Err(e) && e == CodecError::SegmentTooLarge),
            representable(self@) && wire_len(self@) > usize::MAX ==> (r matches Err(e) && e
                == CodecError::OutOfMemory),
            representable(self@) && wire_len(self@) <= usize::MAX ==> (r matches Ok(size) && size
                == wire_len(self@)),
    {
        if !self.is_representable() {
            return Err(CodecError::SegmentTooLarge);
        }
        let mut total: usize = 2;
        let mut i: usize = 0;
        assert(self@.skip(0) == self@);
        while i < self.0.len()
            invariant
                i <= self.0@.len(),
                representable(self@),
                total + wire_len(self@.skip(i as int)) == wire_len(self@) + 2,
            decreases self.0@.len() - i,
        {
            let n = segment_bytes(&self.0[i]).len();
            proof {
                assert(self@.skip(i as int)[0] == self@[i as int]);
                assert(self@.skip(i as int).drop_first() == self@.skip(i + 1));
                assert(wire_len(self@.skip(i + 1)) >= 2);
            }
            if n > usize::MAX - 2 || total > usize::MAX - (n + 2) {
                return Err(CodecError::OutOfMemory);
            }
            total = total + (n + 2);
            i = i + 1;
        }
        assert(self@.skip(i as int).len() == 0);
        Ok(total)
    }

    /// Writes the chain's byte layout behind what `buffer` holds: each
    /// segment's prefix and payload in order, then the terminator. `buffer` is
    /// what the allocator answered; `None` is its refusal. A chain with a
    /// segment too long for its prefix is rejected before anything is written.
    pub fn encode_with(&self, buffer: Option<Vec<u8>>) -> (r: Result<Vec<u8>, CodecError>)
        ensures
            !representable(self@) ==> (r matches Err(e) && e == CodecError::SegmentTooLarge),
            representable(self@) && buffer is None ==> (r matches Err(e) && e
                == CodecError::OutOfMemory),
            representable(self@) && buffer is Some ==> (r matches Ok(bytes) && bytes@
                == buffer->0@ + chain_wire(self@)),
    {
        if !self.is_representable() {
            return Err(CodecError::SegmentTooLarge);
        }
        let mut out = match buffer {
            None => {
                return Err(CodecError::OutOfMemory);
            },
            Some(bytes) => bytes,
        };
        let ghost start = out@;
        let mut i: usize = 0;
        assert(self@.skip(0) == self@);
        while i < self.0.len()
            invariant
                i <= self.0@.len(),
                representable(self@),
                out@ + chain_wire(self@.skip(i as int)) == start + chain_wire(self@),
            decreases self.0@.len() - i,
        {
            let ghost before = out@;
            match ItemId::new(segment_bytes(&self.0[i])) {
                Err(e) => {
                    assert(self@[i as int].len() <= MAX_PAYLOAD_LEN);
                    return Err(e);
                },
                Ok(item) => {
                    item.encode_into(&mut out);
                },
            }
            proof {
                let rest = self@.skip(i as int);
                assert(rest[0] == self@[i as int]);
                assert(rest.drop_first() == self@.skip(i + 1));
                assert(out@ + chain_wire(self@.skip(i + 1)) == before + chain_wire(rest));
            }
            i = i + 1;
        }
        assert(self@.skip(i as int).len() == 0);
        ItemId::terminator().encode_into(&mut out);
        Ok(out)
    }

    /// The chain's byte layout in a buffer of its own, which the caller then
    /// owns. The size is computed first, then a buffer of that size is asked
    /// for, then the records are written.
    pub fn encode(&self) -> (r: Result<Vec<u8>, CodecError>)
        ensures
            !representable(self@) ==> (r matches Err(e) && e == CodecError::SegmentTooLarge),
            representable(self@) ==> (r matches Ok(bytes) && bytes@ == chain_wire(self@)) || (
            r matches Err(e) && e == CodecError::OutOfMemory),
            representable(self@) && wire_len(self@) > usize::MAX ==> r is Err,
    {
        match self.encoded_size() {
            Err(e) => Err(e),
            Ok(size) => self.encode_with(allocate(size)),
        }
    }

    /// Whether every segment is short enough for its length prefix.
    pub fn is_representable(&self) -> (r: bool)
        ensures
            r == representable(self@),
    {
        let mut i: usize = 0;
        while i < self.0.len()
            invariant
                i <= self.0@.len(),
                forall|j: int| 0 <= j < i ==> (#[trigger] self@[j]).len() <= MAX_PAYLOAD_LEN,
            decreases self.0@.len() - i,
        {
            if segment_bytes(&self.0[i]).len() > MAX_PAYLOAD_LEN {
                assert(self@[i as int].len() > MAX_PAYLOAD_LEN);
                return false;
            }
            i = i + 1;
        }
        true
    }
}

} // verus!
