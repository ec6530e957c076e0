use crate::error::CodecError;
use vstd::prelude::*;

verus! {

/// Bytes that a length prefix takes on the wire.
pub const PREFIX_LEN: usize = 2;

/// The longest payload whose record length still fits the prefix.
pub const MAX_PAYLOAD_LEN: usize = 65533;

/// The two bytes of a length prefix, low byte first.
pub open spec fn prefix_bytes(cb: nat) -> Seq<u8> {
    seq![(cb % 256) as u8, (cb / 256) as u8]
}

/// The length that the two bytes of a prefix announce.
pub open spec fn prefix_value(low: u8, high: u8) -> nat {
    (low as nat) + 256 * (high as nat)
}

/// What one record of a chain stands for.
pub enum Record {
    /// The marker that ends a chain: a prefix of zero and no payload.
    Terminator,
    /// One path segment with its opaque payload.
    Segment(Seq<u8>),
}

impl Record {
    /// The value of the record's length prefix: the payload length plus the
    /// prefix itself, or zero for the terminator.
    pub open spec fn cb(self) -> nat {
        match self {
            Record::Terminator => 0,
            Record::Segment(payload) => payload.len() + 2,
        }
    }

    /// The payload; the terminator has none.
    pub open spec fn payload(self) -> Seq<u8> {
        match self {
            Record::Terminator => Seq::empty(),
            Record::Segment(payload) => payload,
        }
    }

    /// Whether the length prefix can announce the record.
    pub open spec fn representable(self) -> bool {
        self.payload().len() <= MAX_PAYLOAD_LEN
    }

    /// The record's byte layout: prefix, then payload.
    pub open spec fn wire(self) -> Seq<u8> {
        prefix_bytes(self.cb()) + self.payload()
    }
}

/// The record that starts at `offset` in `buffer`, if one lies wholly within
/// the buffer there.
pub open spec fn parse_record(buffer: Seq<u8>, offset: int) -> Option<Record> {
    if offset < 0 || offset + 2 > buffer.len() {
        None
    } else {
        let cb = prefix_value(buffer[offset], buffer[offset + 1]);
        if cb == 0 {
            Some(Record::Terminator)
        } else if cb < 2 || offset + cb > buffer.len() {
            None
        } else {
            Some(Record::Segment(buffer.subrange(offset + 2, offset + cb)))
        }
    }
}

/// One record of a chain, its payload borrowed from the buffer it was read
/// from. The length field and the payload always agree.
#[derive(Debug)]
pub struct ItemId<'a> {
    size: u16,
    content: &'a [u8],
}

impl<'a> View for ItemId<'a> {
    type V = Record;

    closed spec fn view(&self) -> Record {
        if self.size == 0 {
            Record::Terminator
        } else {
            Record::Segment(self.content@)
        }
    }
}

impl<'a> ItemId<'a> {
    #[verifier::type_invariant]
    spec fn well_formed(self) -> bool {
        if self.size == 0 {
            self.content@.len() == 0
        } else {
            self.size as int == self.content@.len() + 2
        }
    }

    /// The record for one segment. Fails when the payload is too long for the
    /// length prefix.
    pub fn new(content: &'a [u8]) -> (r: Result<ItemId<'a>, CodecError>)
        ensures
            content@.len() <= MAX_PAYLOAD_LEN ==> (r matches Ok(item) && item@ == Record::Segment(
                content@,
            )),
            content@.len() > MAX_PAYLOAD_LEN ==> r == Err::<ItemId<'a>, CodecError>(
                CodecError::SegmentTooLarge,
            ),
    {
        if content.len() > MAX_PAYLOAD_LEN {
            Err(CodecError::SegmentTooLarge)
        } else {
            Ok(ItemId { size: (content.len() + PREFIX_LEN) as u16, content })
        }
    }

    /// The marker that ends a chain.
    pub fn terminator() -> (r: ItemId<'static>)
        ensures
            r@ == Record::Terminator,
    {
        let content: &'static [u8] = &[];
        ItemId { size: 0, content }
    }

    /// Reads the record that starts at `offset`. A prefix of zero gives the
    /// terminator. A record that does not lie within the buffer is truncated.
    pub fn decode(buffer: &'a [u8], offset: usize) -> (r: Result<ItemId<'a>, CodecError>)
        ensures
            match parse_record(buffer@, offset as int) {
                Some(record) => r matches Ok(item) && item@ == record,
                None => r == Err::<ItemId<'a>, CodecError>(CodecError::TruncatedRecord),
            },
    {
        let len = buffer.len();
        if len < PREFIX_LEN || offset > len - PREFIX_LEN {
            return Err(CodecError::TruncatedRecord);
        }
        let low = buffer[offset];
        let high = buffer[offset + 1];
        let size: u16 = low as u16 + 256 * (high as u16);
        if size == 0 {
            return Ok(ItemId::terminator());
        }
        if size < 2 || size as usize > len - offset {
            return Err(CodecError::TruncatedRecord);
        }
        let content = vstd::slice::slice_subrange(buffer, offset + PREFIX_LEN, offset + size as usize);
        Ok(ItemId { size, content })
    }

    /// The value of the length prefix.
    pub fn size(&self) -> (r: u16)
        ensures
            r as int == self@.cb(),
    {
        proof {
            use_type_invariant(self);
        }
        self.size
    }

    /// The payload.
    pub fn content(&self) -> (r: &'a [u8])
        ensures
            r@ == self@.payload(),
    {
        proof {
            use_type_invariant(self);
        }
        self.content
    }

    /// Whether this is the marker that ends a chain.
    pub fn is_terminator(&self) -> (r: bool)
        ensures
            r == (self@ is Terminator),
    {
        self.size == 0
    }

    /// Bytes that the record takes on the wire.
    pub fn encoded_len(&self) -> (r: usize)
        ensures
            r as int == self@.wire().len(),
    {
        proof {
            use_type_invariant(self);
        }
        self.content.len() + PREFIX_LEN
    }

    /// Appends the record's byte layout to `out`: the prefix, low byte first,
    /// then the payload as it is.
    pub fn encode_into(&self, out: &mut Vec<u8>)
        ensures
            final(out)@ == old(out)@ + self@.wire(),
    {
        proof {
            use_type_invariant(self);
        }
        out.push((self.size % 256) as u8);
        out.push((self.size / 256) as u8);
        out.extend_from_slice(self.content);
    }

    /// The record's byte layout.
    pub fn encode(&self) -> (r: Vec<u8>)
        ensures
            r@ == self@.wire(),
    {
        let mut out: Vec<u8> = Vec::new();
        self.encode_into(&mut out);
        out
    }
}

} // verus!
