use crate::item_id::{parse_record, prefix_bytes, prefix_value, Record, MAX_PAYLOAD_LEN};
use crate::itemidlist::{chain_wire, parse_chain, representable, wire_len};
use vstd::prelude::*;

verus! {

/// A length of at most 65535 survives being written as a prefix and read
/// back.
pub proof fn lemma_prefix_round_trip(cb: nat)
    requires
        cb <= 65535,
    ensures
        prefix_bytes(cb).len() == 2,
        prefix_value(prefix_bytes(cb)[0], prefix_bytes(cb)[1]) == cb,
{
}

/// The byte layout of a chain is as long as its size says: the payloads, two
/// bytes of prefix for each, and two for the terminator.
pub proof fn lemma_wire_len(chain: Seq<Seq<u8>>)
    ensures
        chain_wire(chain).len() == wire_len(chain),
    decreases chain.len(),
{
    if chain.len() > 0 {
        lemma_wire_len(chain.drop_first());
    }
}

/// Wherever the byte layout of a representable chain stands in a buffer,
/// reading there gives the chain back, whatever stands before and behind it.
pub proof fn lemma_parse_embedded(front: Seq<u8>, chain: Seq<Seq<u8>>, back: Seq<u8>)
    requires
        representable(chain),
    ensures
        parse_chain(front + chain_wire(chain) + back, front.len() as int) == Some(chain),
    decreases chain.len(),
{
    let buffer = front + chain_wire(chain) + back;
    let offset = front.len() as int;
    lemma_wire_len(chain);
    if chain.len() == 0 {
        assert(buffer[offset] == chain_wire(chain)[0]);
        assert(buffer[offset + 1] == chain_wire(chain)[1]);
        assert(parse_record(buffer, offset) == Some(Record::Terminator));
    } else {
        let payload = chain[0];
        let rest = chain.drop_first();
        let record = Record::Segment(payload);
        assert(payload.len() <= MAX_PAYLOAD_LEN);
        lemma_prefix_round_trip(record.cb());
        lemma_wire_len(rest);
        assert(buffer[offset] == record.wire()[0]);
        assert(buffer[offset + 1] == record.wire()[1]);
        assert(buffer.subrange(offset + 2, offset + record.cb()) == payload);
        assert(parse_record(buffer, offset) == Some(record));
        assert forall|i: int| 0 <= i < rest.len() implies (#[trigger] rest[i]).len()
            <= MAX_PAYLOAD_LEN by {
            assert(rest[i] == chain[i + 1]);
        }
        lemma_parse_embedded(front + record.wire(), rest, back);
        assert(front + record.wire() + chain_wire(rest) + back == buffer);
        assert(seq![payload] + rest == chain);
    }
}

/// Decoding what encoding wrote gives the chain back, for every chain whose
/// segments are short enough for their prefixes.
pub proof fn lemma_round_trip(chain: Seq<Seq<u8>>)
    requires
        representable(chain),
    ensures
        parse_chain(chain_wire(chain), 0) == Some(chain),
{
    lemma_parse_embedded(Seq::empty(), chain, Seq::empty());
    assert(Seq::<u8>::empty() + chain_wire(chain) + Seq::<u8>::empty() == chain_wire(chain));
}

/// A chain read at `offset` is representable, and the bytes read there are
/// its byte layout: encoding it writes those bytes again.
pub proof fn lemma_parsed_bytes(buffer: Seq<u8>, offset: int, chain: Seq<Seq<u8>>)
    requires
        parse_chain(buffer, offset) == Some(chain),
    ensures
        representable(chain),
        0 <= offset,
        offset + wire_len(chain) <= buffer.len(),
        buffer.subrange(offset, offset + wire_len(chain)) == chain_wire(chain),
    decreases buffer.len() - offset,
{
    match parse_record(buffer, offset) {
        None => {},
        Some(Record::Terminator) => {
            assert(chain == Seq::<Seq<u8>>::empty());
            let low = buffer[offset];
            let high = buffer[offset + 1];
            assert(low == 0 && high == 0);
            assert(buffer.subrange(offset, offset + 2) == chain_wire(chain));
        },
        Some(Record::Segment(payload)) => {
            let next = offset + payload.len() + 2;
            let rest = parse_chain(buffer, next)->0;
            lemma_parsed_bytes(buffer, next, rest);
            assert(chain == seq![payload] + rest);
            assert(chain[0] == payload);
            assert(chain.drop_first() == rest);
            let record = Record::Segment(payload);
            let cb = prefix_value(buffer[offset], buffer[offset + 1]);
            assert(record.cb() == cb);
            assert(prefix_bytes(cb)[0] == buffer[offset]);
            assert(prefix_bytes(cb)[1] == buffer[offset + 1]);
            assert(buffer.subrange(offset, next) == record.wire());
            assert(buffer.subrange(offset, offset + wire_len(chain)) == buffer.subrange(
                offset,
                next,
            ) + buffer.subrange(next, next + wire_len(rest)));
            assert forall|i: int| 0 <= i < chain.len() implies (#[trigger] chain[i]).len()
                <= MAX_PAYLOAD_LEN by {
                if i > 0 {
                    assert(chain[i] == rest[i - 1]);
                }
            }
        },
    }
}

} // verus!
