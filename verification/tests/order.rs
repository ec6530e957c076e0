use shell_extension::hresult::HRESULT;
use shell_extension::itemidlist::ItemIdList;
use shell_extension::order::compare_bytes;
use std::borrow::Cow;

fn chain(segments: &[&[u8]]) -> ItemIdList<'static> {
    ItemIdList(segments.iter().map(|s| Cow::Owned(s.to_vec())).collect())
}

fn samples() -> Vec<ItemIdList<'static>> {
    vec![
        chain(&[]),
        chain(&[b""]),
        chain(&[b"", b""]),
        chain(&[b"A"]),
        chain(&[b"A", b""]),
        chain(&[b"A", b"B"]),
        chain(&[b"AB"]),
        chain(&[b"B"]),
        chain(&[b"Hi!"]),
        chain(&[b"Meow, "]),
        chain(&[&[0x7F]]),
        chain(&[&[0x80]]),
        chain(&[&[0xFF, 0x00]]),
    ]
}

#[test]
fn hi_comes_before_meow() {
    let hi = chain(&[b"Hi!"]);
    let meow = chain(&[b"Meow, "]);
    assert_eq!(hi.compare(&meow), -1);
    assert_eq!(meow.compare(&hi), 1);
    assert_eq!(hi.compare(&hi), 0);
    assert_eq!(HRESULT::from_order(hi.compare(&meow)), HRESULT(0xFFFF));
    assert_eq!(HRESULT::from_order(hi.compare(&meow)).0 as u16 as i16, -1);

    let wide_hi = ItemIdList::from(vec!["Hi!"]);
    let wide_meow = ItemIdList::from(vec!["Meow, "]);
    assert_eq!(wide_hi.compare(&wide_meow), -1);
}

#[test]
fn comparison_status_carries_a_signed_short() {
    assert_eq!(HRESULT::from_order(-1), HRESULT(0x0000_FFFF));
    assert_eq!(HRESULT::from_order(0), HRESULT(0));
    assert_eq!(HRESULT::from_order(1), HRESULT(1));
    for order in [-1i16, 0, 1] {
        let status = HRESULT::from_order(order);
        assert!(status.is_ok());
        assert_eq!(status.0 as u16 as i16, order);
    }
}

#[test]
fn shorter_chain_comes_before_its_extensions() {
    assert_eq!(chain(&[]).compare(&chain(&[b""])), -1);
    assert_eq!(chain(&[b"A"]).compare(&chain(&[b"A", b""])), -1);
    assert_eq!(chain(&[b"A", b"B"]).compare(&chain(&[b"A"])), 1);
    assert_eq!(chain(&[b"A", b"Z"]).compare(&chain(&[b"B"])), -1);
}

#[test]
fn payloads_compare_as_unsigned_bytes() {
    assert_eq!(compare_bytes(&[0x7F], &[0x80]), -1);
    assert_eq!(compare_bytes(&[0xFF], &[0x00, 0x00]), 1);
    assert_eq!(compare_bytes(b"A", b"AB"), -1);
    assert_eq!(compare_bytes(b"AB", b"A"), 1);
    assert_eq!(compare_bytes(b"", b""), 0);
    assert_eq!(compare_bytes(b"same", b"same"), 0);
    assert_eq!(chain(&[&[0x80]]).compare(&chain(&[&[0x7F, 0xFF]])), 1);
}

#[test]
fn order_is_antisymmetric() {
    let all = samples();
    for a in &all {
        for b in &all {
            assert_eq!(a.compare(b), -b.compare(a));
            assert_eq!(a.compare(b) == 0, a.0 == b.0);
        }
    }
}

#[test]
fn order_is_transitive() {
    let all = samples();
    for a in &all {
        for b in &all {
            for c in &all {
                if a.compare(b) <= 0 && b.compare(c) <= 0 {
                    assert!(a.compare(c) <= 0);
                    if a.compare(b) < 0 || b.compare(c) < 0 {
                        assert_eq!(a.compare(c), -1);
                    }
                }
            }
        }
    }
}

#[test]
fn order_agrees_with_lexicographic_order_of_the_segments() {
    let all = samples();
    for a in &all {
        for b in &all {
            let expected = match a.0.cmp(&b.0) {
                std::cmp::Ordering::Less => -1,
                std::cmp::Ordering::Equal => 0,
                std::cmp::Ordering::Greater => 1,
            };
            assert_eq!(a.compare(b), expected);
            assert_eq!(a.partial_cmp(b), Some(a.0.cmp(&b.0)));
        }
    }
}

#[test]
fn operators_follow_the_order() {
    let hi = chain(&[b"Hi!"]);
    let meow = chain(&[b"Meow, "]);
    assert!(hi < meow);
    assert!(hi <= meow);
    assert!(meow > hi);
    assert!(hi != meow);
    assert!(hi == chain(&[b"Hi!"]));
    let buffer = [5u8, 0, b'H', b'i', b'!', 0, 0];
    let borrowed = ItemIdList::decode(&buffer).unwrap();
    assert!(borrowed == hi);
    assert_eq!(borrowed.compare(&hi), 0);
}

#[test]
fn sorting_by_the_order_is_stable_and_total() {
    let mut all = samples();
    all.reverse();
    all.sort_by(|a, b| a.partial_cmp(b).unwrap());
    for pair in all.windows(2) {
        assert_eq!(pair[0].compare(&pair[1]), -1);
    }
}
