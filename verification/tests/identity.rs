use gossip_glomers::decimal::{i64_to_dec, parse_i64, parse_u32, parse_u64, u64_to_dec};
use gossip_glomers::error::MALFORMED_REQUEST;
use gossip_glomers::message::{NodeId, NodeKind};
use gossip_glomers::{node_id, parse_node_id};

#[test]
fn node_id_formats() {
    assert_eq!(node_id(0), "n0");
    assert_eq!(node_id(42), "n42");
    assert_eq!(node_id(u32::MAX), "n4294967295");
}

#[test]
fn parse_node_id_accepts_node_strings() {
    assert_eq!(parse_node_id("n0").unwrap(), 0);
    assert_eq!(parse_node_id("n12").unwrap(), 12);
    assert_eq!(parse_node_id("n007").unwrap(), 7);
    assert_eq!(parse_node_id("n4294967295").unwrap(), u32::MAX);
}

#[test]
fn parse_node_id_rejects_bad_strings() {
    for bad in ["", "n", "c5", "x3", "n-1", "n12x", "n4294967296"] {
        let e = parse_node_id(bad).unwrap_err();
        assert_eq!(e.code, MALFORMED_REQUEST, "input {bad:?}");
    }
}

#[test]
fn typed_node_id_round_trip() {
    let n = NodeId { kind: NodeKind::Node, id: 3 };
    let c = NodeId { kind: NodeKind::Client, id: 7 };
    assert_eq!(n.encode(), "n3");
    assert_eq!(c.encode(), "c7");
    assert_eq!(NodeId::parse("n3").unwrap(), n);
    assert_eq!(NodeId::parse("c7").unwrap(), c);
}

#[test]
fn typed_node_id_rejects_bad_strings() {
    for bad in ["", "n", "c", "s1", "n 1", "nn1", "c4294967296"] {
        let e = NodeId::parse(bad).unwrap_err();
        assert_eq!(e.code, MALFORMED_REQUEST, "input {bad:?}");
    }
}

#[test]
fn unsigned_decimal_round_trip() {
    assert_eq!(u64_to_dec(0), "0");
    assert_eq!(u64_to_dec(12345), "12345");
    assert_eq!(u64_to_dec(u64::MAX), "18446744073709551615");
    assert_eq!(parse_u64("0"), Some(0));
    assert_eq!(parse_u64("0012345"), Some(12345));
    assert_eq!(parse_u64("18446744073709551615"), Some(u64::MAX));
    assert_eq!(parse_u64("18446744073709551616"), None);
    assert_eq!(parse_u64(""), None);
    assert_eq!(parse_u64("12a"), None);
    assert_eq!(parse_u64("-1"), None);
}

#[test]
fn parse_u32_bounds() {
    assert_eq!(parse_u32("4294967295"), Some(u32::MAX));
    assert_eq!(parse_u32("4294967296"), None);
}

#[test]
fn signed_decimal_round_trip() {
    assert_eq!(i64_to_dec(0), "0");
    assert_eq!(i64_to_dec(-5), "-5");
    assert_eq!(i64_to_dec(i64::MAX), "9223372036854775807");
    assert_eq!(i64_to_dec(i64::MIN), "-9223372036854775808");
    assert_eq!(parse_i64("0"), Some(0));
    assert_eq!(parse_i64("-0"), Some(0));
    assert_eq!(parse_i64("-5"), Some(-5));
    assert_eq!(parse_i64("9223372036854775807"), Some(i64::MAX));
    assert_eq!(parse_i64("9223372036854775808"), None);
    assert_eq!(parse_i64("-9223372036854775808"), Some(i64::MIN));
    assert_eq!(parse_i64("-9223372036854775809"), None);
    assert_eq!(parse_i64("-"), None);
    assert_eq!(parse_i64("1-2"), None);
}
