use my_cache::service::{ttl_of_wire, wire_ttl_of, WireTtl};
use my_cache::{parse_ttl_query, CacheItemTTL};

#[test]
fn test_parse_ttl_query_absent() {
    assert_eq!(parse_ttl_query(None), CacheItemTTL::Default);
}

#[test]
fn test_parse_ttl_query_permanent() {
    assert_eq!(parse_ttl_query(Some("permanent".to_string())), CacheItemTTL::Permanent);
}

#[test]
fn test_parse_ttl_query_seconds() {
    assert_eq!(parse_ttl_query(Some("60".to_string())), CacheItemTTL::Custom(60));
    assert_eq!(parse_ttl_query(Some("0".to_string())), CacheItemTTL::Custom(0));
    assert_eq!(parse_ttl_query(Some("007".to_string())), CacheItemTTL::Custom(7));
}

#[test]
fn test_parse_ttl_query_largest() {
    assert_eq!(
        parse_ttl_query(Some("18446744073709551615".to_string())),
        CacheItemTTL::Custom(u64::MAX)
    );
}

#[test]
fn test_parse_ttl_query_malformed_falls_back() {
    assert_eq!(parse_ttl_query(Some("abc".to_string())), CacheItemTTL::Default);
    assert_eq!(parse_ttl_query(Some("".to_string())), CacheItemTTL::Default);
    assert_eq!(parse_ttl_query(Some("12x".to_string())), CacheItemTTL::Default);
    assert_eq!(parse_ttl_query(Some("-5".to_string())), CacheItemTTL::Default);
    // One past u64::MAX: numeric, but not representable.
    assert_eq!(
        parse_ttl_query(Some("18446744073709551616".to_string())),
        CacheItemTTL::Default
    );
}

#[test]
fn test_wire_ttl_round_trip() {
    for ttl in [CacheItemTTL::Default, CacheItemTTL::Permanent, CacheItemTTL::Custom(42)] {
        assert_eq!(ttl_of_wire(Some(wire_ttl_of(ttl))), ttl);
    }
}

#[test]
fn test_wire_ttl_fallbacks() {
    assert_eq!(ttl_of_wire(None), CacheItemTTL::Default);
    assert_eq!(ttl_of_wire(Some(WireTtl::UseDefaultTtl(false))), CacheItemTTL::Default);
    assert_eq!(ttl_of_wire(Some(WireTtl::SetPermanent(false))), CacheItemTTL::Default);
    assert_eq!(ttl_of_wire(Some(WireTtl::UseDefaultTtl(true))), CacheItemTTL::Default);
    assert_eq!(ttl_of_wire(Some(WireTtl::SetPermanent(true))), CacheItemTTL::Permanent);
}
