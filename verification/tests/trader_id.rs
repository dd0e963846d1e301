use nice_trader::identifiers::{IdentifierError, TraderId};

fn trader_id() -> TraderId {
    TraderId::new("TRADER-001")
}

#[test]
fn test_string_reprs() {
    let trader_id = trader_id();
    assert_eq!(trader_id.as_str(), "TRADER-001");
    assert_eq!(trader_id.to_string(), "TRADER-001");
}

#[test]
fn test_get_tag() {
    assert_eq!(trader_id().get_tag(), "001");
    assert_eq!(TraderId::new("A-B-C").get_tag(), "C");
    assert_eq!(TraderId::new("ABC-").get_tag(), "");
}

#[test]
fn test_new_checked_errors() {
    assert!(matches!(TraderId::new_checked(""), Err(IdentifierError::Empty)));
    assert!(matches!(TraderId::new_checked("   "), Err(IdentifierError::AllWhitespace)));
    assert!(matches!(TraderId::new_checked("TRADÉR-001"), Err(IdentifierError::NonAscii)));
    assert!(matches!(TraderId::new_checked("TRADER001"), Err(IdentifierError::MissingHyphen)));
    assert_eq!(TraderId::new_checked("TRADER-001").ok().unwrap().inner(), "TRADER-001");
    assert!(TraderId::new("A-1") < TraderId::new("B-1"));
}

#[test]
fn test_set_inner() {
    let mut id = trader_id();
    id.set_inner("OTHER-9");
    assert_eq!(id.as_str(), "OTHER-9");
    assert_eq!(id.get_tag(), "9");
    id.set_inner("NOHYPHEN");
    assert_eq!(id.as_str(), "NOHYPHEN");
}

#[test]
fn test_debug_string() {
    assert_eq!(trader_id().debug_string(), "u!(\"TRADER-001\")");
    assert_eq!(TraderId::new("A\"B-1").debug_string(), "u!(\"A\\\"B-1\")");
}
