use nice_trader::identifiers::TraderId;
use nice_trader::messages::ShutdownSystem;
use nice_trader::uuid::UUID4;
use nice_trader::{NICE_TRADER, NICE_USER_AGENT};

#[test]
fn test_shutdown_display() {
    let cmd = ShutdownSystem::new(
        TraderId::new("TRADER-001"),
        "Controller".to_string(),
        Some("maintenance \"now\"".to_string()),
        UUID4::from("2d89666b-1a1e-4a75-b193-4eb3b454c757"),
        0,
    );
    assert_eq!(
        cmd.to_string(),
        "ShutdownSystem(trader_id=TRADER-001, component_id=Controller, reason=Some(\"maintenance \\\"now\\\"\"), command_id=2d89666b-1a1e-4a75-b193-4eb3b454c757)"
    );
    let quiet = ShutdownSystem::new(
        TraderId::new("TRADER-001"),
        "C".to_string(),
        None,
        UUID4::from("2d89666b-1a1e-4a75-b193-4eb3b454c757"),
        5,
    );
    assert_eq!(
        quiet.to_string(),
        "ShutdownSystem(trader_id=TRADER-001, component_id=C, reason=None, command_id=2d89666b-1a1e-4a75-b193-4eb3b454c757)"
    );
    assert_eq!(quiet.ts_init, 5);
}

#[test]
fn test_constants() {
    assert_eq!(NICE_TRADER, "NiceTrader");
    assert_eq!(NICE_USER_AGENT, "NiceTrader/1.222.0");
}

#[test]
fn test_shutdown_display_plain_reason() {
    let cmd = ShutdownSystem::new(
        TraderId::new("TRADER-001"),
        "RiskEngine".to_string(),
        Some("maintenance".to_string()),
        UUID4::from("2d89666b-1a1e-4a75-b193-4eb3b454c757"),
        0,
    );
    assert_eq!(
        cmd.to_string(),
        "ShutdownSystem(trader_id=TRADER-001, component_id=RiskEngine, reason=Some(\"maintenance\"), command_id=2d89666b-1a1e-4a75-b193-4eb3b454c757)"
    );
}
