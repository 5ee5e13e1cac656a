//! Oracle VM state machine behavior: creation, block processing, expiry
//! triggers, and settlement execution.

use oracle_vm::vm::{OptionType, OracleVM, Settlement};

#[test]
fn test_oracle_vm_creation() {
    let vm = OracleVM::new();
    assert_eq!(vm.get_state().block_height, 0);
    assert!(vm.get_state().vaults.is_empty());
    assert!(vm.get_state().options.is_empty());
}

#[test]
fn test_vault_creation() {
    let mut vm = OracleVM::new();
    let vault_id = [1u8; 32];

    vm.create_vault(
        vault_id,
        "owner1".to_string(),
        1000000, // 0.01 BTC
        500000,  // 0.005 BTC debt
    )
    .unwrap();

    assert!(vm.get_state().vaults.iter().any(|e| e.0 == vault_id));
}

#[test]
fn test_option_creation() {
    let mut vm = OracleVM::new();
    let option_id = [2u8; 32];

    vm.create_option(
        option_id,
        "writer1".to_string(),
        OptionType::Call,
        5000000,    // $50,000 strike
        1700000000, // expiry timestamp
        1000000,    // collateral
        50000,      // premium
    )
    .unwrap();

    assert!(vm.get_state().options.iter().any(|e| e.0 == option_id));
}

#[test]
fn duplicate_vault_id_overwrites() {
    let mut vm = OracleVM::new();
    let vault_id = [1u8; 32];
    vm.create_vault(vault_id, "owner1".to_string(), 1_000_000, 500_000).unwrap();
    vm.create_vault(vault_id, "owner2".to_string(), 2_000_000, 700_000).unwrap();
    assert_eq!(vm.get_state().vaults.len(), 1);
    let entry = &vm.get_state().vaults[0];
    assert_eq!(entry.1.owner, "owner2");
    assert_eq!(entry.1.collateral_amount, 2_000_000);
}

#[test]
fn process_block_anchors_price_root() {
    let mut vm = OracleVM::new();
    let root = [7u8; 32];
    let settlements = vm.process_block(800_000, root).unwrap();
    assert!(settlements.is_empty());
    assert_eq!(vm.get_state().block_height, 800_000);
    assert!(vm.get_state().price_roots.iter().any(|e| e.0 == 800_000 && e.1 == root));
}

#[test]
fn process_block_triggers_due_expiry() {
    let mut vm = OracleVM::new();
    let option_id = [3u8; 32];
    // Expiry at unix time 1_700_000_000; height 2_833_334 estimates
    // 1_700_000_400 seconds of wall clock, past the expiry.
    vm.create_option(
        option_id,
        "writer1".to_string(),
        OptionType::Put,
        5_000_000,
        1_700_000_000,
        1_000_000,
        50_000,
    )
    .unwrap();
    let settlements = vm.process_block(2_833_334, [0u8; 32]).unwrap();
    assert_eq!(settlements.len(), 1);
    match &settlements[0] {
        Settlement::OptionExpiry { option_id: id, settlement_price, expiry_time } => {
            assert_eq!(*id, option_id);
            assert_eq!(*settlement_price, 0);
            assert_eq!(*expiry_time, 1_700_000_000);
        }
        other => panic!("expected an option expiry, got {:?}", other),
    }
    assert_eq!(vm.get_state().pending_settlements.len(), 1);
}

#[test]
fn process_block_before_expiry_triggers_nothing() {
    let mut vm = OracleVM::new();
    vm.create_option(
        [3u8; 32],
        "writer1".to_string(),
        OptionType::Call,
        5_000_000,
        1_700_000_000,
        1_000_000,
        50_000,
    )
    .unwrap();
    // Height 2_833_332 estimates 1_699_999_200 seconds: before the expiry.
    let settlements = vm.process_block(2_833_332, [0u8; 32]).unwrap();
    assert!(settlements.is_empty());
    assert!(vm.get_state().pending_settlements.is_empty());
}

#[test]
fn repeated_blocks_append_duplicate_triggers() {
    let mut vm = OracleVM::new();
    vm.create_option(
        [3u8; 32],
        "writer1".to_string(),
        OptionType::Call,
        5_000_000,
        1_700_000_000,
        1_000_000,
        50_000,
    )
    .unwrap();
    vm.process_block(2_833_334, [0u8; 32]).unwrap();
    vm.process_block(2_833_335, [0u8; 32]).unwrap();
    // The pending queue is not deduplicated.
    assert_eq!(vm.get_state().pending_settlements.len(), 2);
}

#[test]
fn execute_vault_liquidation_removes_vault_and_is_idempotent() {
    let mut vm = OracleVM::new();
    let vault_id = [9u8; 32];
    vm.create_vault(vault_id, "owner1".to_string(), 1_000_000, 500_000).unwrap();
    let settlement = Settlement::VaultLiquidation {
        vault_id,
        liquidation_price: 4_000_000,
        timestamp: 1_700_000_000,
    };
    vm.execute_settlement(settlement.clone()).unwrap();
    assert!(vm.get_state().vaults.is_empty());
    // Executing the same settlement again is a no-op, not an error.
    vm.execute_settlement(settlement).unwrap();
    assert!(vm.get_state().vaults.is_empty());
}

#[test]
fn execute_prunes_pending_vault_liquidations_only() {
    let mut vm = OracleVM::new();
    let vault_id = [9u8; 32];
    let option_id = [4u8; 32];
    vm.create_vault(vault_id, "owner1".to_string(), 1_000_000, 500_000).unwrap();
    vm.create_option(
        option_id,
        "writer1".to_string(),
        OptionType::Call,
        5_000_000,
        1_700_000_000,
        1_000_000,
        50_000,
    )
    .unwrap();
    // Trigger the option expiry so an expiry entry sits in the queue.
    vm.process_block(2_833_334, [0u8; 32]).unwrap();
    assert_eq!(vm.get_state().pending_settlements.len(), 1);

    // Executing the expiry removes the option but leaves its queue entry.
    let expiry = Settlement::OptionExpiry {
        option_id,
        settlement_price: 0,
        expiry_time: 1_700_000_000,
    };
    vm.execute_settlement(expiry).unwrap();
    assert!(vm.get_state().options.is_empty());
    assert_eq!(vm.get_state().pending_settlements.len(), 1);

    // A pending vault liquidation, by contrast, is pruned on execution.
    let liquidation = Settlement::VaultLiquidation {
        vault_id,
        liquidation_price: 4_000_000,
        timestamp: 1_700_000_000,
    };
    vm.execute_settlement(liquidation).unwrap();
    assert!(vm.get_state().vaults.is_empty());
    assert_eq!(vm.get_state().pending_settlements.len(), 1);
}

#[test]
fn default_vm_matches_new() {
    let vm = OracleVM::default();
    assert_eq!(vm.get_state().block_height, 0);
    assert!(vm.get_state().vaults.is_empty());
    assert!(vm.get_state().options.is_empty());
    assert!(vm.get_state().pending_settlements.is_empty());
}
