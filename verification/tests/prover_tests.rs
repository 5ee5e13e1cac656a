//! Settlement prover behavior: proof assembly, witness layout, and the
//! determinism of the canonical input encoding.

use oracle_vm::prover::{BitVMXProver, SettlementType};
use oracle_vm::vm::Settlement;

#[test]
fn test_vault_liquidation_proof() {
    let prover = BitVMXProver::new("./settlement_program.elf".to_string());
    let vault_id = [1u8; 32];

    let settlement = Settlement::VaultLiquidation {
        vault_id,
        liquidation_price: 5000000, // $50,000
        timestamp: 1700000000,
    };

    let price_data = b"mock_price_data";
    let market_state = b"mock_market_state";

    let proof = prover
        .generate_settlement_proof(&settlement, price_data, market_state)
        .unwrap();

    match proof.settlement_type {
        SettlementType::VaultLiquidation { vault_id: id } => {
            assert_eq!(id, vault_id);
        }
        _ => panic!("Expected vault liquidation proof"),
    }
}

#[test]
fn test_option_expiry_proof() {
    let prover = BitVMXProver::new("./settlement_program.elf".to_string());
    let option_id = [2u8; 32];

    let settlement = Settlement::OptionExpiry {
        option_id,
        settlement_price: 5500000, // $55,000
        expiry_time: 1700000000,
    };

    let price_data = b"mock_price_data";
    let market_state = b"mock_market_state";

    let proof = prover
        .generate_settlement_proof(&settlement, price_data, market_state)
        .unwrap();

    match proof.settlement_type {
        SettlementType::OptionExpiry { option_id: id } => {
            assert_eq!(id, option_id);
        }
        _ => panic!("Expected option expiry proof"),
    }
}

#[test]
fn identical_inputs_give_identical_proofs() {
    let prover = BitVMXProver::new("./settlement_program.elf".to_string());
    let settlement = Settlement::VaultLiquidation {
        vault_id: [5u8; 32],
        liquidation_price: 4_200_000,
        timestamp: 1_700_000_123,
    };
    let a = prover
        .generate_settlement_proof(&settlement, b"price", b"market")
        .unwrap();
    let b = prover
        .generate_settlement_proof(&settlement, b"price", b"market")
        .unwrap();
    assert_eq!(a.input_hash, b.input_hash);
    assert_eq!(a.output_hash, b.output_hash);
    assert_eq!(a.execution_trace_hash, b.execution_trace_hash);
    assert_eq!(a.program_commitment, b.program_commitment);
    assert_eq!(a.witness_data, b.witness_data);
}

#[test]
fn different_inputs_give_different_input_hashes() {
    let prover = BitVMXProver::new("./settlement_program.elf".to_string());
    let settlement = Settlement::VaultLiquidation {
        vault_id: [5u8; 32],
        liquidation_price: 4_200_000,
        timestamp: 1_700_000_123,
    };
    let a = prover
        .generate_settlement_proof(&settlement, b"price", b"market")
        .unwrap();
    let b = prover
        .generate_settlement_proof(&settlement, b"price2", b"market")
        .unwrap();
    assert_ne!(a.input_hash, b.input_hash);
}

#[test]
fn witness_is_ordered_concatenation_of_hashes() {
    let prover = BitVMXProver::new("./settlement_program.elf".to_string());
    let settlement = Settlement::OptionExpiry {
        option_id: [6u8; 32],
        settlement_price: 0,
        expiry_time: 1_700_000_000,
    };
    let proof = prover
        .generate_settlement_proof(&settlement, b"p", b"m")
        .unwrap();
    let mut expected = Vec::new();
    expected.extend_from_slice(&proof.execution_trace_hash);
    expected.extend_from_slice(&proof.program_commitment);
    expected.extend_from_slice(&proof.input_hash);
    expected.extend_from_slice(&proof.output_hash);
    assert_eq!(proof.witness_data, expected);
}

#[test]
fn input_hash_commits_to_the_canonical_encoding() {
    // The encoding is the id, two 8-byte big-endian integers, and the two
    // length-prefixed blobs; its SHA-256 digest is the proof's input hash.
    let prover = BitVMXProver::new("./settlement_program.elf".to_string());
    let vault_id = [0xabu8; 32];
    let settlement = Settlement::VaultLiquidation {
        vault_id,
        liquidation_price: 0x0102030405060708,
        timestamp: 0x1112131415161718,
        };
    let price_data = b"pd";
    let market_state = b"ms!";
    let proof = prover
        .generate_settlement_proof(&settlement, price_data, market_state)
        .unwrap();

    let mut encoding = Vec::new();
    encoding.extend_from_slice(&vault_id);
    encoding.extend_from_slice(&0x0102030405060708u64.to_be_bytes());
    encoding.extend_from_slice(&0x1112131415161718u64.to_be_bytes());
    encoding.extend_from_slice(&(price_data.len() as u32).to_be_bytes());
    encoding.extend_from_slice(price_data);
    encoding.extend_from_slice(&(market_state.len() as u32).to_be_bytes());
    encoding.extend_from_slice(market_state);
    assert_eq!(proof.input_hash, oracle_vm::hashing::sha256(&encoding));
}
