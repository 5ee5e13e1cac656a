//! Settlement proof assembly.
//!
//! A settlement event, together with its supporting price and market data,
//! is encoded canonically: fixed-width big-endian integers for the numeric
//! fields and length-prefixed blobs for the variable-length data, so that
//! logically identical inputs always produce byte-identical encodings. The
//! encoding's hash becomes part of the proof's input commitment, which is
//! why canonicality matters.
//!
//! The encoding is meant for an external RISC-V-style execution backend;
//! the placeholder execution here derives the four commitment hashes from
//! the input alone, and the witness is the ordered concatenation of the
//! execution-trace hash, the program commitment, the input hash and the
//! output hash. A real backend replaces
//! `BitVMXProver::execute_settlement_program` and must honor the same
//! contract: accept exactly this canonical encoding and return the four
//! hashes with the output bytes.

use vstd::prelude::*;

use crate::errors::OracleVmError;
use crate::hashing::{sha256, sha256_of};
use crate::vm::{OptionId, Settlement, VaultId};

verus! {

/// The canonical input encoding for a vault-liquidation settlement: the
/// vault id, the liquidation price and timestamp in 8-byte big-endian form,
/// then each blob prefixed by its length in 4-byte big-endian form.
pub open spec fn vault_liquidation_input(
    vault_id: VaultId,
    liquidation_price: u64,
    timestamp: u64,
    price_data: Seq<u8>,
    market_state: Seq<u8>,
) -> Seq<u8> {
    vault_id@ + u64_be_bytes(liquidation_price) + u64_be_bytes(timestamp) + u32_be_bytes(
        price_data.len() as u32,
    ) + price_data + u32_be_bytes(market_state.len() as u32) + market_state
}

/// The canonical input encoding for an option-expiry settlement, shaped
/// exactly like the vault encoding: id, two 8-byte big-endian integers,
/// then the two length-prefixed blobs.
pub open spec fn option_expiry_input(
    option_id: OptionId,
    settlement_price: u64,
    expiry_time: u64,
    price_data: Seq<u8>,
    market_state: Seq<u8>,
) -> Seq<u8> {
    option_id@ + u64_be_bytes(settlement_price) + u64_be_bytes(expiry_time) + u32_be_bytes(
        price_data.len() as u32,
    ) + price_data + u32_be_bytes(market_state.len() as u32) + market_state
}

/// The eight bytes of a `u64`, most significant first.
pub open spec fn u64_be_bytes(v: u64) -> Seq<u8> {
    seq![
        (v >> 56) as u8,
        (v >> 48) as u8,
        (v >> 40) as u8,
        (v >> 32) as u8,
        (v >> 24) as u8,
        (v >> 16) as u8,
        (v >> 8) as u8,
        v as u8,
    ]
}

/// The four bytes of a `u32`, most significant first.
pub open spec fn u32_be_bytes(v: u32) -> Seq<u8> {
    seq![(v >> 24) as u8, (v >> 16) as u8, (v >> 8) as u8, v as u8]
}

/// The fixed output bytes of the placeholder execution backend.
pub open spec fn mock_output_bytes() -> Seq<u8> {
    seq![
        0x73u8, 0x65u8, 0x74u8, 0x74u8, 0x6cu8, 0x65u8, 0x6du8, 0x65u8, 0x6eu8, 0x74u8, 0x5fu8,
        0x65u8, 0x78u8, 0x65u8, 0x63u8, 0x75u8, 0x74u8, 0x65u8, 0x64u8,
    ]
}

/// The fixed program tag the placeholder backend commits to.
pub open spec fn program_tag_bytes() -> Seq<u8> {
    seq![
        0x73u8, 0x65u8, 0x74u8, 0x74u8, 0x6cu8, 0x65u8, 0x6du8, 0x65u8, 0x6eu8, 0x74u8, 0x5fu8,
        0x70u8, 0x72u8, 0x6fu8, 0x67u8, 0x72u8, 0x61u8, 0x6du8, 0x5fu8, 0x76u8, 0x31u8,
    ]
}

/// What the placeholder execution backend returns for a given input
/// encoding: the input hash, the hash of the fixed output, a trace hash
/// derived from both, and the fixed program commitment.
pub open spec fn mock_execution_of(input: Seq<u8>) -> ExecutionDigests {
    let input_hash = sha256_of(input);
    let output_hash = sha256_of(mock_output_bytes());
    ExecutionDigests {
        trace_hash: sha256_of(input_hash + output_hash),
        program_commitment: sha256_of(program_tag_bytes()),
        input_hash,
        output_hash,
    }
}

/// The four commitment hashes of an execution, at the specification level.
pub struct ExecutionDigests {
    /// Hash of the execution trace.
    pub trace_hash: Seq<u8>,
    /// Program commitment (ROM hash).
    pub program_commitment: Seq<u8>,
    /// Hash of the input encoding.
    pub input_hash: Seq<u8>,
    /// Hash of the program output.
    pub output_hash: Seq<u8>,
}

/// Proof data for a settlement operation.
#[derive(Debug, Clone)]
pub struct SettlementProof {
    /// Which settlement is being proven.
    pub settlement_type: SettlementType,
    /// RISC-V execution trace hash.
    pub execution_trace_hash: [u8; 32],
    /// Program commitment (ROM).
    pub program_commitment: [u8; 32],
    /// Input data hash.
    pub input_hash: [u8; 32],
    /// Output data hash.
    pub output_hash: [u8; 32],
    /// Bitcoin script witness data: the four hashes above, concatenated in
    /// that order.
    pub witness_data: Vec<u8>,
}

/// Which settlement a proof speaks for.
#[derive(Debug, Clone)]
pub enum SettlementType {
    /// Proof of a vault liquidation.
    VaultLiquidation {
        /// The liquidated vault.
        vault_id: VaultId,
    },
    /// Proof of an option expiry.
    OptionExpiry {
        /// The settled option.
        option_id: OptionId,
    },
}

/// Result of executing the settlement program.
struct ExecutionResult {
    trace_hash: [u8; 32],
    program_commitment: [u8; 32],
    input_hash: [u8; 32],
    output_hash: [u8; 32],
    output_data: Vec<u8>,
}

/// Prover that turns settlement events into settlement proofs.
pub struct BitVMXProver {
    settlement_program_path: String,
}

/// Appends the eight big-endian bytes of `v`.
fn push_u64_be(out: &mut Vec<u8>, v: u64)
    ensures
        final(out)@ == old(out)@ + u64_be_bytes(v),
{
    let ghost before = out@;
    out.push((v >> 56) as u8);
    out.push((v >> 48) as u8);
    out.push((v >> 40) as u8);
    out.push((v >> 32) as u8);
    out.push((v >> 24) as u8);
    out.push((v >> 16) as u8);
    out.push((v >> 8) as u8);
    out.push(v as u8);
    proof {
        assert(out@ =~= before + u64_be_bytes(v));
    }
}

/// Appends the four big-endian bytes of `v`.
fn push_u32_be(out: &mut Vec<u8>, v: u32)
    ensures
        final(out)@ == old(out)@ + u32_be_bytes(v),
{
    let ghost before = out@;
    out.push((v >> 24) as u8);
    out.push((v >> 16) as u8);
    out.push((v >> 8) as u8);
    out.push(v as u8);
    proof {
        assert(out@ =~= before + u32_be_bytes(v));
    }
}

/// Appends every byte of `bytes`.
fn push_bytes(out: &mut Vec<u8>, bytes: &[u8])
    ensures
        final(out)@ == old(out)@ + bytes@,
{
    let ghost before = out@;
    let mut i: usize = 0;
    while i < bytes.len()
        invariant
            i <= bytes@.len(),
            out@ == before + bytes@.take(i as int),
        decreases bytes@.len() - i,
    {
        out.push(bytes[i]);
        proof {
            assert(before + bytes@.take(i as int + 1) =~= (before + bytes@.take(i as int)).push(
                bytes@[i as int],
            ));
        }
        i = i + 1;
    }
    proof {
        assert(bytes@.take(bytes@.len() as int) =~= bytes@);
    }
}

/// Appends the 32 bytes of a hash.
fn push_hash(out: &mut Vec<u8>, hash: &[u8; 32])
    ensures
        final(out)@ == old(out)@ + hash@,
{
    let ghost before = out@;
    let mut i: usize = 0;
    while i < 32
        invariant
            i <= 32,
            out@ == before + hash@.take(i as int),
        decreases 32 - i,
    {
        out.push(hash[i]);
        proof {
            assert(before + hash@.take(i as int + 1) =~= (before + hash@.take(i as int)).push(
                hash@[i as int],
            ));
        }
        i = i + 1;
    }
    proof {
        assert(hash@.take(32) =~= hash@);
    }
}

impl BitVMXProver {
    /// A prover bound to the given settlement verification program.
    pub fn new(settlement_program_path: String) -> (r: Self)
        ensures
            r.program_path() == settlement_program_path@,
    {
        BitVMXProver { settlement_program_path }
    }

    /// Path of the settlement verification program this prover is bound to.
    pub closed spec fn program_path(&self) -> Seq<char> {
        self.settlement_program_path@
    }

    /// Generates the proof for a settlement operation: the settlement's
    /// typed fields and the supporting data are canonically encoded, the
    /// execution backend is run over the encoding, and the witness is
    /// assembled from the four commitment hashes in fixed order.
    pub fn generate_settlement_proof(
        &self,
        settlement: &Settlement,
        price_data: &[u8],
        market_state: &[u8],
    ) -> (r: Result<SettlementProof, OracleVmError>)
        requires
            price_data@.len() <= u32::MAX,
            market_state@.len() <= u32::MAX,
        ensures
            r is Ok,
            r matches Ok(p) ==> {
                let input = match *settlement {
                    Settlement::VaultLiquidation { vault_id, liquidation_price, timestamp } =>
                        vault_liquidation_input(
                        vault_id,
                        liquidation_price,
                        timestamp,
                        price_data@,
                        market_state@,
                    ),
                    Settlement::OptionExpiry { option_id, settlement_price, expiry_time } =>
                        option_expiry_input(
                        option_id,
                        settlement_price,
                        expiry_time,
                        price_data@,
                        market_state@,
                    ),
                };
                let digests = mock_execution_of(input);
                &&& (settlement matches Settlement::VaultLiquidation { vault_id, .. }
                    ==> p.settlement_type matches SettlementType::VaultLiquidation {
                    vault_id: v,
                } && v == vault_id)
                &&& (settlement matches Settlement::OptionExpiry { option_id, .. }
                    ==> p.settlement_type matches SettlementType::OptionExpiry { option_id: o }
                    && o == option_id)
                &&& p.execution_trace_hash@ == digests.trace_hash
                &&& p.program_commitment@ == digests.program_commitment
                &&& p.input_hash@ == digests.input_hash
                &&& p.output_hash@ == digests.output_hash
                &&& p.witness_data@ == digests.trace_hash + digests.program_commitment
                    + digests.input_hash + digests.output_hash
            },
    {
        match settlement {
            Settlement::VaultLiquidation { vault_id, liquidation_price, timestamp } => {
                self.prove_vault_liquidation(
                    vault_id,
                    *liquidation_price,
                    *timestamp,
                    price_data,
                    market_state,
                )
            },
            Settlement::OptionExpiry { option_id, settlement_price, expiry_time } => {
                self.prove_option_expiry(
                    option_id,
                    *settlement_price,
                    *expiry_time,
                    price_data,
                    market_state,
                )
            },
        }
    }

    /// Generates the proof for a vault liquidation.
    fn prove_vault_liquidation(
        &self,
        vault_id: &VaultId,
        liquidation_price: u64,
        timestamp: u64,
        price_data: &[u8],
        market_state: &[u8],
    ) -> (r: Result<SettlementProof, OracleVmError>)
        requires
            price_data@.len() <= u32::MAX,
            market_state@.len() <= u32::MAX,
        ensures
            r is Ok,
            r matches Ok(p) ==> {
                let input = vault_liquidation_input(
                    *vault_id,
                    liquidation_price,
                    timestamp,
                    price_data@,
                    market_state@,
                );
                let digests = mock_execution_of(input);
                &&& p.settlement_type matches SettlementType::VaultLiquidation { vault_id: v }
                    && v == *vault_id
                &&& p.execution_trace_hash@ == digests.trace_hash
                &&& p.program_commitment@ == digests.program_commitment
                &&& p.input_hash@ == digests.input_hash
                &&& p.output_hash@ == digests.output_hash
                &&& p.witness_data@ == digests.trace_hash + digests.program_commitment
                    + digests.input_hash + digests.output_hash
            },
    {
        let input_data = self.prepare_vault_liquidation_input(
            vault_id,
            liquidation_price,
            timestamp,
            price_data,
            market_state,
        )?;
        let execution_result = self.execute_settlement_program(&input_data)?;
        let witness_data = self.generate_witness_data(&execution_result)?;
        Ok(
            SettlementProof {
                settlement_type: SettlementType::VaultLiquidation { vault_id: *vault_id },
                execution_trace_hash: execution_result.trace_hash,
                program_commitment: execution_result.program_commitment,
                input_hash: execution_result.input_hash,
                output_hash: execution_result.output_hash,
                witness_data,
            },
        )
    }

    /// Generates the proof for an option expiry.
    fn prove_option_expiry(
        &self,
        option_id: &OptionId,
        settlement_price: u64,
        expiry_time: u64,
        price_data: &[u8],
        market_state: &[u8],
    ) -> (r: Result<SettlementProof, OracleVmError>)
        requires
            price_data@.len() <= u32::MAX,
            market_state@.len() <= u32::MAX,
        ensures
            r is Ok,
            r matches Ok(p) ==> {
                let input = option_expiry_input(
                    *option_id,
                    settlement_price,
                    expiry_time,
                    price_data@,
                    market_state@,
                );
                let digests = mock_execution_of(input);
                &&& p.settlement_type matches SettlementType::OptionExpiry { option_id: o } && o
                    == *option_id
                &&& p.execution_trace_hash@ == digests.trace_hash
                &&& p.program_commitment@ == digests.program_commitment
                &&& p.input_hash@ == digests.input_hash
                &&& p.output_hash@ == digests.output_hash
                &&& p.witness_data@ == digests.trace_hash + digests.program_commitment
                    + digests.input_hash + digests.output_hash
            },
    {
        let input_data = self.prepare_option_expiry_input(
            option_id,
            settlement_price,
            expiry_time,
            price_data,
            market_state,
        )?;
        let execution_result = self.execute_settlement_program(&input_data)?;
        let witness_data = self.generate_witness_data(&execution_result)?;
        Ok(
            SettlementProof {
                settlement_type: SettlementType::OptionExpiry { option_id: *option_id },
                execution_trace_hash: execution_result.trace_hash,
                program_commitment: execution_result.program_commitment,
                input_hash: execution_result.input_hash,
                output_hash: execution_result.output_hash,
                witness_data,
            },
        )
    }

    /// Builds the canonical input encoding for the vault-liquidation
    /// program. Two logically identical inputs produce byte-identical
    /// encodings.
    fn prepare_vault_liquidation_input(
        &self,
        vault_id: &VaultId,
        liquidation_price: u64,
        timestamp: u64,
        price_data: &[u8],
        market_state: &[u8],
    ) -> (r: Result<Vec<u8>, OracleVmError>)
        requires
            price_data@.len() <= u32::MAX,
            market_state@.len() <= u32::MAX,
        ensures
            r matches Ok(v) && v@ == vault_liquidation_input(
                *vault_id,
                liquidation_price,
                timestamp,
                price_data@,
                market_state@,
            ),
    {
        let mut input: Vec<u8> = Vec::new();
        push_hash(&mut input, vault_id);
        push_u64_be(&mut input, liquidation_price);
        push_u64_be(&mut input, timestamp);
        push_u32_be(&mut input, price_data.len() as u32);
        push_bytes(&mut input, price_data);
        push_u32_be(&mut input, market_state.len() as u32);
        push_bytes(&mut input, market_state);
        proof {
            assert(input@ =~= vault_liquidation_input(
                *vault_id,
                liquidation_price,
                timestamp,
                price_data@,
                market_state@,
            ));
        }
        Ok(input)
    }

    /// Builds the canonical input encoding for the option-expiry program.
    /// Two logically identical inputs produce byte-identical encodings.
    fn prepare_option_expiry_input(
        &self,
        option_id: &OptionId,
        settlement_price: u64,
        expiry_time: u64,
        price_data: &[u8],
        market_state: &[u8],
    ) -> (r: Result<Vec<u8>, OracleVmError>)
        requires
            price_data@.len() <= u32::MAX,
            market_state@.len() <= u32::MAX,
        ensures
            r matches Ok(v) && v@ == option_expiry_input(
                *option_id,
                settlement_price,
                expiry_time,
                price_data@,
                market_state@,
            ),
    {
        let mut input: Vec<u8> = Vec::new();
        push_hash(&mut input, option_id);
        push_u64_be(&mut input, settlement_price);
        push_u64_be(&mut input, expiry_time);
        push_u32_be(&mut input, price_data.len() as u32);
        push_bytes(&mut input, price_data);
        push_u32_be(&mut input, market_state.len() as u32);
        push_bytes(&mut input, market_state);
        proof {
            assert(input@ =~= option_expiry_input(
                *option_id,
                settlement_price,
                expiry_time,
                price_data@,
                market_state@,
            ));
        }
        Ok(input)
    }

    /// Runs the placeholder settlement execution: the four commitment
    /// hashes are derived from the input encoding and two fixed byte
    /// strings, standing in for a real RISC-V execution backend that must
    /// honor the same input contract.
    fn execute_settlement_program(&self, input_data: &Vec<u8>) -> (r: Result<
        ExecutionResult,
        OracleVmError,
    >)
        ensures
            r matches Ok(e) && e.trace_hash@ == mock_execution_of(input_data@).trace_hash
                && e.program_commitment@ == mock_execution_of(input_data@).program_commitment
                && e.input_hash@ == mock_execution_of(input_data@).input_hash && e.output_hash@
                == mock_execution_of(input_data@).output_hash,
    {
        let input_hash = sha256(input_data.as_slice());
        let mock_output: Vec<u8> = vec![
            0x73u8, 0x65u8, 0x74u8, 0x74u8, 0x6cu8, 0x65u8, 0x6du8, 0x65u8, 0x6eu8, 0x74u8,
            0x5fu8, 0x65u8, 0x78u8, 0x65u8, 0x63u8, 0x75u8, 0x74u8, 0x65u8, 0x64u8,
        ];
        proof {
            assert(mock_output@ =~= mock_output_bytes());
        }
        let output_hash = sha256(mock_output.as_slice());
        let mut trace_input: Vec<u8> = Vec::new();
        push_hash(&mut trace_input, &input_hash);
        push_hash(&mut trace_input, &output_hash);
        proof {
            assert(trace_input@ =~= input_hash@ + output_hash@);
        }
        let trace_hash = sha256(trace_input.as_slice());
        let program_tag: Vec<u8> = vec![
            0x73u8, 0x65u8, 0x74u8, 0x74u8, 0x6cu8, 0x65u8, 0x6du8, 0x65u8, 0x6eu8, 0x74u8,
            0x5fu8, 0x70u8, 0x72u8, 0x6fu8, 0x67u8, 0x72u8, 0x61u8, 0x6du8, 0x5fu8, 0x76u8,
            0x31u8,
        ];
        proof {
            assert(program_tag@ =~= program_tag_bytes());
        }
        let program_commitment = sha256(program_tag.as_slice());
        Ok(
            ExecutionResult {
                trace_hash,
                program_commitment,
                input_hash,
                output_hash,
                output_data: mock_output,
            },
        )
    }

    /// Assembles the Bitcoin script witness: the trace hash, the program
    /// commitment, the input hash and the output hash, concatenated in that
    /// order.
    fn generate_witness_data(&self, execution_result: &ExecutionResult) -> (r: Result<
        Vec<u8>,
        OracleVmError,
    >)
        ensures
            r matches Ok(w) && w@ == execution_result.trace_hash@
                + execution_result.program_commitment@ + execution_result.input_hash@
                + execution_result.output_hash@,
    {
        let mut witness: Vec<u8> = Vec::new();
        push_hash(&mut witness, &execution_result.trace_hash);
        push_hash(&mut witness, &execution_result.program_commitment);
        push_hash(&mut witness, &execution_result.input_hash);
        push_hash(&mut witness, &execution_result.output_hash);
        proof {
            assert(witness@ =~= execution_result.trace_hash@
                + execution_result.program_commitment@ + execution_result.input_hash@
                + execution_result.output_hash@);
        }
        Ok(witness)
    }
}

/// Canonicality of the settlement input encodings, stated as a law: where
/// the identifier bytes, the two numeric fields and the two blobs agree,
/// the encodings agree byte for byte. Since
/// [`BitVMXProver::prepare_vault_liquidation_input`] and
/// [`BitVMXProver::prepare_option_expiry_input`] each ensure their result
/// is exactly the spec encoding of their arguments, any two calls on
/// logically identical inputs — in the same process or another — return
/// byte-identical encodings, which is what lets the encoding's hash serve
/// as the proof's input commitment.
pub proof fn lemma_encoding_deterministic(
    id_a: [u8; 32],
    price_a: u64,
    time_a: u64,
    data_a: Seq<u8>,
    market_a: Seq<u8>,
    id_b: [u8; 32],
    price_b: u64,
    time_b: u64,
    data_b: Seq<u8>,
    market_b: Seq<u8>,
)
    requires
        id_a@ == id_b@,
        price_a == price_b,
        time_a == time_b,
        data_a == data_b,
        market_a == market_b,
    ensures
        vault_liquidation_input(id_a, price_a, time_a, data_a, market_a)
            == vault_liquidation_input(id_b, price_b, time_b, data_b, market_b),
        option_expiry_input(id_a, price_a, time_a, data_a, market_a) == option_expiry_input(
            id_b,
            price_b,
            time_b,
            data_b,
            market_b,
        ),
{
    assert(vault_liquidation_input(id_a, price_a, time_a, data_a, market_a)
        =~= vault_liquidation_input(id_b, price_b, time_b, data_b, market_b));
    assert(option_expiry_input(id_a, price_a, time_a, data_a, market_a) =~= option_expiry_input(
        id_b,
        price_b,
        time_b,
        data_b,
        market_b,
    ));
}

} // verus!
