//! Plain data types shared across the oracle core.
//!
//! Timestamps are unix seconds held in `u64`; prices are integers in the
//! pricing unit (whole US dollars for USD pairs, matching the sanity band
//! the aggregator enforces). Wall-clock reading and timezone
//! handling belong to the callers, so no clock type appears here.

use vstd::prelude::*;

verus! {

/// Asset pair identifier (e.g., "BTC/USD").
#[derive(Debug, Clone, Hash, PartialEq, Eq)]
pub struct AssetPair(pub String);

impl AssetPair {
    /// The BTC/USD pair.
    pub fn btc_usd() -> (r: Self)
        ensures
            r.0@ == "BTC/USD"@,
    {
        AssetPair("BTC/USD".to_owned())
    }

    /// The pair as a string slice.
    pub fn as_str(&self) -> (r: &str)
        ensures
            r@ == self.0@,
    {
        self.0.as_str()
    }
}

/// Price data from an oracle source.
#[derive(Debug, Clone)]
pub struct PriceData {
    /// The asset pair the price is quoted for.
    pub pair: AssetPair,
    /// Price in the pricing unit (whole US dollars for USD pairs).
    pub price: u64,
    /// Producer-asserted unix timestamp, in seconds.
    pub timestamp: u64,
    /// 24h volume, where the source reports one.
    pub volume: Option<u64>,
    /// Exchange name.
    pub source: String,
}

/// Aggregated price published by the consensus aggregator: the value, the
/// contributing exchange set, and the computation inputs it was derived from.
#[derive(Debug, Clone)]
pub struct AggregatedPrice {
    /// The asset pair the price is quoted for.
    pub pair: AssetPair,
    /// Arithmetic mean of the contributing prices, in the pricing unit.
    pub mean_price: u64,
    /// Names of the contributing exchanges, in contribution order.
    pub sources: Vec<String>,
    /// Sum of the contributing prices.
    pub price_sum: u128,
    /// How many exchanges contributed.
    pub contributor_count: usize,
    /// Smallest embedded timestamp among the contributors.
    pub min_timestamp: u64,
    /// Largest embedded timestamp among the contributors.
    pub max_timestamp: u64,
}

/// Oracle node identifier.
#[derive(Debug, Clone, Hash, PartialEq, Eq)]
pub struct NodeId(pub String);

impl NodeId {
    /// Wraps a node identifier string.
    pub fn new(id: &str) -> (r: Self)
        ensures
            r.0@ == id@,
    {
        NodeId(id.to_owned())
    }

    /// The identifier as a string slice.
    pub fn as_str(&self) -> (r: &str)
        ensures
            r@ == self.0@,
    {
        self.0.as_str()
    }
}

/// Signed price data with the oracle's signature.
#[derive(Debug, Clone)]
pub struct SignedPriceData {
    /// The observation being signed.
    pub data: PriceData,
    /// Serialized signature bytes.
    pub signature: Vec<u8>,
    /// Public key of the signing oracle.
    pub oracle_pubkey: bitcoin::secp256k1::PublicKey,
}

/// Network peer information.
#[derive(Debug, Clone)]
pub struct PeerInfo {
    /// The peer's identifier.
    pub node_id: NodeId,
    /// Address the peer is reachable at.
    pub address: String,
    /// The peer's public key.
    pub pubkey: bitcoin::secp256k1::PublicKey,
    /// Unix time the peer was last seen.
    pub last_seen: u64,
}

/// Merkle tree root for price anchoring.
#[derive(Debug, Clone, Copy, PartialEq, Eq)]
pub struct MerkleRoot(pub [u8; 32]);

impl MerkleRoot {
    /// The root as raw bytes.
    pub fn as_bytes(&self) -> (r: &[u8; 32])
        ensures
            r@ == self.0@,
    {
        &self.0
    }
}

/// Bitcoin transaction identifier.
#[derive(Debug, Clone, Copy, PartialEq, Eq)]
pub struct TxId(pub [u8; 32]);

/// UTXO reference.
#[derive(Debug, Clone)]
pub struct UtxoRef {
    /// Transaction the output belongs to.
    pub txid: TxId,
    /// Output index within the transaction.
    pub vout: u32,
    /// Amount held by the output, in satoshis.
    pub amount: u64,
    /// Receiving address, kept as a string.
    pub address: String,
}

} // verus!
