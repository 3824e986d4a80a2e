//! The one persistent entity, and how a transaction record of a block is
//! decoded into it.

use vstd::prelude::*;
use crate::hex::{
    decode_hex, lemma_decoded_range, parse_hex, signed_limit, strip_prefix, unsigned_value,
    DecodeError,
};
use crate::json::{text_field, text_field_of, Json, JsonValue};

verus! {

/// A transfer of native currency between two externally-owned accounts, as
/// a mathematical value.
pub struct TransferView {
    pub tx_hash: Seq<char>,
    pub block_number: int,
    pub timestamp: int,
    pub from_address: Seq<char>,
    pub to_address: Seq<char>,
    pub value: int,
    pub gas_price: Option<int>,
    pub gas: Option<int>,
    pub max_fee_per_gas: Option<int>,
    pub max_priority_fee_per_gas: Option<int>,
}

/// A transfer of native currency between two externally-owned accounts:
/// one row of the table, keyed by `tx_hash`.
#[derive(Debug)]
pub struct NativeCurrencyTransfer {
    pub tx_hash: String,
    pub block_number: i64,
    /// Whole seconds since the start of 1970, UTC.
    pub timestamp: i64,
    pub from_address: String,
    pub to_address: String,
    /// Wei.
    pub value: i64,
    pub gas_price: Option<i64>,
    pub gas: Option<i64>,
    pub max_fee_per_gas: Option<i64>,
    pub max_priority_fee_per_gas: Option<i64>,
}

/// A nullable number as a mathematical value.
pub open spec fn number(n: Option<i64>) -> Option<int> {
    match n {
        Some(v) => Some(v as int),
        None => None,
    }
}

impl View for NativeCurrencyTransfer {
    type V = TransferView;

    open spec fn view(&self) -> TransferView {
        TransferView {
            tx_hash: self.tx_hash@,
            block_number: self.block_number as int,
            timestamp: self.timestamp as int,
            from_address: self.from_address@,
            to_address: self.to_address@,
            value: self.value as int,
            gas_price: number(self.gas_price),
            gas: number(self.gas),
            max_fee_per_gas: number(self.max_fee_per_gas),
            max_priority_fee_per_gas: number(self.max_priority_fee_per_gas),
        }
    }
}

impl TransferView {
    /// No number of the row is negative.
    pub open spec fn non_negative(self) -> bool {
        &&& self.block_number >= 0
        &&& self.value >= 0
        &&& (self.gas_price matches Some(v) ==> v >= 0)
        &&& (self.gas matches Some(v) ==> v >= 0)
        &&& (self.max_fee_per_gas matches Some(v) ==> v >= 0)
        &&& (self.max_priority_fee_per_gas matches Some(v) ==> v >= 0)
    }
}

impl NativeCurrencyTransfer {
    /// A copy of the row.
    pub fn duplicate(&self) -> (r: NativeCurrencyTransfer)
        ensures
            r@ == self@,
    {
        NativeCurrencyTransfer {
            tx_hash: self.tx_hash.clone(),
            block_number: self.block_number,
            timestamp: self.timestamp,
            from_address: self.from_address.clone(),
            to_address: self.to_address.clone(),
            value: self.value,
            gas_price: self.gas_price,
            gas: self.gas,
            max_fee_per_gas: self.max_fee_per_gas,
            max_priority_fee_per_gas: self.max_priority_fee_per_gas,
        }
    }
}

/// The hex text of the quantity `key` of a transaction record; `0` where
/// the member is missing or no string.
pub open spec fn quantity_text(tx: JsonValue, key: Seq<char>) -> Seq<char> {
    match tx.get(key).as_text() {
        Some(s) => s,
        None => "0"@,
    }
}

/// The quantity `key` of a transaction record, decoded.
pub open spec fn quantity(tx: JsonValue, key: Seq<char>) -> Option<int> {
    decode_hex(quantity_text(tx, key))
}

/// The name of the first quantity of a transaction record that does not
/// decode, in the order block number, value, gas price, gas, fee cap, tip;
/// `None` where all six decode.
pub open spec fn undecodable(tx: JsonValue) -> Option<Seq<char>> {
    if quantity(tx, "blockNumber"@) is None {
        Some("blockNumber"@)
    } else if quantity(tx, "value"@) is None {
        Some("value"@)
    } else if quantity(tx, "gasPrice"@) is None {
        Some("gasPrice"@)
    } else if quantity(tx, "gas"@) is None {
        Some("gas"@)
    } else if quantity(tx, "maxFeePerGas"@) is None {
        Some("maxFeePerGas"@)
    } else if quantity(tx, "maxPriorityFeePerGas"@) is None {
        Some("maxPriorityFeePerGas"@)
    } else {
        None
    }
}

/// The row that a transaction record of a block with the given timestamp
/// decodes to, where all its quantities decode. Texts that are missing are
/// empty, quantities that are missing are zero.
pub open spec fn decode_transaction(tx: JsonValue, timestamp: int) -> Option<TransferView> {
    if undecodable(tx) is None {
        Some(
            TransferView {
                tx_hash: text_field(tx, "hash"@),
                block_number: quantity(tx, "blockNumber"@)->0,
                timestamp,
                from_address: text_field(tx, "from"@),
                to_address: text_field(tx, "to"@),
                value: quantity(tx, "value"@)->0,
                gas_price: Some(quantity(tx, "gasPrice"@)->0),
                gas: Some(quantity(tx, "gas"@)->0),
                max_fee_per_gas: Some(quantity(tx, "maxFeePerGas"@)->0),
                max_priority_fee_per_gas: Some(quantity(tx, "maxPriorityFeePerGas"@)->0),
            },
        )
    } else {
        None
    }
}

/// Decodes the quantity `key`; a member that is missing or no string
/// counts as `0`.
pub fn quantity_of(tx: &Json, key: &str) -> (r: Result<i64, DecodeError>)
    ensures
        match r {
            Ok(v) => quantity(tx@, key@) == Some(v as int),
            Err(e) => quantity(tx@, key@) is None && e.input@ == strip_prefix(
                quantity_text(tx@, key@),
            ),
        },
{
    match tx.text_of(key) {
        Some(s) => parse_hex(s),
        None => parse_hex("0"),
    }
}

/// Decodes a transaction record of a block with the given timestamp into a
/// row. The first quantity that is no hex quantity is the error.
pub fn parse_transaction(transaction: &Json, timestamp: i64) -> (r: Result<
    NativeCurrencyTransfer,
    DecodeError,
>)
    ensures
        match r {
            Ok(t) => decode_transaction(transaction@, timestamp as int) == Some(t@),
            Err(e) => match undecodable(transaction@) {
                Some(name) => e.input@ == strip_prefix(quantity_text(transaction@, name)),
                None => false,
            },
        },
{
    let tx_hash = text_field_of(transaction, "hash");
    let block_number = quantity_of(transaction, "blockNumber")?;
    let from_address = text_field_of(transaction, "from");
    let to_address = text_field_of(transaction, "to");
    let value = quantity_of(transaction, "value")?;
    let gas_price = quantity_of(transaction, "gasPrice")?;
    let gas = quantity_of(transaction, "gas")?;
    let max_fee_per_gas = quantity_of(transaction, "maxFeePerGas")?;
    let max_priority_fee_per_gas = quantity_of(transaction, "maxPriorityFeePerGas")?;
    Ok(
        NativeCurrencyTransfer {
            tx_hash,
            block_number,
            timestamp,
            from_address,
            to_address,
            value,
            gas_price: Some(gas_price),
            gas: Some(gas),
            max_fee_per_gas: Some(max_fee_per_gas),
            max_priority_fee_per_gas: Some(max_priority_fee_per_gas),
        },
    )
}

/// The quantity `key` of a transaction record as it is written, before it
/// is put in signed form; zero where it does not decode.
pub open spec fn written(tx: JsonValue, key: Seq<char>) -> int {
    match unsigned_value(strip_prefix(quantity_text(tx, key))) {
        Some(v) => v,
        None => 0,
    }
}

/// A decoded row has no negative number exactly where each quantity of the
/// record is written below two to the power 63; a quantity from there on
/// is stored as a negative number.
pub proof fn lemma_row_non_negative(tx: JsonValue, timestamp: int)
    requires
        decode_transaction(tx, timestamp) is Some,
    ensures
        decode_transaction(tx, timestamp)->0.non_negative() <==> {
            &&& written(tx, "blockNumber"@) < signed_limit()
            &&& written(tx, "value"@) < signed_limit()
            &&& written(tx, "gasPrice"@) < signed_limit()
            &&& written(tx, "gas"@) < signed_limit()
            &&& written(tx, "maxFeePerGas"@) < signed_limit()
            &&& written(tx, "maxPriorityFeePerGas"@) < signed_limit()
        },
{
    lemma_decoded_range(quantity_text(tx, "blockNumber"@));
    lemma_decoded_range(quantity_text(tx, "value"@));
    lemma_decoded_range(quantity_text(tx, "gasPrice"@));
    lemma_decoded_range(quantity_text(tx, "gas"@));
    lemma_decoded_range(quantity_text(tx, "maxFeePerGas"@));
    lemma_decoded_range(quantity_text(tx, "maxPriorityFeePerGas"@));
}

} // verus!
