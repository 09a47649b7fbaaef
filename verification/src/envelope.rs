use vstd::prelude::*;

verus! {

use vstd::utf8::encode_utf8;
use vstd::string::StrSliceExecFns;
use crate::errors::{ArgError, Field};
use crate::amount::{DenomAmount, sp_parse_denominated, sp_parse_gas_limit, parse_denominated,
    parse_gas_limit};
use crate::domain::{Address, PublicKey, valid_ident};
use crate::msgs::{WrapperTxMsg, WrapperTxMsgV, sp_wrapper_tx_msg};

/// The common transaction envelope, shared by every transaction kind:
/// fee, gas limit, chain identifier, signer keys, expiration policy, memo
/// and the run-mode flags. Immutable once built.

#[derive(Clone, Copy, Debug, PartialEq, Eq, Structural)]
pub enum TxExpiration {
    Default,
    NoExpiration,
}

/// An amount as handed to downstream construction: validation against the
/// token's real denomination happens there, not here.
#[derive(Clone, Copy, Debug, PartialEq, Eq, Structural)]
pub enum InputAmount {
    Unvalidated(DenomAmount),
    Validated(crate::amount::Amount),
}

#[derive(Debug)]
pub struct TxArgs {
    pub dry_run: bool,
    pub dry_run_wrapper: bool,
    pub dump_tx: bool,
    pub force: bool,
    pub broadcast_only: bool,
    pub wallet_alias_force: bool,
    pub fee_amount: Option<InputAmount>,
    pub fee_token: Address,
    pub gas_limit: u64,
    pub expiration: TxExpiration,
    pub chain_id: Option<String>,
    pub signing_keys: Vec<PublicKey>,
    pub memo: Option<Vec<u8>>,
    pub tx_reveal_code_path: String,
    pub use_device: bool,
}

/// The first envelope field that fails domain validation, in the order
/// the fields are checked.
pub open spec fn sp_wrapper_field_error(m: WrapperTxMsgV) -> Option<ArgError> {
    if !valid_ident(m.token) {
        Some(ArgError::InvalidValueError(Field::Token))
    } else if sp_parse_denominated(m.fee_amount) is None {
        Some(ArgError::InvalidValueError(Field::FeeAmount))
    } else if sp_parse_gas_limit(m.gas_limit) is None {
        Some(ArgError::InvalidValueError(Field::GasLimit))
    } else if (m.public_key matches Some(pk) && !valid_ident(pk)) {
        Some(ArgError::InvalidValueError(Field::PublicKey))
    } else {
        None
    }
}

/// How a built envelope relates to the decoded envelope message.
pub open spec fn tx_args_match(a: TxArgs, m: WrapperTxMsgV) -> bool {
    &&& !a.dry_run && !a.dry_run_wrapper && !a.dump_tx && !a.force && !a.broadcast_only
        && !a.wallet_alias_force && !a.use_device
    &&& a.fee_token@ == m.token
    &&& a.fee_amount matches Some(InputAmount::Unvalidated(d)) && Some(d) == sp_parse_denominated(
        m.fee_amount,
    )
    &&& Some(a.gas_limit) == sp_parse_gas_limit(m.gas_limit)
    &&& a.expiration is Default
    &&& a.chain_id matches Some(c) && c@ == m.chain_id
    &&& (match m.public_key {
        Some(pk) => a.signing_keys@.len() == 1 && a.signing_keys@[0]@ == pk,
        None => a.signing_keys@.len() == 0,
    })
    &&& (match m.memo {
        Some(t) => a.memo matches Some(b) && b@ == encode_utf8(t),
        None => a.memo is None,
    })
    &&& a.tx_reveal_code_path@ == "tx_reveal_pk.wasm"@
}

/// The error an envelope payload produces, if any: a structural failure is
/// a decode error; a field failing domain validation is a value error.
pub open spec fn sp_tx_args_error(d: Seq<u8>) -> Option<ArgError> {
    match sp_wrapper_tx_msg(d) {
        None => Some(ArgError::DecodeError),
        Some(m) => sp_wrapper_field_error(m),
    }
}

/// Builds the transaction envelope from its encoded payload. This is the
/// common step of every transaction kind.
///
/// An absent signer key yields an empty signer-key list: downstream
/// signing then relies on key material supplied directly to the
/// authorization step; it does not mean "unsigned".
pub fn tx_msg_into_args(tx_msg: &[u8]) -> (r: Result<TxArgs, ArgError>)
    ensures
        r is Ok <==> sp_tx_args_error(tx_msg@) is None,
        r matches Ok(a) ==> tx_args_match(a, sp_wrapper_tx_msg(tx_msg@)->Some_0),
        r matches Err(e) ==> Some(e) == sp_tx_args_error(tx_msg@),
{
    let m = match WrapperTxMsg::try_from_slice(tx_msg) {
        Ok(m) => m,
        Err(e) => {
            return Err(e);
        },
    };
    let WrapperTxMsg { token, fee_amount, gas_limit, chain_id, public_key, memo } = m;
    let fee_token = match Address::parse(token, Field::Token) {
        Ok(a) => a,
        Err(e) => {
            return Err(e);
        },
    };
    let fee = match parse_denominated(fee_amount.as_str()) {
        Some(d) => d,
        None => {
            return Err(ArgError::InvalidValueError(Field::FeeAmount));
        },
    };
    let gas = match parse_gas_limit(gas_limit.as_str()) {
        Ok(g) => g,
        Err(e) => {
            return Err(e);
        },
    };
    let mut signing_keys: Vec<PublicKey> = Vec::new();
    match public_key {
        Some(pk) => {
            let pk = match PublicKey::parse(pk, Field::PublicKey) {
                Ok(k) => k,
                Err(e) => {
                    return Err(e);
                },
            };
            signing_keys.push(pk);
        },
        None => {},
    }
    let memo_bytes: Option<Vec<u8>> = match memo {
        Some(t) => Some(t.as_str().as_bytes_vec()),
        None => None,
    };
    Ok(
        TxArgs {
            dry_run: false,
            dry_run_wrapper: false,
            dump_tx: false,
            force: false,
            broadcast_only: false,
            wallet_alias_force: false,
            fee_amount: Some(InputAmount::Unvalidated(fee)),
            fee_token,
            gas_limit: gas,
            expiration: TxExpiration::Default,
            chain_id: Some(chain_id),
            signing_keys,
            memo: memo_bytes,
            tx_reveal_code_path: String::from_str("tx_reveal_pk.wasm"),
            use_device: false,
        },
    )
}

/// Decodes a bare envelope payload into envelope arguments.
pub fn tx_args_from_slice(tx_msg_bytes: &[u8]) -> (r: Result<TxArgs, ArgError>)
    ensures
        r is Ok <==> sp_tx_args_error(tx_msg_bytes@) is None,
        r matches Ok(a) ==> tx_args_match(a, sp_wrapper_tx_msg(tx_msg_bytes@)->Some_0),
        r matches Err(e) ==> Some(e) == sp_tx_args_error(tx_msg_bytes@),
{
    tx_msg_into_args(tx_msg_bytes)
}

} // verus!
