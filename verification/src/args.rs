use vstd::prelude::*;

verus! {

use crate::errors::{ArgError, Field};
use crate::amount::{Amount, DenomAmount, sp_parse_denominated, sp_parse_native_amount,
    parse_denominated};
use crate::domain::{Address, ChannelId, EthAddress, PaymentAddress, PortId, UnauthorizedKey,
    valid_ident, valid_eth_address};
use crate::envelope::{InputAmount, TxArgs, sp_tx_args_error, tx_args_match, tx_msg_into_args};
use crate::msgs::{BondMsg, BondMsgV, ClaimRewardsMsg, ClaimRewardsMsgV, EthBridgeTransferMsg,
    EthBridgeTransferMsgV, IbcTransferMsg, IbcTransferMsgV, RedelegateMsg, RedelegateMsgV,
    ShieldedTransferDataMsgV, ShieldedTransferMsg, ShieldedTransferMsgV, ShieldingTransferDataMsgV,
    ShieldingTransferMsg, ShieldingTransferMsgV, TransparentTransferDataMsgV,
    TransparentTransferMsg, TransparentTransferMsgV, UnbondMsg, UnbondMsgV,
    UnshieldingTransferDataMsgV, UnshieldingTransferMsg, UnshieldingTransferMsgV, VoteProposalMsg,
    VoteProposalMsgV, WithdrawMsg, WithdrawMsgV, sp_bond_msg, sp_claim_rewards_msg,
    sp_eth_bridge_transfer_msg, sp_ibc_transfer_msg, sp_redelegate_msg, sp_shielded_transfer_msg,
    sp_shielding_transfer_msg, sp_transparent_transfer_msg, sp_unbond_msg,
    sp_unshielding_transfer_msg, sp_vote_proposal_msg, sp_withdraw_msg, sp_wrapper_tx_msg};

/// The typed argument decoders: one per transaction kind. Each takes the
/// kind payload and the envelope payload, decodes and validates every
/// field, builds the envelope, and assembles the kind's argument
/// descriptor with its fixed code-path label.

// ---------------------------------------------------------------------------
// staking
// ---------------------------------------------------------------------------

/// Arguments of a bond transaction.
#[derive(Debug)]
pub struct Bond {
    pub tx: TxArgs,
    pub validator: Address,
    pub amount: Amount,
    pub source: Option<Address>,
    pub tx_code_path: String,
}

/// The first bond field that fails domain validation, in check order.
pub open spec fn sp_bond_field_error(m: BondMsgV) -> Option<ArgError> {
    if !valid_ident(m.source) {
        Some(ArgError::InvalidValueError(Field::Source))
    } else if !valid_ident(m.validator) {
        Some(ArgError::InvalidValueError(Field::Validator))
    } else if sp_parse_native_amount(m.amount) is None {
        Some(ArgError::InvalidValueError(Field::Amount))
    } else {
        None
    }
}

/// The error a bond decode produces, if any: kind payload first, then its
/// fields, then the envelope.
pub open spec fn sp_bond_error(b: Seq<u8>, t: Seq<u8>) -> Option<ArgError> {
    match sp_bond_msg(b) {
        None => Some(ArgError::DecodeError),
        Some(m) => match sp_bond_field_error(m) {
            Some(e) => Some(e),
            None => sp_tx_args_error(t),
        },
    }
}

pub open spec fn bond_matches(a: Bond, m: BondMsgV, t: Seq<u8>) -> bool {
    &&& a.validator@ == m.validator
    &&& Some(a.amount) == sp_parse_native_amount(m.amount)
    &&& a.source matches Some(s) && s@ == m.source
    &&& tx_args_match(a.tx, sp_wrapper_tx_msg(t)->Some_0)
    &&& a.tx_code_path@ == "tx_bond.wasm"@
}

/// Decodes a bond payload and envelope into bond arguments.
pub fn bond_tx_args(bond_msg: &[u8], tx_msg: &[u8]) -> (r: Result<Bond, ArgError>)
    ensures
        r is Ok <==> sp_bond_error(bond_msg@, tx_msg@) is None,
        r matches Err(e) ==> Some(e) == sp_bond_error(bond_msg@, tx_msg@),
        r matches Ok(a) ==> bond_matches(a, sp_bond_msg(bond_msg@)->Some_0, tx_msg@),
{
    let m = match BondMsg::try_from_slice(bond_msg) {
        Ok(m) => m,
        Err(e) => {
            return Err(e);
        },
    };
    let BondMsg { source, validator, amount } = m;
    let source = match Address::parse(source, Field::Source) {
        Ok(a) => a,
        Err(e) => {
            return Err(e);
        },
    };
    let validator = match Address::parse(validator, Field::Validator) {
        Ok(a) => a,
        Err(e) => {
            return Err(e);
        },
    };
    let amount = match Amount::from_str(amount.as_str()) {
        Ok(a) => a,
        Err(e) => {
            return Err(e);
        },
    };
    let tx = match tx_msg_into_args(tx_msg) {
        Ok(t) => t,
        Err(e) => {
            return Err(e);
        },
    };
    Ok(
        Bond {
            tx,
            validator,
            amount,
            source: Some(source),
            tx_code_path: String::from_str("tx_bond.wasm"),
        },
    )
}

/// Arguments of an unbond transaction.
#[derive(Debug)]
pub struct Unbond {
    pub tx: TxArgs,
    pub validator: Address,
    pub amount: Amount,
    pub source: Option<Address>,
    pub tx_code_path: String,
}

/// The first unbond field that fails domain validation, in check order.
pub open spec fn sp_unbond_field_error(m: UnbondMsgV) -> Option<ArgError> {
    if !valid_ident(m.source) {
        Some(ArgError::InvalidValueError(Field::Source))
    } else if !valid_ident(m.validator) {
        Some(ArgError::InvalidValueError(Field::Validator))
    } else if sp_parse_native_amount(m.amount) is None {
        Some(ArgError::InvalidValueError(Field::Amount))
    } else {
        None
    }
}

pub open spec fn sp_unbond_error(b: Seq<u8>, t: Seq<u8>) -> Option<ArgError> {
    match sp_unbond_msg(b) {
        None => Some(ArgError::DecodeError),
        Some(m) => match sp_unbond_field_error(m) {
            Some(e) => Some(e),
            None => sp_tx_args_error(t),
        },
    }
}

pub open spec fn unbond_matches(a: Unbond, m: UnbondMsgV, t: Seq<u8>) -> bool {
    &&& a.validator@ == m.validator
    &&& Some(a.amount) == sp_parse_native_amount(m.amount)
    &&& a.source matches Some(s) && s@ == m.source
    &&& tx_args_match(a.tx, sp_wrapper_tx_msg(t)->Some_0)
    &&& a.tx_code_path@ == "tx_unbond.wasm"@
}

/// Decodes an unbond payload and envelope into unbond arguments.
pub fn unbond_tx_args(unbond_msg: &[u8], tx_msg: &[u8]) -> (r: Result<Unbond, ArgError>)
    ensures
        r is Ok <==> sp_unbond_error(unbond_msg@, tx_msg@) is None,
        r matches Err(e) ==> Some(e) == sp_unbond_error(unbond_msg@, tx_msg@),
        r matches Ok(a) ==> unbond_matches(a, sp_unbond_msg(unbond_msg@)->Some_0, tx_msg@),
{
    let m = match UnbondMsg::try_from_slice(unbond_msg) {
        Ok(m) => m,
        Err(e) => {
            return Err(e);
        },
    };
    let UnbondMsg { source, validator, amount } = m;
    let source = match Address::parse(source, Field::Source) {
        Ok(a) => a,
        Err(e) => {
            return Err(e);
        },
    };
    let validator = match Address::parse(validator, Field::Validator) {
        Ok(a) => a,
        Err(e) => {
            return Err(e);
        },
    };
    let amount = match Amount::from_str(amount.as_str()) {
        Ok(a) => a,
        Err(e) => {
            return Err(e);
        },
    };
    let tx = match tx_msg_into_args(tx_msg) {
        Ok(t) => t,
        Err(e) => {
            return Err(e);
        },
    };
    Ok(
        Unbond {
            tx,
            validator,
            amount,
            source: Some(source),
            tx_code_path: String::from_str("tx_unbond.wasm"),
        },
    )
}

/// Arguments of a withdraw transaction.
#[derive(Debug)]
pub struct Withdraw {
    pub tx: TxArgs,
    pub validator: Address,
    pub source: Option<Address>,
    pub tx_code_path: String,
}

/// The first withdraw field that fails domain validation, in check order.
pub open spec fn sp_withdraw_field_error(m: WithdrawMsgV) -> Option<ArgError> {
    if !valid_ident(m.source) {
        Some(ArgError::InvalidValueError(Field::Source))
    } else if !valid_ident(m.validator) {
        Some(ArgError::InvalidValueError(Field::Validator))
    } else {
        None
    }
}

pub open spec fn sp_withdraw_error(b: Seq<u8>, t: Seq<u8>) -> Option<ArgError> {
    match sp_withdraw_msg(b) {
        None => Some(ArgError::DecodeError),
        Some(m) => match sp_withdraw_field_error(m) {
            Some(e) => Some(e),
            None => sp_tx_args_error(t),
        },
    }
}

pub open spec fn withdraw_matches(a: Withdraw, m: WithdrawMsgV, t: Seq<u8>) -> bool {
    &&& a.validator@ == m.validator
    &&& a.source matches Some(s) && s@ == m.source
    &&& tx_args_match(a.tx, sp_wrapper_tx_msg(t)->Some_0)
    &&& a.tx_code_path@ == "tx_withdraw.wasm"@
}

/// Decodes a withdraw payload and envelope into withdraw arguments.
pub fn withdraw_tx_args(withdraw_msg: &[u8], tx_msg: &[u8]) -> (r: Result<Withdraw, ArgError>)
    ensures
        r is Ok <==> sp_withdraw_error(withdraw_msg@, tx_msg@) is None,
        r matches Err(e) ==> Some(e) == sp_withdraw_error(withdraw_msg@, tx_msg@),
        r matches Ok(a) ==> withdraw_matches(a, sp_withdraw_msg(withdraw_msg@)->Some_0, tx_msg@),
{
    let m = match WithdrawMsg::try_from_slice(withdraw_msg) {
        Ok(m) => m,
        Err(e) => {
            return Err(e);
        },
    };
    let WithdrawMsg { source, validator } = m;
    let source = match Address::parse(source, Field::Source) {
        Ok(a) => a,
        Err(e) => {
            return Err(e);
        },
    };
    let validator = match Address::parse(validator, Field::Validator) {
        Ok(a) => a,
        Err(e) => {
            return Err(e);
        },
    };
    let tx = match tx_msg_into_args(tx_msg) {
        Ok(t) => t,
        Err(e) => {
            return Err(e);
        },
    };
    Ok(
        Withdraw {
            tx,
            validator,
            source: Some(source),
            tx_code_path: String::from_str("tx_withdraw.wasm"),
        },
    )
}

/// Arguments of a redelegation transaction.
#[derive(Debug)]
pub struct Redelegate {
    pub tx: TxArgs,
    pub src_validator: Address,
    pub dest_validator: Address,
    pub amount: Amount,
    pub owner: Address,
    pub tx_code_path: String,
}

/// The first redelegation field that fails domain validation, in check
/// order.
pub open spec fn sp_redelegate_field_error(m: RedelegateMsgV) -> Option<ArgError> {
    if !valid_ident(m.owner) {
        Some(ArgError::InvalidValueError(Field::Owner))
    } else if !valid_ident(m.source_validator) {
        Some(ArgError::InvalidValueError(Field::SourceValidator))
    } else if !valid_ident(m.destination_validator) {
        Some(ArgError::InvalidValueError(Field::DestinationValidator))
    } else if sp_parse_native_amount(m.amount) is None {
        Some(ArgError::InvalidValueError(Field::Amount))
    } else {
        None
    }
}

pub open spec fn sp_redelegate_error(b: Seq<u8>, t: Seq<u8>) -> Option<ArgError> {
    match sp_redelegate_msg(b) {
        None => Some(ArgError::DecodeError),
        Some(m) => match sp_redelegate_field_error(m) {
            Some(e) => Some(e),
            None => sp_tx_args_error(t),
        },
    }
}

pub open spec fn redelegate_matches(a: Redelegate, m: RedelegateMsgV, t: Seq<u8>) -> bool {
    &&& a.owner@ == m.owner
    &&& a.src_validator@ == m.source_validator
    &&& a.dest_validator@ == m.destination_validator
    &&& Some(a.amount) == sp_parse_native_amount(m.amount)
    &&& tx_args_match(a.tx, sp_wrapper_tx_msg(t)->Some_0)
    &&& a.tx_code_path@ == "tx_redelegate.wasm"@
}

/// Decodes a redelegation payload and envelope into redelegation
/// arguments.
pub fn redelegate_tx_args(redelegate_msg: &[u8], tx_msg: &[u8]) -> (r: Result<
    Redelegate,
    ArgError,
>)
    ensures
        r is Ok <==> sp_redelegate_error(redelegate_msg@, tx_msg@) is None,
        r matches Err(e) ==> Some(e) == sp_redelegate_error(redelegate_msg@, tx_msg@),
        r matches Ok(a) ==> redelegate_matches(a, sp_redelegate_msg(redelegate_msg@)->Some_0, tx_msg@),
{
    let m = match RedelegateMsg::try_from_slice(redelegate_msg) {
        Ok(m) => m,
        Err(e) => {
            return Err(e);
        },
    };
    let RedelegateMsg { owner, source_validator, destination_validator, amount } = m;
    let owner = match Address::parse(owner, Field::Owner) {
        Ok(a) => a,
        Err(e) => {
            return Err(e);
        },
    };
    let src_validator = match Address::parse(source_validator, Field::SourceValidator) {
        Ok(a) => a,
        Err(e) => {
            return Err(e);
        },
    };
    let dest_validator = match Address::parse(destination_validator, Field::DestinationValidator) {
        Ok(a) => a,
        Err(e) => {
            return Err(e);
        },
    };
    let amount = match Amount::from_str(amount.as_str()) {
        Ok(a) => a,
        Err(e) => {
            return Err(e);
        },
    };
    let tx = match tx_msg_into_args(tx_msg) {
        Ok(t) => t,
        Err(e) => {
            return Err(e);
        },
    };
    Ok(
        Redelegate {
            tx,
            src_validator,
            dest_validator,
            amount,
            owner,
            tx_code_path: String::from_str("tx_redelegate.wasm"),
        },
    )
}

// ---------------------------------------------------------------------------
// governance and rewards
// ---------------------------------------------------------------------------

/// Arguments of a governance vote.
#[derive(Debug)]
pub struct VoteProposal {
    pub tx: TxArgs,
    pub proposal_id: u64,
    pub vote: String,
    pub voter_address: Address,
    pub tx_code_path: String,
}

/// The vote text is recorded verbatim; only the signer must be a valid
/// address. The envelope is built before the signer is validated.
pub open spec fn sp_vote_proposal_error(b: Seq<u8>, t: Seq<u8>) -> Option<ArgError> {
    match sp_vote_proposal_msg(b) {
        None => Some(ArgError::DecodeError),
        Some(m) => match sp_tx_args_error(t) {
            Some(e) => Some(e),
            None => if !valid_ident(m.signer) {
                Some(ArgError::InvalidValueError(Field::Signer))
            } else {
                None
            },
        },
    }
}

pub open spec fn vote_proposal_matches(a: VoteProposal, m: VoteProposalMsgV, t: Seq<u8>) -> bool {
    &&& a.proposal_id == m.proposal_id
    &&& a.vote@ == m.vote
    &&& a.voter_address@ == m.signer
    &&& tx_args_match(a.tx, sp_wrapper_tx_msg(t)->Some_0)
    &&& a.tx_code_path@ == "tx_vote_proposal.wasm"@
}

/// Decodes a governance-vote payload and envelope into vote arguments.
pub fn vote_proposal_tx_args(vote_proposal_msg: &[u8], tx_msg: &[u8]) -> (r: Result<
    VoteProposal,
    ArgError,
>)
    ensures
        r is Ok <==> sp_vote_proposal_error(vote_proposal_msg@, tx_msg@) is None,
        r matches Err(e) ==> Some(e) == sp_vote_proposal_error(vote_proposal_msg@, tx_msg@),
        r matches Ok(a) ==> vote_proposal_matches(
            a,
            sp_vote_proposal_msg(vote_proposal_msg@)->Some_0,
            tx_msg@,
        ),
{
    let m = match VoteProposalMsg::try_from_slice(vote_proposal_msg) {
        Ok(m) => m,
        Err(e) => {
            return Err(e);
        },
    };
    let VoteProposalMsg { signer, proposal_id, vote } = m;
    let tx = match tx_msg_into_args(tx_msg) {
        Ok(t) => t,
        Err(e) => {
            return Err(e);
        },
    };
    let voter_address = match Address::parse(signer, Field::Signer) {
        Ok(a) => a,
        Err(e) => {
            return Err(e);
        },
    };
    Ok(
        VoteProposal {
            tx,
            proposal_id,
            vote,
            voter_address,
            tx_code_path: String::from_str("tx_vote_proposal.wasm"),
        },
    )
}

/// Arguments of a rewards claim.
#[derive(Debug)]
pub struct ClaimRewards {
    pub tx: TxArgs,
    pub validator: Address,
    pub source: Option<Address>,
    pub tx_code_path: String,
}

/// An absent source claims to self; a present but malformed source is a
/// hard failure, never ignored. The envelope is built before the fields.
pub open spec fn sp_claim_rewards_error(b: Seq<u8>, t: Seq<u8>) -> Option<ArgError> {
    match sp_claim_rewards_msg(b) {
        None => Some(ArgError::DecodeError),
        Some(m) => match sp_tx_args_error(t) {
            Some(e) => Some(e),
            None => if !valid_ident(m.validator) {
                Some(ArgError::InvalidValueError(Field::Validator))
            } else if (m.source matches Some(s) && !valid_ident(s)) {
                Some(ArgError::InvalidValueError(Field::Source))
            } else {
                None
            },
        },
    }
}

pub open spec fn claim_rewards_matches(a: ClaimRewards, m: ClaimRewardsMsgV, t: Seq<u8>) -> bool {
    &&& a.validator@ == m.validator
    &&& (match m.source {
        Some(s) => a.source matches Some(x) && x@ == s,
        None => a.source is None,
    })
    &&& tx_args_match(a.tx, sp_wrapper_tx_msg(t)->Some_0)
    &&& a.tx_code_path@ == "tx_claim_rewards.wasm"@
}

/// Decodes a rewards-claim payload and envelope into claim arguments.
pub fn claim_rewards_tx_args(claim_rewards_msg: &[u8], tx_msg: &[u8]) -> (r: Result<
    ClaimRewards,
    ArgError,
>)
    ensures
        r is Ok <==> sp_claim_rewards_error(claim_rewards_msg@, tx_msg@) is None,
        r matches Err(e) ==> Some(e) == sp_claim_rewards_error(claim_rewards_msg@, tx_msg@),
        r matches Ok(a) ==> claim_rewards_matches(
            a,
            sp_claim_rewards_msg(claim_rewards_msg@)->Some_0,
            tx_msg@,
        ),
{
    let m = match ClaimRewardsMsg::try_from_slice(claim_rewards_msg) {
        Ok(m) => m,
        Err(e) => {
            return Err(e);
        },
    };
    let ClaimRewardsMsg { validator, source } = m;
    let tx = match tx_msg_into_args(tx_msg) {
        Ok(t) => t,
        Err(e) => {
            return Err(e);
        },
    };
    let validator = match Address::parse(validator, Field::Validator) {
        Ok(a) => a,
        Err(e) => {
            return Err(e);
        },
    };
    let source = match source {
        Some(s) => match Address::parse(s, Field::Source) {
            Ok(a) => Some(a),
            Err(e) => {
                return Err(e);
            },
        },
        None => None,
    };
    Ok(
        ClaimRewards {
            tx,
            validator,
            source,
            tx_code_path: String::from_str("tx_claim_rewards.wasm"),
        },
    )
}

// ---------------------------------------------------------------------------
// transparent transfers
// ---------------------------------------------------------------------------

/// One leg of a transparent transfer.
#[derive(Debug)]
pub struct TxTransparentTransferData {
    pub source: Address,
    pub target: Address,
    pub token: Address,
    pub amount: InputAmount,
}

/// Arguments of a transparent transfer; an empty leg list is legal.
#[derive(Debug)]
pub struct TxTransparentTransfer {
    pub tx: TxArgs,
    pub data: Vec<TxTransparentTransferData>,
    pub tx_code_path: String,
}

pub open spec fn sp_transparent_leg_error(m: TransparentTransferDataMsgV) -> Option<ArgError> {
    if !valid_ident(m.source) {
        Some(ArgError::InvalidValueError(Field::Source))
    } else if !valid_ident(m.target) {
        Some(ArgError::InvalidValueError(Field::Target))
    } else if !valid_ident(m.token) {
        Some(ArgError::InvalidValueError(Field::Token))
    } else if sp_parse_denominated(m.amount) is None {
        Some(ArgError::InvalidValueError(Field::Amount))
    } else {
        None
    }
}

pub open spec fn sp_transparent_legs_error(xs: Seq<TransparentTransferDataMsgV>) -> Option<
    ArgError,
>
    decreases xs.len(),
{
    if xs.len() == 0 {
        None
    } else {
        match sp_transparent_leg_error(xs[0]) {
            Some(e) => Some(e),
            None => sp_transparent_legs_error(xs.drop_first()),
        }
    }
}

pub open spec fn sp_transparent_transfer_error(b: Seq<u8>, t: Seq<u8>) -> Option<ArgError> {
    match sp_transparent_transfer_msg(b) {
        None => Some(ArgError::DecodeError),
        Some(m) => match sp_transparent_legs_error(m.data) {
            Some(e) => Some(e),
            None => sp_tx_args_error(t),
        },
    }
}

pub open spec fn transparent_leg_matches(
    a: TxTransparentTransferData,
    m: TransparentTransferDataMsgV,
) -> bool {
    &&& a.source@ == m.source
    &&& a.target@ == m.target
    &&& a.token@ == m.token
    &&& a.amount matches InputAmount::Unvalidated(d) && Some(d) == sp_parse_denominated(m.amount)
}

pub open spec fn transparent_transfer_matches(
    a: TxTransparentTransfer,
    m: TransparentTransferMsgV,
    t: Seq<u8>,
) -> bool {
    &&& a.data@.len() == m.data.len()
    &&& (forall|j: int|
        0 <= j < m.data.len() ==> transparent_leg_matches(#[trigger] a.data@[j], m.data[j]))
    &&& tx_args_match(a.tx, sp_wrapper_tx_msg(t)->Some_0)
    &&& a.tx_code_path@ == "tx_transfer.wasm"@
}

/// Decodes a transparent-transfer payload and envelope; each leg is
/// decoded and validated independently.
#[verifier::loop_isolation(false)]
pub fn transparent_transfer_tx_args(transfer_msg: &[u8], tx_msg: &[u8]) -> (r: Result<
    TxTransparentTransfer,
    ArgError,
>)
    ensures
        r is Ok <==> sp_transparent_transfer_error(transfer_msg@, tx_msg@) is None,
        r matches Err(e) ==> Some(e) == sp_transparent_transfer_error(transfer_msg@, tx_msg@),
        r matches Ok(a) ==> transparent_transfer_matches(
            a,
            sp_transparent_transfer_msg(transfer_msg@)->Some_0,
            tx_msg@,
        ),
{
    let m = match TransparentTransferMsg::try_from_slice(transfer_msg) {
        Ok(m) => m,
        Err(e) => {
            return Err(e);
        },
    };
    let ghost xs = m@.data;
    let data = m.data;
    let n = data.len();
    proof {
        assert(xs.skip(0) =~= xs);
    }
    let mut legs: Vec<TxTransparentTransferData> = Vec::new();
    let mut i: usize = 0;
    while i < n
        invariant
            n == data@.len(),
            xs == crate::msgs::transparent_transfer_data_msg_views(data@),
            i <= n,
            legs@.len() == i,
            sp_transparent_legs_error(xs) == sp_transparent_legs_error(xs.skip(i as int)),
            forall|j: int|
                0 <= j < i ==> transparent_leg_matches(#[trigger] legs@[j], xs[j]),
        decreases n - i,
    {
        proof {
            assert(xs.skip(i as int)[0] == xs[i as int]);
            assert(xs.skip(i as int).drop_first() =~= xs.skip(i as int + 1));
            assert(xs[i as int] == data@[i as int]@);
        }
        let leg = &data[i];
        let source = match Address::parse(leg.source.clone(), Field::Source) {
            Ok(a) => a,
            Err(e) => {
                return Err(e);
            },
        };
        let target = match Address::parse(leg.target.clone(), Field::Target) {
            Ok(a) => a,
            Err(e) => {
                return Err(e);
            },
        };
        let token = match Address::parse(leg.token.clone(), Field::Token) {
            Ok(a) => a,
            Err(e) => {
                return Err(e);
            },
        };
        let denom_amount = match parse_denominated(leg.amount.as_str()) {
            Some(d) => d,
            None => {
                return Err(ArgError::InvalidValueError(Field::Amount));
            },
        };
        legs.push(
            TxTransparentTransferData {
                source,
                target,
                token,
                amount: InputAmount::Unvalidated(denom_amount),
            },
        );
        i = i + 1;
    }
    proof {
        assert(xs.skip(n as int) =~= Seq::<TransparentTransferDataMsgV>::empty());
    }
    let tx = match tx_msg_into_args(tx_msg) {
        Ok(t) => t,
        Err(e) => {
            return Err(e);
        },
    };
    Ok(TxTransparentTransfer { tx, data: legs, tx_code_path: String::from_str("tx_transfer.wasm") })
}

// ---------------------------------------------------------------------------
// shielded transfers
// ---------------------------------------------------------------------------

/// One leg of a fully shielded transfer. Its source is a decoded
/// extended-key reference whose spend-authorizing secret is neutral: at
/// decode time it cannot sign; authorization derives the real secret later.
#[derive(Debug)]
pub struct TxShieldedTransferData {
    pub source: UnauthorizedKey,
    pub target: PaymentAddress,
    pub token: Address,
    pub amount: InputAmount,
}

/// Arguments of a fully shielded transfer.
#[derive(Debug)]
pub struct TxShieldedTransfer {
    pub tx: TxArgs,
    pub data: Vec<TxShieldedTransferData>,
    pub tx_code_path: String,
    pub disposable_signing_key: bool,
    pub gas_spending_keys: Vec<UnauthorizedKey>,
}

pub open spec fn sp_shielded_leg_error(m: ShieldedTransferDataMsgV) -> Option<ArgError> {
    if m.source.len() == 0 {
        Some(ArgError::DecodeError)
    } else if !valid_ident(m.target) {
        Some(ArgError::InvalidValueError(Field::Target))
    } else if !valid_ident(m.token) {
        Some(ArgError::InvalidValueError(Field::Token))
    } else if sp_parse_denominated(m.amount) is None {
        Some(ArgError::InvalidValueError(Field::Amount))
    } else {
        None
    }
}

pub open spec fn sp_shielded_legs_error(xs: Seq<ShieldedTransferDataMsgV>) -> Option<ArgError>
    decreases xs.len(),
{
    if xs.len() == 0 {
        None
    } else {
        match sp_shielded_leg_error(xs[0]) {
            Some(e) => Some(e),
            None => sp_shielded_legs_error(xs.drop_first()),
        }
    }
}

/// Gas spending keys are key encodings; an empty one is a decode failure.
pub open spec fn sp_keys_error(ks: Seq<Seq<u8>>) -> Option<ArgError>
    decreases ks.len(),
{
    if ks.len() == 0 {
        None
    } else if ks[0].len() == 0 {
        Some(ArgError::DecodeError)
    } else {
        sp_keys_error(ks.drop_first())
    }
}

pub open spec fn sp_shielded_transfer_error(b: Seq<u8>, t: Seq<u8>) -> Option<ArgError> {
    match sp_shielded_transfer_msg(b) {
        None => Some(ArgError::DecodeError),
        Some(m) => match sp_shielded_legs_error(m.data) {
            Some(e) => Some(e),
            None => match sp_tx_args_error(t) {
                Some(e) => Some(e),
                None => sp_keys_error(m.gas_spending_keys),
            },
        },
    }
}

pub open spec fn shielded_leg_matches(
    a: TxShieldedTransferData,
    m: ShieldedTransferDataMsgV,
) -> bool {
    &&& a.source@ == m.source
    &&& a.target@ == m.target
    &&& a.token@ == m.token
    &&& a.amount matches InputAmount::Unvalidated(d) && Some(d) == sp_parse_denominated(m.amount)
}

pub open spec fn shielded_transfer_matches(
    a: TxShieldedTransfer,
    m: ShieldedTransferMsgV,
    t: Seq<u8>,
) -> bool {
    &&& a.data@.len() == m.data.len()
    &&& (forall|j: int|
        0 <= j < m.data.len() ==> shielded_leg_matches(#[trigger] a.data@[j], m.data[j]))
    &&& a.gas_spending_keys@.len() == m.gas_spending_keys.len()
    &&& (forall|j: int|
        0 <= j < m.gas_spending_keys.len() ==> (#[trigger] a.gas_spending_keys@[j])@
            == m.gas_spending_keys[j])
    &&& !a.disposable_signing_key
    &&& tx_args_match(a.tx, sp_wrapper_tx_msg(t)->Some_0)
    &&& a.tx_code_path@ == "tx_transfer.wasm"@
}

/// Decodes a fully shielded transfer payload and envelope. Each leg's
/// extended key is decoded with a neutral spend-authorizing secret; it is
/// not a usable signing key until authorization time.
#[verifier::loop_isolation(false)]
pub fn shielded_transfer_tx_args(shielded_transfer_msg: &[u8], tx_msg: &[u8]) -> (r: Result<
    TxShieldedTransfer,
    ArgError,
>)
    ensures
        r is Ok <==> sp_shielded_transfer_error(shielded_transfer_msg@, tx_msg@) is None,
        r matches Err(e) ==> Some(e) == sp_shielded_transfer_error(shielded_transfer_msg@, tx_msg@),
        r matches Ok(a) ==> shielded_transfer_matches(
            a,
            sp_shielded_transfer_msg(shielded_transfer_msg@)->Some_0,
            tx_msg@,
        ),
{
    let m = match ShieldedTransferMsg::try_from_slice(shielded_transfer_msg) {
        Ok(m) => m,
        Err(e) => {
            return Err(e);
        },
    };
    let ghost xs = m@.data;
    let ghost ks = m@.gas_spending_keys;
    let ShieldedTransferMsg { data, gas_spending_keys } = m;
    let n = data.len();
    proof {
        assert(xs.skip(0) =~= xs);
    }
    let mut legs: Vec<TxShieldedTransferData> = Vec::new();
    let mut i: usize = 0;
    while i < n
        invariant
            n == data@.len(),
            xs == crate::msgs::shielded_transfer_data_msg_views(data@),
            i <= n,
            legs@.len() == i,
            sp_shielded_legs_error(xs) == sp_shielded_legs_error(xs.skip(i as int)),
            forall|j: int| 0 <= j < i ==> shielded_leg_matches(#[trigger] legs@[j], xs[j]),
        decreases n - i,
    {
        proof {
            assert(xs.skip(i as int)[0] == xs[i as int]);
            assert(xs.skip(i as int).drop_first() =~= xs.skip(i as int + 1));
            assert(xs[i as int] == data@[i as int]@);
        }
        let leg = &data[i];
        let source = match UnauthorizedKey::try_from_slice(leg.source.as_slice()) {
            Ok(k) => k,
            Err(e) => {
                return Err(e);
            },
        };
        let target = match PaymentAddress::parse(leg.target.clone(), Field::Target) {
            Ok(a) => a,
            Err(e) => {
                return Err(e);
            },
        };
        let token = match Address::parse(leg.token.clone(), Field::Token) {
            Ok(a) => a,
            Err(e) => {
                return Err(e);
            },
        };
        let denom_amount = match parse_denominated(leg.amount.as_str()) {
            Some(d) => d,
            None => {
                return Err(ArgError::InvalidValueError(Field::Amount));
            },
        };
        legs.push(
            TxShieldedTransferData {
                source,
                target,
                token,
                amount: InputAmount::Unvalidated(denom_amount),
            },
        );
        i = i + 1;
    }
    proof {
        assert(xs.skip(n as int) =~= Seq::<ShieldedTransferDataMsgV>::empty());
    }
    let tx = match tx_msg_into_args(tx_msg) {
        Ok(t) => t,
        Err(e) => {
            return Err(e);
        },
    };
    let kn = gas_spending_keys.len();
    proof {
        assert(ks.skip(0) =~= ks);
    }
    let mut gsk: Vec<UnauthorizedKey> = Vec::new();
    let mut k: usize = 0;
    while k < kn
        invariant
            kn == gas_spending_keys@.len(),
            ks == crate::codec::byte_string_views(gas_spending_keys@),
            k <= kn,
            gsk@.len() == k,
            sp_keys_error(ks) == sp_keys_error(ks.skip(k as int)),
            forall|j: int| 0 <= j < k ==> (#[trigger] gsk@[j])@ == ks[j],
        decreases kn - k,
    {
        proof {
            assert(ks.skip(k as int)[0] == ks[k as int]);
            assert(ks.skip(k as int).drop_first() =~= ks.skip(k as int + 1));
            assert(ks[k as int] == gas_spending_keys@[k as int]@);
        }
        let key = match UnauthorizedKey::try_from_slice(gas_spending_keys[k].as_slice()) {
            Ok(x) => x,
            Err(e) => {
                return Err(e);
            },
        };
        gsk.push(key);
        k = k + 1;
    }
    proof {
        assert(ks.skip(kn as int) =~= Seq::<Seq<u8>>::empty());
    }
    Ok(
        TxShieldedTransfer {
            data: legs,
            tx,
            tx_code_path: String::from_str("tx_transfer.wasm"),
            disposable_signing_key: false,
            gas_spending_keys: gsk,
        },
    )
}

// ---------------------------------------------------------------------------
// shielding transfers
// ---------------------------------------------------------------------------

/// One leg of a shielding transfer: transparent source into the pool.
#[derive(Debug)]
pub struct TxShieldingTransferData {
    pub source: Address,
    pub token: Address,
    pub amount: InputAmount,
}

/// Arguments of a shielding transfer: transparent sources, one shielded
/// target.
#[derive(Debug)]
pub struct TxShieldingTransfer {
    pub tx: TxArgs,
    pub data: Vec<TxShieldingTransferData>,
    pub target: PaymentAddress,
    pub tx_code_path: String,
}

pub open spec fn sp_shielding_leg_error(m: ShieldingTransferDataMsgV) -> Option<ArgError> {
    if !valid_ident(m.source) {
        Some(ArgError::InvalidValueError(Field::Source))
    } else if !valid_ident(m.token) {
        Some(ArgError::InvalidValueError(Field::Token))
    } else if sp_parse_denominated(m.amount) is None {
        Some(ArgError::InvalidValueError(Field::Amount))
    } else {
        None
    }
}

pub open spec fn sp_shielding_legs_error(xs: Seq<ShieldingTransferDataMsgV>) -> Option<ArgError>
    decreases xs.len(),
{
    if xs.len() == 0 {
        None
    } else {
        match sp_shielding_leg_error(xs[0]) {
            Some(e) => Some(e),
            None => sp_shielding_legs_error(xs.drop_first()),
        }
    }
}

/// The shielded target is validated before the legs.
pub open spec fn sp_shielding_transfer_error(b: Seq<u8>, t: Seq<u8>) -> Option<ArgError> {
    match sp_shielding_transfer_msg(b) {
        None => Some(ArgError::DecodeError),
        Some(m) => if !valid_ident(m.target) {
            Some(ArgError::InvalidValueError(Field::Target))
        } else {
            match sp_shielding_legs_error(m.data) {
                Some(e) => Some(e),
                None => sp_tx_args_error(t),
            }
        },
    }
}

pub open spec fn shielding_leg_matches(
    a: TxShieldingTransferData,
    m: ShieldingTransferDataMsgV,
) -> bool {
    &&& a.source@ == m.source
    &&& a.token@ == m.token
    &&& a.amount matches InputAmount::Unvalidated(d) && Some(d) == sp_parse_denominated(m.amount)
}

pub open spec fn shielding_transfer_matches(
    a: TxShieldingTransfer,
    m: ShieldingTransferMsgV,
    t: Seq<u8>,
) -> bool {
    &&& a.target@ == m.target
    &&& a.data@.len() == m.data.len()
    &&& (forall|j: int|
        0 <= j < m.data.len() ==> shielding_leg_matches(#[trigger] a.data@[j], m.data[j]))
    &&& tx_args_match(a.tx, sp_wrapper_tx_msg(t)->Some_0)
    &&& a.tx_code_path@ == "tx_transfer.wasm"@
}

/// Decodes a shielding-transfer payload and envelope.
#[verifier::loop_isolation(false)]
pub fn shielding_transfer_tx_args(shielding_transfer_msg: &[u8], tx_msg: &[u8]) -> (r: Result<
    TxShieldingTransfer,
    ArgError,
>)
    ensures
        r is Ok <==> sp_shielding_transfer_error(shielding_transfer_msg@, tx_msg@) is None,
        r matches Err(e) ==> Some(e) == sp_shielding_transfer_error(
            shielding_transfer_msg@,
            tx_msg@,
        ),
        r matches Ok(a) ==> shielding_transfer_matches(
            a,
            sp_shielding_transfer_msg(shielding_transfer_msg@)->Some_0,
            tx_msg@,
        ),
{
    let m = match ShieldingTransferMsg::try_from_slice(shielding_transfer_msg) {
        Ok(m) => m,
        Err(e) => {
            return Err(e);
        },
    };
    let ghost xs = m@.data;
    let ShieldingTransferMsg { target, data } = m;
    let target = match PaymentAddress::parse(target, Field::Target) {
        Ok(a) => a,
        Err(e) => {
            return Err(e);
        },
    };
    let n = data.len();
    proof {
        assert(xs.skip(0) =~= xs);
    }
    let mut legs: Vec<TxShieldingTransferData> = Vec::new();
    let mut i: usize = 0;
    while i < n
        invariant
            n == data@.len(),
            xs == crate::msgs::shielding_transfer_data_msg_views(data@),
            i <= n,
            legs@.len() == i,
            sp_shielding_legs_error(xs) == sp_shielding_legs_error(xs.skip(i as int)),
            forall|j: int| 0 <= j < i ==> shielding_leg_matches(#[trigger] legs@[j], xs[j]),
        decreases n - i,
    {
        proof {
            assert(xs.skip(i as int)[0] == xs[i as int]);
            assert(xs.skip(i as int).drop_first() =~= xs.skip(i as int + 1));
            assert(xs[i as int] == data@[i as int]@);
        }
        let leg = &data[i];
        let source = match Address::parse(leg.source.clone(), Field::Source) {
            Ok(a) => a,
            Err(e) => {
                return Err(e);
            },
        };
        let token = match Address::parse(leg.token.clone(), Field::Token) {
            Ok(a) => a,
            Err(e) => {
                return Err(e);
            },
        };
        let denom_amount = match parse_denominated(leg.amount.as_str()) {
            Some(d) => d,
            None => {
                return Err(ArgError::InvalidValueError(Field::Amount));
            },
        };
        legs.push(
            TxShieldingTransferData { source, token, amount: InputAmount::Unvalidated(denom_amount) },
        );
        i = i + 1;
    }
    proof {
        assert(xs.skip(n as int) =~= Seq::<ShieldingTransferDataMsgV>::empty());
    }
    let tx = match tx_msg_into_args(tx_msg) {
        Ok(t) => t,
        Err(e) => {
            return Err(e);
        },
    };
    Ok(
        TxShieldingTransfer {
            data: legs,
            target,
            tx,
            tx_code_path: String::from_str("tx_transfer.wasm"),
        },
    )
}

// ---------------------------------------------------------------------------
// unshielding transfers
// ---------------------------------------------------------------------------

/// One leg of an unshielding transfer: transparent target out of the pool.
#[derive(Debug)]
pub struct TxUnshieldingTransferData {
    pub target: Address,
    pub token: Address,
    pub amount: InputAmount,
}

/// Arguments of an unshielding transfer: one shielded source, transparent
/// targets.
#[derive(Debug)]
pub struct TxUnshieldingTransfer {
    pub tx: TxArgs,
    pub data: Vec<TxUnshieldingTransferData>,
    pub source: UnauthorizedKey,
    pub gas_spending_keys: Vec<UnauthorizedKey>,
    pub disposable_signing_key: bool,
    pub tx_code_path: String,
}

pub open spec fn sp_unshielding_leg_error(m: UnshieldingTransferDataMsgV) -> Option<ArgError> {
    if !valid_ident(m.target) {
        Some(ArgError::InvalidValueError(Field::Target))
    } else if !valid_ident(m.token) {
        Some(ArgError::InvalidValueError(Field::Token))
    } else if sp_parse_denominated(m.amount) is None {
        Some(ArgError::InvalidValueError(Field::Amount))
    } else {
        None
    }
}

pub open spec fn sp_unshielding_legs_error(xs: Seq<UnshieldingTransferDataMsgV>) -> Option<
    ArgError,
>
    decreases xs.len(),
{
    if xs.len() == 0 {
        None
    } else {
        match sp_unshielding_leg_error(xs[0]) {
            Some(e) => Some(e),
            None => sp_unshielding_legs_error(xs.drop_first()),
        }
    }
}

/// The shielded source key is decoded before the legs; the message's gas
/// spending keys are not decoded and take no part in the result.
pub open spec fn sp_unshielding_transfer_error(b: Seq<u8>, t: Seq<u8>) -> Option<ArgError> {
    match sp_unshielding_transfer_msg(b) {
        None => Some(ArgError::DecodeError),
        Some(m) => if m.source.len() == 0 {
            Some(ArgError::DecodeError)
        } else {
            match sp_unshielding_legs_error(m.data) {
                Some(e) => Some(e),
                None => sp_tx_args_error(t),
            }
        },
    }
}

pub open spec fn unshielding_leg_matches(
    a: TxUnshieldingTransferData,
    m: UnshieldingTransferDataMsgV,
) -> bool {
    &&& a.target@ == m.target
    &&& a.token@ == m.token
    &&& a.amount matches InputAmount::Unvalidated(d) && Some(d) == sp_parse_denominated(m.amount)
}

pub open spec fn unshielding_transfer_matches(
    a: TxUnshieldingTransfer,
    m: UnshieldingTransferMsgV,
    t: Seq<u8>,
) -> bool {
    &&& a.source@ == m.source
    &&& a.data@.len() == m.data.len()
    &&& (forall|j: int|
        0 <= j < m.data.len() ==> unshielding_leg_matches(#[trigger] a.data@[j], m.data[j]))
    &&& a.gas_spending_keys@.len() == 0
    &&& !a.disposable_signing_key
    &&& tx_args_match(a.tx, sp_wrapper_tx_msg(t)->Some_0)
    &&& a.tx_code_path@ == "tx_transfer.wasm"@
}

/// Decodes an unshielding-transfer payload and envelope.
#[verifier::loop_isolation(false)]
pub fn unshielding_transfer_tx_args(unshielding_transfer_msg: &[u8], tx_msg: &[u8]) -> (r: Result<
    TxUnshieldingTransfer,
    ArgError,
>)
    ensures
        r is Ok <==> sp_unshielding_transfer_error(unshielding_transfer_msg@, tx_msg@) is None,
        r matches Err(e) ==> Some(e) == sp_unshielding_transfer_error(
            unshielding_transfer_msg@,
            tx_msg@,
        ),
        r matches Ok(a) ==> unshielding_transfer_matches(
            a,
            sp_unshielding_transfer_msg(unshielding_transfer_msg@)->Some_0,
            tx_msg@,
        ),
{
    let m = match UnshieldingTransferMsg::try_from_slice(unshielding_transfer_msg) {
        Ok(m) => m,
        Err(e) => {
            return Err(e);
        },
    };
    let ghost xs = m@.data;
    let UnshieldingTransferMsg { source, data, gas_spending_keys } = m;
    let source = match UnauthorizedKey::try_from_slice(source.as_slice()) {
        Ok(k) => k,
        Err(e) => {
            return Err(e);
        },
    };
    let n = data.len();
    proof {
        assert(xs.skip(0) =~= xs);
    }
    let mut legs: Vec<TxUnshieldingTransferData> = Vec::new();
    let mut i: usize = 0;
    while i < n
        invariant
            n == data@.len(),
            xs == crate::msgs::unshielding_transfer_data_msg_views(data@),
            i <= n,
            legs@.len() == i,
            sp_unshielding_legs_error(xs) == sp_unshielding_legs_error(xs.skip(i as int)),
            forall|j: int| 0 <= j < i ==> unshielding_leg_matches(#[trigger] legs@[j], xs[j]),
        decreases n - i,
    {
        proof {
            assert(xs.skip(i as int)[0] == xs[i as int]);
            assert(xs.skip(i as int).drop_first() =~= xs.skip(i as int + 1));
            assert(xs[i as int] == data@[i as int]@);
        }
        let leg = &data[i];
        let target = match Address::parse(leg.target.clone(), Field::Target) {
            Ok(a) => a,
            Err(e) => {
                return Err(e);
            },
        };
        let token = match Address::parse(leg.token.clone(), Field::Token) {
            Ok(a) => a,
            Err(e) => {
                return Err(e);
            },
        };
        let denom_amount = match parse_denominated(leg.amount.as_str()) {
            Some(d) => d,
            None => {
                return Err(ArgError::InvalidValueError(Field::Amount));
            },
        };
        legs.push(
            TxUnshieldingTransferData {
                target,
                token,
                amount: InputAmount::Unvalidated(denom_amount),
            },
        );
        i = i + 1;
    }
    proof {
        assert(xs.skip(n as int) =~= Seq::<UnshieldingTransferDataMsgV>::empty());
    }
    let tx = match tx_msg_into_args(tx_msg) {
        Ok(t) => t,
        Err(e) => {
            return Err(e);
        },
    };
    Ok(
        TxUnshieldingTransfer {
            data: legs,
            source,
            tx,
            gas_spending_keys: Vec::new(),
            disposable_signing_key: false,
            tx_code_path: String::from_str("tx_transfer.wasm"),
        },
    )
}

// ---------------------------------------------------------------------------
// inter-blockchain transfers
// ---------------------------------------------------------------------------

/// The source of a value transfer: a transparent address, or a shielded
/// extended-key reference.
#[derive(Debug)]
pub enum TransferSource {
    Address(Address),
    ShieldedSource(UnauthorizedKey),
}

/// Arguments of an inter-blockchain transfer. Timeout height and offset
/// are independently optional: absent, the external default policy
/// applies. An attached shielding-data blob must be a structured object or
/// the whole decode fails.
#[derive(Debug)]
pub struct TxIbcTransfer {
    pub tx: TxArgs,
    pub ibc_memo: Option<String>,
    pub ibc_shielding_data: Option<Vec<u8>>,
    pub source: TransferSource,
    pub receiver: String,
    pub token: Address,
    pub amount: InputAmount,
    pub port_id: PortId,
    pub channel_id: ChannelId,
    pub timeout_height: Option<u64>,
    pub timeout_sec_offset: Option<u64>,
    pub disposable_signing_key: bool,
    pub refund_target: Option<Address>,
    pub gas_spending_keys: Vec<UnauthorizedKey>,
    pub tx_code_path: String,
}

pub open spec fn ibc_fields_error(m: IbcTransferMsgV) -> Option<ArgError> {
    if !valid_ident(m.source) {
        Some(ArgError::InvalidValueError(Field::Source))
    } else if !valid_ident(m.token) {
        Some(ArgError::InvalidValueError(Field::Token))
    } else if sp_parse_denominated(m.amount) is None {
        Some(ArgError::InvalidValueError(Field::Amount))
    } else if !valid_ident(m.port_id) {
        Some(ArgError::InvalidValueError(Field::PortId))
    } else if !valid_ident(m.channel_id) {
        Some(ArgError::InvalidValueError(Field::ChannelId))
    } else if (m.shielding_data matches Some(b) && b.len() == 0) {
        Some(ArgError::DecodeError)
    } else {
        None
    }
}

pub open spec fn sp_ibc_transfer_error(b: Seq<u8>, t: Seq<u8>) -> Option<ArgError> {
    match sp_ibc_transfer_msg(b) {
        None => Some(ArgError::DecodeError),
        Some(m) => match ibc_fields_error(m) {
            Some(e) => Some(e),
            None => sp_tx_args_error(t),
        },
    }
}

pub open spec fn ibc_transfer_matches(a: TxIbcTransfer, m: IbcTransferMsgV, t: Seq<u8>) -> bool {
    &&& a.source matches TransferSource::Address(x) && x@ == m.source
    &&& a.receiver@ == m.receiver
    &&& a.token@ == m.token
    &&& a.amount matches InputAmount::Unvalidated(d) && Some(d) == sp_parse_denominated(m.amount)
    &&& a.port_id@ == m.port_id
    &&& a.channel_id@ == m.channel_id
    &&& a.timeout_height == m.timeout_height
    &&& a.timeout_sec_offset == m.timeout_sec_offset
    &&& (match m.memo {
        Some(x) => a.ibc_memo matches Some(y) && y@ == x,
        None => a.ibc_memo is None,
    })
    &&& (match m.shielding_data {
        Some(x) => a.ibc_shielding_data matches Some(y) && y@ == x,
        None => a.ibc_shielding_data is None,
    })
    &&& !a.disposable_signing_key
    &&& a.refund_target is None
    &&& a.gas_spending_keys@.len() == 0
    &&& tx_args_match(a.tx, sp_wrapper_tx_msg(t)->Some_0)
    &&& a.tx_code_path@ == "tx_ibc.wasm"@
}

/// Decodes an inter-blockchain transfer payload and envelope.
pub fn ibc_transfer_tx_args(ibc_transfer_msg: &[u8], tx_msg: &[u8]) -> (r: Result<
    TxIbcTransfer,
    ArgError,
>)
    ensures
        r is Ok <==> sp_ibc_transfer_error(ibc_transfer_msg@, tx_msg@) is None,
        r matches Err(e) ==> Some(e) == sp_ibc_transfer_error(ibc_transfer_msg@, tx_msg@),
        r matches Ok(a) ==> ibc_transfer_matches(
            a,
            sp_ibc_transfer_msg(ibc_transfer_msg@)->Some_0,
            tx_msg@,
        ),
{
    let m = match IbcTransferMsg::try_from_slice(ibc_transfer_msg) {
        Ok(m) => m,
        Err(e) => {
            return Err(e);
        },
    };
    let IbcTransferMsg {
        source,
        receiver,
        token,
        amount,
        port_id,
        channel_id,
        timeout_height,
        timeout_sec_offset,
        memo,
        shielding_data,
    } = m;
    let source_address = match Address::parse(source, Field::Source) {
        Ok(a) => a,
        Err(e) => {
            return Err(e);
        },
    };
    let token = match Address::parse(token, Field::Token) {
        Ok(a) => a,
        Err(e) => {
            return Err(e);
        },
    };
    let denom_amount = match parse_denominated(amount.as_str()) {
        Some(d) => d,
        None => {
            return Err(ArgError::InvalidValueError(Field::Amount));
        },
    };
    let port_id = match PortId::parse(port_id, Field::PortId) {
        Ok(p) => p,
        Err(e) => {
            return Err(e);
        },
    };
    let channel_id = match ChannelId::parse(channel_id, Field::ChannelId) {
        Ok(c) => c,
        Err(e) => {
            return Err(e);
        },
    };
    let ibc_shielding_data = match shielding_data {
        Some(v) => {
            if v.len() == 0 {
                return Err(ArgError::DecodeError);
            }
            Some(v)
        },
        None => None,
    };
    let tx = match tx_msg_into_args(tx_msg) {
        Ok(t) => t,
        Err(e) => {
            return Err(e);
        },
    };
    Ok(
        TxIbcTransfer {
            tx,
            ibc_memo: memo,
            ibc_shielding_data,
            source: TransferSource::Address(source_address),
            receiver,
            token,
            amount: InputAmount::Unvalidated(denom_amount),
            port_id,
            channel_id,
            timeout_height,
            timeout_sec_offset,
            disposable_signing_key: false,
            refund_target: None,
            gas_spending_keys: Vec::new(),
            tx_code_path: String::from_str("tx_ibc.wasm"),
        },
    )
}

// ---------------------------------------------------------------------------
// bridge-pool transfers
// ---------------------------------------------------------------------------

/// Arguments of a bridge-pool transfer to the Ethereum side. The envelope
/// is built before the kind's own fields are validated.
#[derive(Debug)]
pub struct EthereumBridgePool {
    pub nut: bool,
    pub tx: TxArgs,
    pub asset: EthAddress,
    pub recipient: EthAddress,
    pub sender: Address,
    pub amount: InputAmount,
    pub fee_amount: InputAmount,
    pub fee_payer: Option<Address>,
    pub fee_token: Address,
    pub code_path: String,
}

pub open spec fn eth_bridge_fields_error(m: EthBridgeTransferMsgV) -> Option<ArgError> {
    if !valid_eth_address(m.asset) {
        Some(ArgError::InvalidValueError(Field::Asset))
    } else if !valid_eth_address(m.recipient) {
        Some(ArgError::InvalidValueError(Field::Recipient))
    } else if !valid_ident(m.sender) {
        Some(ArgError::InvalidValueError(Field::Sender))
    } else if sp_parse_denominated(m.amount) is None {
        Some(ArgError::InvalidValueError(Field::Amount))
    } else if sp_parse_denominated(m.fee_amount) is None {
        Some(ArgError::InvalidValueError(Field::FeeAmount))
    } else if (m.fee_payer matches Some(p) && !valid_ident(p)) {
        Some(ArgError::InvalidValueError(Field::FeePayer))
    } else if !valid_ident(m.fee_token) {
        Some(ArgError::InvalidValueError(Field::FeeToken))
    } else {
        None
    }
}

pub open spec fn sp_eth_bridge_transfer_error(b: Seq<u8>, t: Seq<u8>) -> Option<ArgError> {
    match sp_eth_bridge_transfer_msg(b) {
        None => Some(ArgError::DecodeError),
        Some(m) => match sp_tx_args_error(t) {
            Some(e) => Some(e),
            None => eth_bridge_fields_error(m),
        },
    }
}

pub open spec fn eth_bridge_transfer_matches(
    a: EthereumBridgePool,
    m: EthBridgeTransferMsgV,
    t: Seq<u8>,
) -> bool {
    &&& a.nut == m.nut
    &&& a.asset@ == m.asset
    &&& a.recipient@ == m.recipient
    &&& a.sender@ == m.sender
    &&& a.amount matches InputAmount::Unvalidated(d) && Some(d) == sp_parse_denominated(m.amount)
    &&& a.fee_amount matches InputAmount::Unvalidated(f) && Some(f) == sp_parse_denominated(
        m.fee_amount,
    )
    &&& (match m.fee_payer {
        Some(p) => a.fee_payer matches Some(x) && x@ == p,
        None => a.fee_payer is None,
    })
    &&& a.fee_token@ == m.fee_token
    &&& tx_args_match(a.tx, sp_wrapper_tx_msg(t)->Some_0)
    &&& a.code_path@ == "tx_bridge_pool.wasm"@
}

/// Decodes a bridge-pool transfer payload and envelope.
pub fn eth_bridge_transfer_tx_args(eth_bridge_transfer_msg: &[u8], tx_msg: &[u8]) -> (r: Result<
    EthereumBridgePool,
    ArgError,
>)
    ensures
        r is Ok <==> sp_eth_bridge_transfer_error(eth_bridge_transfer_msg@, tx_msg@) is None,
        r matches Err(e) ==> Some(e) == sp_eth_bridge_transfer_error(
            eth_bridge_transfer_msg@,
            tx_msg@,
        ),
        r matches Ok(a) ==> eth_bridge_transfer_matches(
            a,
            sp_eth_bridge_transfer_msg(eth_bridge_transfer_msg@)->Some_0,
            tx_msg@,
        ),
{
    let m = match EthBridgeTransferMsg::try_from_slice(eth_bridge_transfer_msg) {
        Ok(m) => m,
        Err(e) => {
            return Err(e);
        },
    };
    let EthBridgeTransferMsg { nut, asset, recipient, sender, amount, fee_amount, fee_payer, fee_token }
        = m;
    let tx = match tx_msg_into_args(tx_msg) {
        Ok(t) => t,
        Err(e) => {
            return Err(e);
        },
    };
    let asset = match EthAddress::parse(asset, Field::Asset) {
        Ok(a) => a,
        Err(e) => {
            return Err(e);
        },
    };
    let recipient = match EthAddress::parse(recipient, Field::Recipient) {
        Ok(a) => a,
        Err(e) => {
            return Err(e);
        },
    };
    let sender = match Address::parse(sender, Field::Sender) {
        Ok(a) => a,
        Err(e) => {
            return Err(e);
        },
    };
    let denom_amount = match parse_denominated(amount.as_str()) {
        Some(d) => d,
        None => {
            return Err(ArgError::InvalidValueError(Field::Amount));
        },
    };
    let fee_denom = match parse_denominated(fee_amount.as_str()) {
        Some(d) => d,
        None => {
            return Err(ArgError::InvalidValueError(Field::FeeAmount));
        },
    };
    let fee_payer = match fee_payer {
        Some(p) => match Address::parse(p, Field::FeePayer) {
            Ok(a) => Some(a),
            Err(e) => {
                return Err(e);
            },
        },
        None => None,
    };
    let fee_token = match Address::parse(fee_token, Field::FeeToken) {
        Ok(a) => a,
        Err(e) => {
            return Err(e);
        },
    };
    Ok(
        EthereumBridgePool {
            nut,
            tx,
            asset,
            recipient,
            sender,
            amount: InputAmount::Unvalidated(denom_amount),
            fee_amount: InputAmount::Unvalidated(fee_denom),
            fee_payer,
            fee_token,
            code_path: String::from_str("tx_bridge_pool.wasm"),
        },
    )
}

} // verus!
