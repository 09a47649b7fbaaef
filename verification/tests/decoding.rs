use namada_args::amount::DenomAmount;
use namada_args::args::{
    bond_tx_args, claim_rewards_tx_args, eth_bridge_transfer_tx_args, ibc_transfer_tx_args,
    redelegate_tx_args, shielded_transfer_tx_args, shielding_transfer_tx_args,
    transparent_transfer_tx_args, unbond_tx_args, unshielding_transfer_tx_args,
    vote_proposal_tx_args, withdraw_tx_args, TransferSource,
};
use namada_args::envelope::{tx_args_from_slice, InputAmount, TxExpiration};
use namada_args::errors::{ArgError, Field};
use namada_args::msgs::{
    BondMsg, ClaimRewardsMsg, EthBridgeTransferMsg, IbcTransferMsg, RedelegateMsg,
    ShieldedTransferDataMsg, ShieldedTransferMsg, ShieldingTransferDataMsg, ShieldingTransferMsg,
    TransparentTransferDataMsg, TransparentTransferMsg, UnbondMsg, UnshieldingTransferDataMsg,
    UnshieldingTransferMsg, VoteProposalMsg, WithdrawMsg, WrapperTxMsg,
};

fn envelope_bytes() -> Vec<u8> {
    WrapperTxMsg::new(
        "tnam1qtoken".to_string(),
        "0.25".to_string(),
        "25000".to_string(),
        "namada-test.abc".to_string(),
        Some("tpknam1qsigner".to_string()),
        Some("a memo".to_string()),
    )
    .to_bytes()
}

#[test]
fn envelope_decodes_and_validates() {
    let t = envelope_bytes();
    let a = tx_args_from_slice(&t).unwrap();
    assert_eq!(a.fee_token.text(), "tnam1qtoken");
    assert_eq!(a.fee_amount, Some(InputAmount::Unvalidated(DenomAmount { mantissa: 25, denom: 2 })));
    assert_eq!(a.gas_limit, 25000);
    assert_eq!(a.chain_id.as_deref(), Some("namada-test.abc"));
    assert_eq!(a.signing_keys.len(), 1);
    assert_eq!(a.signing_keys[0].text(), "tpknam1qsigner");
    assert_eq!(a.memo.as_deref(), Some("a memo".as_bytes()));
    assert_eq!(a.expiration, TxExpiration::Default);
    assert_eq!(a.tx_reveal_code_path, "tx_reveal_pk.wasm");
    assert!(!a.dry_run && !a.broadcast_only && !a.use_device);
}

#[test]
fn envelope_without_signer_has_no_signing_keys() {
    let t = WrapperTxMsg::new(
        "tnam1qtoken".to_string(),
        "1".to_string(),
        "1".to_string(),
        "chain".to_string(),
        None,
        None,
    )
    .to_bytes();
    let a = tx_args_from_slice(&t).unwrap();
    assert_eq!(a.signing_keys.len(), 0);
    assert_eq!(a.memo, None);
}

#[test]
fn envelope_accepts_zero_fee_and_gas() {
    // zero is a valid, if unusual, fee and gas specification
    let t = WrapperTxMsg::new(
        "tnam1qtoken".to_string(),
        "0".to_string(),
        "0".to_string(),
        "chain".to_string(),
        None,
        None,
    )
    .to_bytes();
    let a = tx_args_from_slice(&t).unwrap();
    assert_eq!(a.gas_limit, 0);
    assert_eq!(a.fee_amount, Some(InputAmount::Unvalidated(DenomAmount { mantissa: 0, denom: 0 })));
}

#[test]
fn envelope_rejects_bad_fields() {
    let bad_fee = WrapperTxMsg::new(
        "tnam1qtoken".to_string(),
        "x".to_string(),
        "0".to_string(),
        "chain".to_string(),
        None,
        None,
    )
    .to_bytes();
    assert_eq!(
        tx_args_from_slice(&bad_fee).unwrap_err(),
        ArgError::InvalidValueError(Field::FeeAmount)
    );
    let bad_gas = WrapperTxMsg::new(
        "tnam1qtoken".to_string(),
        "0".to_string(),
        "1.5".to_string(),
        "chain".to_string(),
        None,
        None,
    )
    .to_bytes();
    assert_eq!(
        tx_args_from_slice(&bad_gas).unwrap_err(),
        ArgError::InvalidValueError(Field::GasLimit)
    );
    let bad_token = WrapperTxMsg::new(
        "".to_string(),
        "0".to_string(),
        "0".to_string(),
        "chain".to_string(),
        None,
        None,
    )
    .to_bytes();
    assert_eq!(
        tx_args_from_slice(&bad_token).unwrap_err(),
        ArgError::InvalidValueError(Field::Token)
    );
}

#[test]
fn malformed_payloads_fail_with_decode_error() {
    let t = envelope_bytes();
    // truncated payload
    let b = BondMsg::new("a".to_string(), "v".to_string(), "1".to_string()).to_bytes();
    let truncated = &b[..b.len() - 1];
    assert_eq!(bond_tx_args(truncated, &t).unwrap_err(), ArgError::DecodeError);
    // wrong field count: a two-field payload where three fields are expected
    let two_fields = WithdrawMsg::new("a".to_string(), "v".to_string()).to_bytes();
    assert_eq!(bond_tx_args(&two_fields, &t).unwrap_err(), ArgError::DecodeError);
    // trailing bytes
    let mut padded = b.clone();
    padded.push(0);
    assert_eq!(bond_tx_args(&padded, &t).unwrap_err(), ArgError::DecodeError);
    // empty payload
    assert_eq!(bond_tx_args(&[], &t).unwrap_err(), ArgError::DecodeError);
    // malformed envelope
    assert_eq!(bond_tx_args(&b, &[1, 2, 3]).unwrap_err(), ArgError::DecodeError);
}

#[test]
fn bond_round_trips_and_builds_args() {
    let msg = BondMsg::new(
        "tnam1qsource".to_string(),
        "tnam1qvalidator".to_string(),
        "12.5".to_string(),
    );
    let b = msg.to_bytes();
    let back = BondMsg::try_from_slice(&b).unwrap();
    assert_eq!(back.source, "tnam1qsource");
    assert_eq!(back.validator, "tnam1qvalidator");
    assert_eq!(back.amount, "12.5");
    let a = bond_tx_args(&b, &envelope_bytes()).unwrap();
    assert_eq!(a.validator.text(), "tnam1qvalidator");
    assert_eq!(a.source.as_ref().unwrap().text(), "tnam1qsource");
    assert_eq!(a.amount.micro, 12_500_000);
    assert_eq!(a.tx_code_path, "tx_bond.wasm");
}

#[test]
fn bond_rejects_invalid_fields() {
    let t = envelope_bytes();
    let empty_source =
        BondMsg::new("".to_string(), "v".to_string(), "1".to_string()).to_bytes();
    assert_eq!(
        bond_tx_args(&empty_source, &t).unwrap_err(),
        ArgError::InvalidValueError(Field::Source)
    );
    let bad_amount =
        BondMsg::new("s".to_string(), "v".to_string(), "one".to_string()).to_bytes();
    assert_eq!(
        bond_tx_args(&bad_amount, &t).unwrap_err(),
        ArgError::InvalidValueError(Field::Amount)
    );
}

#[test]
fn unbond_and_withdraw_build_args() {
    let t = envelope_bytes();
    let u = UnbondMsg::new("s".to_string(), "v".to_string(), "3".to_string()).to_bytes();
    let a = unbond_tx_args(&u, &t).unwrap();
    assert_eq!(a.amount.micro, 3_000_000);
    assert_eq!(a.tx_code_path, "tx_unbond.wasm");
    let w = WithdrawMsg::new("s".to_string(), "v".to_string()).to_bytes();
    let a = withdraw_tx_args(&w, &t).unwrap();
    assert_eq!(a.validator.text(), "v");
    assert_eq!(a.tx_code_path, "tx_withdraw.wasm");
}

#[test]
fn redelegate_builds_args() {
    let t = envelope_bytes();
    let m = RedelegateMsg::new(
        "owner".to_string(),
        "from-validator".to_string(),
        "to-validator".to_string(),
        "7.25".to_string(),
    )
    .to_bytes();
    let a = redelegate_tx_args(&m, &t).unwrap();
    assert_eq!(a.owner.text(), "owner");
    assert_eq!(a.src_validator.text(), "from-validator");
    assert_eq!(a.dest_validator.text(), "to-validator");
    assert_eq!(a.amount.micro, 7_250_000);
    assert_eq!(a.tx_code_path, "tx_redelegate.wasm");
}

#[test]
fn vote_proposal_builds_args() {
    let t = envelope_bytes();
    let m = VoteProposalMsg::new("voter".to_string(), 42, "yay".to_string()).to_bytes();
    let a = vote_proposal_tx_args(&m, &t).unwrap();
    assert_eq!(a.proposal_id, 42);
    assert_eq!(a.vote, "yay");
    assert_eq!(a.voter_address.text(), "voter");
    assert_eq!(a.tx_code_path, "tx_vote_proposal.wasm");
}

#[test]
fn claim_rewards_source_is_optional_but_validated() {
    let t = envelope_bytes();
    let without = ClaimRewardsMsg::new("v".to_string(), None).to_bytes();
    let a = claim_rewards_tx_args(&without, &t).unwrap();
    assert!(a.source.is_none());
    assert_eq!(a.tx_code_path, "tx_claim_rewards.wasm");
    let with = ClaimRewardsMsg::new("v".to_string(), Some("s".to_string())).to_bytes();
    let a = claim_rewards_tx_args(&with, &t).unwrap();
    assert_eq!(a.source.as_ref().unwrap().text(), "s");
    // a present but malformed source is a hard failure, never ignored
    let bad = ClaimRewardsMsg::new("v".to_string(), Some("".to_string())).to_bytes();
    assert_eq!(
        claim_rewards_tx_args(&bad, &t).unwrap_err(),
        ArgError::InvalidValueError(Field::Source)
    );
}

#[test]
fn transparent_transfer_decodes_each_leg() {
    let t = envelope_bytes();
    let m = TransparentTransferMsg::new(vec![
        TransparentTransferDataMsg::new(
            "s1".to_string(),
            "t1".to_string(),
            "tok1".to_string(),
            "1.5".to_string(),
        ),
        TransparentTransferDataMsg::new(
            "s2".to_string(),
            "t2".to_string(),
            "tok2".to_string(),
            "2".to_string(),
        ),
    ])
    .to_bytes();
    let a = transparent_transfer_tx_args(&m, &t).unwrap();
    assert_eq!(a.data.len(), 2);
    assert_eq!(a.data[0].source.text(), "s1");
    assert_eq!(a.data[1].token.text(), "tok2");
    assert_eq!(
        a.data[0].amount,
        InputAmount::Unvalidated(DenomAmount { mantissa: 15, denom: 1 })
    );
    assert_eq!(a.tx_code_path, "tx_transfer.wasm");
}

#[test]
fn transparent_transfer_accepts_empty_leg_list() {
    let t = envelope_bytes();
    let m = TransparentTransferMsg::new(vec![]).to_bytes();
    let a = transparent_transfer_tx_args(&m, &t).unwrap();
    assert_eq!(a.data.len(), 0);
}

#[test]
fn shielding_transfer_scenario() {
    // one leg: source A, token T, amount "10.0", shielded target P
    let t = envelope_bytes();
    let m = ShieldingTransferMsg::new(
        "znam1qtarget".to_string(),
        vec![ShieldingTransferDataMsg::new(
            "tnam1qsourcea".to_string(),
            "tnam1qtokent".to_string(),
            "10.0".to_string(),
        )],
    )
    .to_bytes();
    let a = shielding_transfer_tx_args(&m, &t).unwrap();
    assert_eq!(a.data.len(), 1);
    assert_eq!(a.data[0].source.text(), "tnam1qsourcea");
    assert_eq!(a.data[0].token.text(), "tnam1qtokent");
    // 10.0 at one written decimal place equals 10 at the native denomination
    assert_eq!(
        a.data[0].amount,
        InputAmount::Unvalidated(DenomAmount { mantissa: 100, denom: 1 })
    );
    assert_eq!(a.target.text(), "znam1qtarget");
    assert_eq!(a.tx_code_path, "tx_transfer.wasm");
}

#[test]
fn shielded_transfer_decodes_keys_and_legs() {
    let t = envelope_bytes();
    let m = ShieldedTransferMsg::new(
        vec![ShieldedTransferDataMsg::new(
            vec![1, 2, 3],
            "znam1qtarget".to_string(),
            "tok".to_string(),
            "4.5".to_string(),
        )],
        vec![vec![9, 9], vec![8]],
    )
    .to_bytes();
    let a = shielded_transfer_tx_args(&m, &t).unwrap();
    assert_eq!(a.data.len(), 1);
    assert_eq!(a.data[0].source.material(), &vec![1, 2, 3]);
    assert_eq!(a.data[0].target.text(), "znam1qtarget");
    assert_eq!(a.gas_spending_keys.len(), 2);
    assert_eq!(a.gas_spending_keys[1].material(), &vec![8]);
    assert!(!a.disposable_signing_key);
    // an empty key encoding is a decode failure
    let bad = ShieldedTransferMsg::new(
        vec![ShieldedTransferDataMsg::new(
            vec![],
            "z".to_string(),
            "tok".to_string(),
            "1".to_string(),
        )],
        vec![],
    )
    .to_bytes();
    assert_eq!(shielded_transfer_tx_args(&bad, &t).unwrap_err(), ArgError::DecodeError);
}

#[test]
fn unshielding_transfer_builds_args() {
    let t = envelope_bytes();
    let m = UnshieldingTransferMsg::new(
        vec![5, 6],
        vec![UnshieldingTransferDataMsg::new(
            "target".to_string(),
            "tok".to_string(),
            "0.5".to_string(),
        )],
        vec![vec![7]],
    )
    .to_bytes();
    let a = unshielding_transfer_tx_args(&m, &t).unwrap();
    assert_eq!(a.source.material(), &vec![5, 6]);
    assert_eq!(a.data.len(), 1);
    assert_eq!(a.data[0].target.text(), "target");
    assert_eq!(a.gas_spending_keys.len(), 0);
}

#[test]
fn ibc_transfer_timeouts_are_independently_optional() {
    let t = envelope_bytes();
    let m = IbcTransferMsg::new(
        "src".to_string(),
        "cosmos1receiver".to_string(),
        "tok".to_string(),
        "2.5".to_string(),
        "transfer".to_string(),
        "channel-0".to_string(),
        Some(100),
        None,
        Some("note".to_string()),
        Some(vec![1]),
    )
    .to_bytes();
    let a = ibc_transfer_tx_args(&m, &t).unwrap();
    match &a.source {
        TransferSource::Address(x) => assert_eq!(x.text(), "src"),
        _ => panic!("expected a transparent source"),
    }
    assert_eq!(a.receiver, "cosmos1receiver");
    assert_eq!(a.port_id.text(), "transfer");
    assert_eq!(a.channel_id.text(), "channel-0");
    assert_eq!(a.timeout_height, Some(100));
    assert_eq!(a.timeout_sec_offset, None);
    assert_eq!(a.ibc_memo.as_deref(), Some("note"));
    assert_eq!(a.ibc_shielding_data, Some(vec![1]));
    assert_eq!(a.tx_code_path, "tx_ibc.wasm");
    // an empty shielding-data blob cannot be a structured object
    let bad = IbcTransferMsg::new(
        "src".to_string(),
        "r".to_string(),
        "tok".to_string(),
        "1".to_string(),
        "transfer".to_string(),
        "channel-0".to_string(),
        None,
        None,
        None,
        Some(vec![]),
    )
    .to_bytes();
    assert_eq!(ibc_transfer_tx_args(&bad, &t).unwrap_err(), ArgError::DecodeError);
    // a malformed port identifier is a value failure
    let bad_port = IbcTransferMsg::new(
        "src".to_string(),
        "r".to_string(),
        "tok".to_string(),
        "1".to_string(),
        "".to_string(),
        "channel-0".to_string(),
        None,
        None,
        None,
        None,
    )
    .to_bytes();
    assert_eq!(
        ibc_transfer_tx_args(&bad_port, &t).unwrap_err(),
        ArgError::InvalidValueError(Field::PortId)
    );
}

#[test]
fn eth_bridge_transfer_checks_its_addresses() {
    let t = envelope_bytes();
    let asset = "0x00000000000000000000000000000000000000aa";
    let recipient = "0x1111111111111111111111111111111111111111";
    let m = EthBridgeTransferMsg::new(
        false,
        asset.to_string(),
        recipient.to_string(),
        "tnam1qsender".to_string(),
        "3".to_string(),
        "0.1".to_string(),
        None,
        "tnam1qfeetoken".to_string(),
    )
    .to_bytes();
    let a = eth_bridge_transfer_tx_args(&m, &t).unwrap();
    assert_eq!(a.asset.text(), asset);
    assert_eq!(a.recipient.text(), recipient);
    assert_eq!(a.sender.text(), "tnam1qsender");
    assert!(a.fee_payer.is_none());
    assert_eq!(a.code_path, "tx_bridge_pool.wasm");
    // a 39-digit or non-hex asset is rejected
    let bad = EthBridgeTransferMsg::new(
        false,
        "0x0000000000000000000000000000000000000zz".to_string(),
        recipient.to_string(),
        "s".to_string(),
        "1".to_string(),
        "0".to_string(),
        None,
        "tok".to_string(),
    )
    .to_bytes();
    assert_eq!(
        eth_bridge_transfer_tx_args(&bad, &t).unwrap_err(),
        ArgError::InvalidValueError(Field::Asset)
    );
}
