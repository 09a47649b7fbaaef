use namada_args::amount::Amount;
use namada_args::domain::Address;
use namada_args::envelope::{TxArgs, TxExpiration};
use namada_args::errors::{ArgError, Field};
use namada_args::params::generate_masp_build_params;
use namada_args::sign::{
    authorize, derive_signing_key, plan_authorization, BuilderInfo, Section, ShieldedPart,
    SigningTxData, SpendDescriptor, SpendSig, SpendingKeyMaterial, Tx,
};

fn spend(proof_byte: u8) -> SpendDescriptor {
    SpendDescriptor { proof_data: vec![proof_byte, proof_byte], sig: None }
}

/// A transaction with one opaque section, one confidential section
/// (identifier 7, three unsigned spends) and its construction metadata.
fn sample_tx(positions: Vec<usize>) -> Tx {
    Tx {
        sections: vec![
            Section::Other(vec![0xAA, 0xBB]),
            Section::Confidential(ShieldedPart {
                id: 7,
                spends: vec![spend(1), spend(2), spend(3)],
                body: vec![0xC0, 0xC1],
            }),
            Section::Metadata(BuilderInfo { id: 7, spend_positions: positions }),
        ],
    }
}

fn sigs(bytes: &[u8]) -> Vec<SpendSig> {
    bytes.iter().map(|b| SpendSig { bytes: vec![*b] }).collect()
}

#[test]
fn plan_inverts_the_position_metadata() {
    // construction order 0,1,2 landed at serialized positions 2,0,1
    let tx = sample_tx(vec![2, 0, 1]);
    let ctx = SigningTxData { shielded_hash: Some(7) };
    let plan = plan_authorization(&tx, &ctx).unwrap().unwrap();
    assert_eq!(plan.section_id, 7);
    assert_eq!(plan.descriptor_map, vec![1, 2, 0]);
}

#[test]
fn plan_without_shielded_component_is_none() {
    let tx = sample_tx(vec![0, 1, 2]);
    let ctx = SigningTxData { shielded_hash: None };
    assert!(plan_authorization(&tx, &ctx).unwrap().is_none());
}

#[test]
fn plan_reports_missing_sections() {
    let tx = Tx { sections: vec![Section::Other(vec![1])] };
    let ctx = SigningTxData { shielded_hash: Some(7) };
    assert_eq!(plan_authorization(&tx, &ctx).unwrap_err(), ArgError::MissingSectionError);
    // section present but metadata absent
    let tx = Tx {
        sections: vec![Section::Confidential(ShieldedPart {
            id: 7,
            spends: vec![spend(1)],
            body: vec![],
        })],
    };
    assert_eq!(plan_authorization(&tx, &ctx).unwrap_err(), ArgError::MissingSectionError);
}

#[test]
fn plan_rejects_inconsistent_metadata() {
    let ctx = SigningTxData { shielded_hash: Some(7) };
    // too few positions: the metadata must cover every spend
    let short = sample_tx(vec![0, 1]);
    assert_eq!(plan_authorization(&short, &ctx).unwrap_err(), ArgError::ConsistencyError);
    // a position out of range
    let out = sample_tx(vec![0, 1, 3]);
    assert_eq!(plan_authorization(&out, &ctx).unwrap_err(), ArgError::ConsistencyError);
    // a repeated position
    let dup = sample_tx(vec![0, 1, 1]);
    assert_eq!(plan_authorization(&dup, &ctx).unwrap_err(), ArgError::ConsistencyError);
}

#[test]
fn authorize_without_shielded_component_is_a_no_op() {
    let mut tx = sample_tx(vec![0, 1, 2]);
    let ctx = SigningTxData { shielded_hash: None };
    authorize(&mut tx, &ctx, &sigs(&[])).unwrap();
    assert_eq!(tx.sections.len(), 3);
    match &tx.sections[1] {
        Section::Confidential(p) => {
            assert_eq!(p.spends.len(), 3);
            assert!(p.spends.iter().all(|s| s.sig.is_none()));
        }
        _ => panic!("expected the confidential section"),
    }
}

#[test]
fn authorize_rejects_a_short_signature_set() {
    // two signatures for three spends: reported, never silently dropped
    let mut tx = sample_tx(vec![0, 1, 2]);
    let ctx = SigningTxData { shielded_hash: Some(7) };
    assert_eq!(authorize(&mut tx, &ctx, &sigs(&[9, 8])).unwrap_err(), ArgError::ConsistencyError);
    // the failed attempt left the transaction unchanged
    match &tx.sections[1] {
        Section::Confidential(p) => assert!(p.spends.iter().all(|s| s.sig.is_none())),
        _ => panic!("expected the confidential section"),
    }
}

#[test]
fn authorize_reports_a_missing_section() {
    let mut tx = Tx { sections: vec![Section::Other(vec![1])] };
    let ctx = SigningTxData { shielded_hash: Some(7) };
    assert_eq!(authorize(&mut tx, &ctx, &sigs(&[9])).unwrap_err(), ArgError::MissingSectionError);
}

#[test]
fn authorize_places_signatures_and_keeps_proofs() {
    let mut tx = sample_tx(vec![0, 1, 2]);
    let ctx = SigningTxData { shielded_hash: Some(7) };
    authorize(&mut tx, &ctx, &sigs(&[9, 8, 7])).unwrap();
    match &tx.sections[0] {
        Section::Other(d) => assert_eq!(d, &vec![0xAA, 0xBB]),
        _ => panic!("the opaque section must be untouched"),
    }
    match &tx.sections[1] {
        Section::Confidential(p) => {
            assert_eq!(p.id, 7);
            assert_eq!(p.body, vec![0xC0, 0xC1]);
            assert_eq!(p.spends.len(), 3);
            for (i, expected) in [9u8, 8, 7].iter().enumerate() {
                assert_eq!(p.spends[i].proof_data, vec![(i + 1) as u8, (i + 1) as u8]);
                assert_eq!(p.spends[i].sig.as_ref().unwrap().bytes, vec![*expected]);
            }
        }
        _ => panic!("expected the confidential section"),
    }
}

#[test]
fn two_authorizations_agree_on_content_but_not_signatures() {
    let ctx = SigningTxData { shielded_hash: Some(7) };
    let mut t1 = sample_tx(vec![0, 1, 2]);
    let mut t2 = sample_tx(vec![0, 1, 2]);
    authorize(&mut t1, &ctx, &sigs(&[10, 11, 12])).unwrap();
    authorize(&mut t2, &ctx, &sigs(&[20, 21, 22])).unwrap();
    let (p1, p2) = match (&t1.sections[1], &t2.sections[1]) {
        (Section::Confidential(a), Section::Confidential(b)) => (a, b),
        _ => panic!("expected confidential sections"),
    };
    // non-signature content is identical
    assert_eq!(p1.id, p2.id);
    assert_eq!(p1.body, p2.body);
    for i in 0..3 {
        assert_eq!(p1.spends[i].proof_data, p2.spends[i].proof_data);
        // the signatures differ
        assert_ne!(
            p1.spends[i].sig.as_ref().unwrap().bytes,
            p2.spends[i].sig.as_ref().unwrap().bytes
        );
    }
}

#[test]
fn signing_keys_derive_only_with_spend_authority() {
    let good = SpendingKeyMaterial { has_spend_authority: true, secret: vec![4, 5, 6] };
    assert_eq!(derive_signing_key(&good).unwrap().secret, vec![4, 5, 6]);
    let view_only = SpendingKeyMaterial { has_spend_authority: false, secret: vec![] };
    assert_eq!(derive_signing_key(&view_only).unwrap_err(), ArgError::KeyDerivationError);
}

fn plain_tx_args(use_device: bool) -> TxArgs {
    TxArgs {
        dry_run: false,
        dry_run_wrapper: false,
        dump_tx: false,
        force: false,
        broadcast_only: false,
        wallet_alias_force: false,
        fee_amount: None,
        fee_token: Address::parse("tnam1qtoken".to_string(), Field::Token).unwrap(),
        gas_limit: 0,
        expiration: TxExpiration::Default,
        chain_id: None,
        signing_keys: vec![],
        memo: None,
        tx_reveal_code_path: "tx_reveal_pk.wasm".to_string(),
        use_device,
    }
}

#[test]
fn device_backed_signing_is_unsupported() {
    let args = plain_tx_args(true);
    assert_eq!(
        generate_masp_build_params(0, 0, 0, &args).unwrap_err(),
        ArgError::UnsupportedError
    );
}

#[test]
fn build_params_hand_out_one_factor_per_spend() {
    let args = plain_tx_args(false);
    let mut params = generate_masp_build_params(2, 0, 2, &args).unwrap();
    let a0 = params.spend_alpha(0);
    let a1 = params.spend_alpha(1);
    // asking again for the same spend yields the same factor
    assert_eq!(params.spend_alpha(0), a0);
    assert_eq!(params.spend_alpha(1), a1);
    // factors for different spends are drawn independently; 256 random
    // bits colliding is beyond chance
    assert_ne!(a0, a1);
}

#[test]
fn independent_providers_do_not_correlate() {
    let args = plain_tx_args(false);
    let mut p1 = generate_masp_build_params(1, 0, 1, &args).unwrap();
    let mut p2 = generate_masp_build_params(1, 0, 1, &args).unwrap();
    assert_ne!(p1.spend_alpha(0), p2.spend_alpha(0));
}

#[test]
fn error_descriptions_are_distinct() {
    let all = [
        ArgError::DecodeError,
        ArgError::InvalidValueError(Field::Amount),
        ArgError::MissingSectionError,
        ArgError::KeyDerivationError,
        ArgError::ConsistencyError,
        ArgError::UnsupportedError,
    ];
    for (i, a) in all.iter().enumerate() {
        assert!(!a.describe().is_empty());
        for b in &all[i + 1..] {
            assert_ne!(a.describe(), b.describe());
        }
    }
}

#[test]
fn native_amount_equality_is_numeric() {
    // "10.0", "10", and "10.000000" all mean the same native amount
    let a = Amount::from_str("10.0").unwrap();
    let b = Amount::from_str("10").unwrap();
    let c = Amount::from_str("10.000000").unwrap();
    assert_eq!(a, b);
    assert_eq!(b, c);
}
