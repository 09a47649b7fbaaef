use vstd::prelude::*;

verus! {

use vstd::utf8::encode_utf8;
use crate::errors::ArgError;
use crate::codec::{
    enc_bool, enc_bytes, enc_opt_bytes, enc_opt_string, enc_opt_u64, enc_string, enc_u32, enc_u64,
    enc_byte_string_seq, byte_string_seq_fits, byte_string_views, fits_u32, opt_bytes_fits,
    opt_string_fits, view_opt_bytes, view_opt_string, sp_read_bool, sp_read_bytes,
    sp_read_byte_string_seq, sp_read_opt_bytes, sp_read_opt_string, sp_read_opt_u64,
    sp_read_string, sp_read_u32, sp_read_u64, lemma_read_enc_bool, lemma_read_enc_bytes,
    lemma_read_enc_byte_string_seq, lemma_read_enc_opt_bytes, lemma_read_enc_opt_string,
    lemma_read_enc_opt_u64, lemma_read_enc_string, lemma_read_enc_u32, lemma_read_enc_u64,
    read_bool, read_byte_string, read_byte_string_vec, read_opt_byte_string, read_opt_text,
    read_opt_u64, read_text, read_u32, read_u64, write_bool, write_byte_string,
    write_byte_string_vec, write_opt_byte_string, write_opt_text, write_opt_u64, write_text,
    write_u32, write_u64,
};

/// The compact binary messages this layer accepts, one per transaction
/// kind plus the shared transaction envelope (`WrapperTxMsg`).
///
/// Each message has a mathematical view (`*V`), an encoding function
/// (`enc_*`), a specification-level reader (`sp_read_*` and the
/// whole-payload `sp_*`), an executable reader proved equal to the
/// specification reader, an executable writer, and a proof that decoding
/// an encoded message yields the message back.

#[derive(Debug)]
pub struct RevealPkMsg {
    pub public_key: String,
}

#[verifier::ext_equal]
pub struct RevealPkMsgV {
    pub public_key: Seq<char>,
}

impl View for RevealPkMsg {
    type V = RevealPkMsgV;

    open spec fn view(&self) -> RevealPkMsgV {
        RevealPkMsgV {
            public_key: self.public_key@,
        }
    }
}

impl RevealPkMsg {
    pub fn new(public_key: String) -> (r: RevealPkMsg)
        ensures
            r@ == (RevealPkMsgV {
                public_key: public_key@,
            }),
    {
        RevealPkMsg { public_key }
    }

    /// Decodes one whole payload; trailing bytes are a decode failure.
    pub fn try_from_slice(d: &[u8]) -> (r: Result<RevealPkMsg, ArgError>)
        ensures
            r is Ok <==> sp_reveal_pk_msg(d@) is Some,
            r matches Ok(m) ==> sp_reveal_pk_msg(d@) == Some(m@),
            r matches Err(e) ==> e == ArgError::DecodeError,
    {
        match read_reveal_pk_msg(d, 0) {
            Some((m, p)) => {
                if p == d.len() {
                    Ok(m)
                } else {
                    Err(ArgError::DecodeError)
                }
            },
            None => Err(ArgError::DecodeError),
        }
    }

    pub fn to_bytes(&self) -> (r: Vec<u8>)
        requires
            reveal_pk_msg_fits(self@),
        ensures
            r@ == enc_reveal_pk_msg(self@),
    {
        let mut out: Vec<u8> = Vec::new();
        write_reveal_pk_msg(&mut out, self);
        proof {
            assert(out@ =~= enc_reveal_pk_msg(self@));
        }
        out
    }
}

pub open spec fn enc_reveal_pk_msg(m: RevealPkMsgV) -> Seq<u8> {
    enc_string(m.public_key)
}

pub open spec fn reveal_pk_msg_fits(m: RevealPkMsgV) -> bool {
    fits_u32(encode_utf8(m.public_key).len())
}

pub open spec fn sp_read_reveal_pk_msg(d: Seq<u8>, pos: int) -> Option<(RevealPkMsgV, int)> {
    match sp_read_string(d, pos) {
        None => None,
        Some((x_public_key, pos1)) => {
            Some(
                (RevealPkMsgV { public_key: x_public_key }, pos1),
            )
        },
    }
}

pub open spec fn sp_reveal_pk_msg(d: Seq<u8>) -> Option<RevealPkMsgV> {
    match sp_read_reveal_pk_msg(d, 0) {
        Some((m, p)) => if p == d.len() {
            Some(m)
        } else {
            None
        },
        None => None,
    }
}

#[verifier::rlimit(80)]
pub proof fn lemma_read_enc_reveal_pk_msg(d: Seq<u8>, pos: int, m: RevealPkMsgV)
    requires
        0 <= pos,
        reveal_pk_msg_fits(m),
        pos + enc_reveal_pk_msg(m).len() <= d.len(),
        d.subrange(pos, pos + enc_reveal_pk_msg(m).len()) == enc_reveal_pk_msg(m),
    ensures
        sp_read_reveal_pk_msg(d, pos) == Some((m, pos + enc_reveal_pk_msg(m).len())),
{
    let e1 = enc_string(m.public_key);
    let p0 = pos;
    let p1 = p0 + e1.len();
    lemma_read_enc_string(d, p0, m.public_key);
    assert((RevealPkMsgV { public_key: m.public_key }) =~= m);
}

/// Decoding an encoded `RevealPkMsg` yields the message back, exactly.
#[verifier::rlimit(80)]
pub proof fn lemma_reveal_pk_msg_round_trip(m: RevealPkMsgV)
    requires
        reveal_pk_msg_fits(m),
    ensures
        sp_reveal_pk_msg(enc_reveal_pk_msg(m)) == Some(m),
{
    let d = enc_reveal_pk_msg(m);
    assert(d.subrange(0, d.len() as int) =~= d);
    lemma_read_enc_reveal_pk_msg(d, 0, m);
}

pub fn read_reveal_pk_msg(d: &[u8], pos: usize) -> (r: Option<(RevealPkMsg, usize)>)
    requires
        pos <= d@.len(),
    ensures
        match r {
            Some((m, p)) => sp_read_reveal_pk_msg(d@, pos as int) == Some((m@, p as int)) && p
                <= d@.len(),
            None => sp_read_reveal_pk_msg(d@, pos as int) is None,
        },
{
    let (x_public_key, pos1) = match read_text(d, pos) {
        Some(x) => x,
        None => {
            return None;
        },
    };
    Some((RevealPkMsg { public_key: x_public_key }, pos1))
}

#[verifier::rlimit(80)]
pub fn write_reveal_pk_msg(out: &mut Vec<u8>, m: &RevealPkMsg)
    requires
        reveal_pk_msg_fits(m@),
    ensures
        final(out)@ == old(out)@ + enc_reveal_pk_msg(m@),
{
    write_text(out, m.public_key.as_str());
    proof {
        assert(out@ =~= old(out)@ + (enc_string(m@.public_key)));
    }
}

#[derive(Debug)]
pub struct WrapperTxMsg {
    pub token: String,
    pub fee_amount: String,
    pub gas_limit: String,
    pub chain_id: String,
    pub public_key: Option<String>,
    pub memo: Option<String>,
}

#[verifier::ext_equal]
pub struct WrapperTxMsgV {
    pub token: Seq<char>,
    pub fee_amount: Seq<char>,
    pub gas_limit: Seq<char>,
    pub chain_id: Seq<char>,
    pub public_key: Option<Seq<char>>,
    pub memo: Option<Seq<char>>,
}

impl View for WrapperTxMsg {
    type V = WrapperTxMsgV;

    open spec fn view(&self) -> WrapperTxMsgV {
        WrapperTxMsgV {
            token: self.token@,
            fee_amount: self.fee_amount@,
            gas_limit: self.gas_limit@,
            chain_id: self.chain_id@,
            public_key: view_opt_string(self.public_key),
            memo: view_opt_string(self.memo),
        }
    }
}

impl WrapperTxMsg {
    pub fn new(token: String, fee_amount: String, gas_limit: String, chain_id: String, public_key: Option<String>, memo: Option<String>) -> (r: WrapperTxMsg)
        ensures
            r@ == (WrapperTxMsgV {
                token: token@,
                fee_amount: fee_amount@,
                gas_limit: gas_limit@,
                chain_id: chain_id@,
                public_key: view_opt_string(public_key),
                memo: view_opt_string(memo),
            }),
    {
        WrapperTxMsg { token, fee_amount, gas_limit, chain_id, public_key, memo }
    }

    /// Decodes one whole payload; trailing bytes are a decode failure.
    pub fn try_from_slice(d: &[u8]) -> (r: Result<WrapperTxMsg, ArgError>)
        ensures
            r is Ok <==> sp_wrapper_tx_msg(d@) is Some,
            r matches Ok(m) ==> sp_wrapper_tx_msg(d@) == Some(m@),
            r matches Err(e) ==> e == ArgError::DecodeError,
    {
        match read_wrapper_tx_msg(d, 0) {
            Some((m, p)) => {
                if p == d.len() {
                    Ok(m)
                } else {
                    Err(ArgError::DecodeError)
                }
            },
            None => Err(ArgError::DecodeError),
        }
    }

    pub fn to_bytes(&self) -> (r: Vec<u8>)
        requires
            wrapper_tx_msg_fits(self@),
        ensures
            r@ == enc_wrapper_tx_msg(self@),
    {
        let mut out: Vec<u8> = Vec::new();
        write_wrapper_tx_msg(&mut out, self);
        proof {
            assert(out@ =~= enc_wrapper_tx_msg(self@));
        }
        out
    }
}

pub open spec fn enc_wrapper_tx_msg(m: WrapperTxMsgV) -> Seq<u8> {
    enc_string(m.token) + enc_string(m.fee_amount) + enc_string(m.gas_limit) + enc_string(m.chain_id) + enc_opt_string(m.public_key) + enc_opt_string(m.memo)
}

pub open spec fn wrapper_tx_msg_fits(m: WrapperTxMsgV) -> bool {
    fits_u32(encode_utf8(m.token).len()) && fits_u32(encode_utf8(m.fee_amount).len()) && fits_u32(encode_utf8(m.gas_limit).len()) && fits_u32(encode_utf8(m.chain_id).len()) && opt_string_fits(m.public_key) && opt_string_fits(m.memo)
}

pub open spec fn sp_read_wrapper_tx_msg(d: Seq<u8>, pos: int) -> Option<(WrapperTxMsgV, int)> {
    match sp_read_string(d, pos) {
        None => None,
        Some((x_token, pos1)) => {
            match sp_read_string(d, pos1) {
                None => None,
                Some((x_fee_amount, pos2)) => {
                    match sp_read_string(d, pos2) {
                        None => None,
                        Some((x_gas_limit, pos3)) => {
                            match sp_read_string(d, pos3) {
                                None => None,
                                Some((x_chain_id, pos4)) => {
                                    match sp_read_opt_string(d, pos4) {
                                        None => None,
                                        Some((x_public_key, pos5)) => {
                                            match sp_read_opt_string(d, pos5) {
                                                None => None,
                                                Some((x_memo, pos6)) => {
                                                    Some(
                                                        (WrapperTxMsgV { token: x_token, fee_amount: x_fee_amount, gas_limit: x_gas_limit, chain_id: x_chain_id, public_key: x_public_key, memo: x_memo }, pos6),
                                                    )
                                                },
                                            }
                                        },
                                    }
                                },
                            }
                        },
                    }
                },
            }
        },
    }
}

pub open spec fn sp_wrapper_tx_msg(d: Seq<u8>) -> Option<WrapperTxMsgV> {
    match sp_read_wrapper_tx_msg(d, 0) {
        Some((m, p)) => if p == d.len() {
            Some(m)
        } else {
            None
        },
        None => None,
    }
}

#[verifier::rlimit(80)]
pub proof fn lemma_read_enc_wrapper_tx_msg(d: Seq<u8>, pos: int, m: WrapperTxMsgV)
    requires
        0 <= pos,
        wrapper_tx_msg_fits(m),
        pos + enc_wrapper_tx_msg(m).len() <= d.len(),
        d.subrange(pos, pos + enc_wrapper_tx_msg(m).len()) == enc_wrapper_tx_msg(m),
    ensures
        sp_read_wrapper_tx_msg(d, pos) == Some((m, pos + enc_wrapper_tx_msg(m).len())),
{
    let e1 = enc_string(m.token);
    let e2 = enc_string(m.fee_amount);
    let e3 = enc_string(m.gas_limit);
    let e4 = enc_string(m.chain_id);
    let e5 = enc_opt_string(m.public_key);
    let e6 = enc_opt_string(m.memo);
    let p0 = pos;
    let p1 = p0 + e1.len();
    let p2 = p1 + e2.len();
    let p3 = p2 + e3.len();
    let p4 = p3 + e4.len();
    let p5 = p4 + e5.len();
    let p6 = p5 + e6.len();
    assert(d.subrange(p5, p6) =~= e6) by {
        assert forall|j: int| 0 <= j < e6.len() implies d.subrange(p5, p6)[j] == e6[j] by {
            assert(d.subrange(p0, p6)[p5 - p0 + j] == ((e1 + e2 + e3 + e4 + e5) + e6)[p5 - p0 + j]);
        }
    }
    assert(d.subrange(p0, p5) =~= (e1 + e2 + e3 + e4 + e5)) by {
        assert forall|j: int| 0 <= j < p5 - p0 implies d.subrange(p0, p5)[j] == (e1 + e2 + e3 + e4 + e5)[j] by {
            assert(d.subrange(p0, p6)[j] == ((e1 + e2 + e3 + e4 + e5) + e6)[j]);
        }
    }
    assert(d.subrange(p4, p5) =~= e5) by {
        assert forall|j: int| 0 <= j < e5.len() implies d.subrange(p4, p5)[j] == e5[j] by {
            assert(d.subrange(p0, p5)[p4 - p0 + j] == ((e1 + e2 + e3 + e4) + e5)[p4 - p0 + j]);
        }
    }
    assert(d.subrange(p0, p4) =~= (e1 + e2 + e3 + e4)) by {
        assert forall|j: int| 0 <= j < p4 - p0 implies d.subrange(p0, p4)[j] == (e1 + e2 + e3 + e4)[j] by {
            assert(d.subrange(p0, p5)[j] == ((e1 + e2 + e3 + e4) + e5)[j]);
        }
    }
    assert(d.subrange(p3, p4) =~= e4) by {
        assert forall|j: int| 0 <= j < e4.len() implies d.subrange(p3, p4)[j] == e4[j] by {
            assert(d.subrange(p0, p4)[p3 - p0 + j] == ((e1 + e2 + e3) + e4)[p3 - p0 + j]);
        }
    }
    assert(d.subrange(p0, p3) =~= (e1 + e2 + e3)) by {
        assert forall|j: int| 0 <= j < p3 - p0 implies d.subrange(p0, p3)[j] == (e1 + e2 + e3)[j] by {
            assert(d.subrange(p0, p4)[j] == ((e1 + e2 + e3) + e4)[j]);
        }
    }
    assert(d.subrange(p2, p3) =~= e3) by {
        assert forall|j: int| 0 <= j < e3.len() implies d.subrange(p2, p3)[j] == e3[j] by {
            assert(d.subrange(p0, p3)[p2 - p0 + j] == ((e1 + e2) + e3)[p2 - p0 + j]);
        }
    }
    assert(d.subrange(p0, p2) =~= (e1 + e2)) by {
        assert forall|j: int| 0 <= j < p2 - p0 implies d.subrange(p0, p2)[j] == (e1 + e2)[j] by {
            assert(d.subrange(p0, p3)[j] == ((e1 + e2) + e3)[j]);
        }
    }
    assert(d.subrange(p1, p2) =~= e2) by {
        assert forall|j: int| 0 <= j < e2.len() implies d.subrange(p1, p2)[j] == e2[j] by {
            assert(d.subrange(p0, p2)[p1 - p0 + j] == ((e1) + e2)[p1 - p0 + j]);
        }
    }
    assert(d.subrange(p0, p1) =~= (e1)) by {
        assert forall|j: int| 0 <= j < p1 - p0 implies d.subrange(p0, p1)[j] == (e1)[j] by {
            assert(d.subrange(p0, p2)[j] == ((e1) + e2)[j]);
        }
    }
    lemma_read_enc_string(d, p0, m.token);
    lemma_read_enc_string(d, p1, m.fee_amount);
    lemma_read_enc_string(d, p2, m.gas_limit);
    lemma_read_enc_string(d, p3, m.chain_id);
    lemma_read_enc_opt_string(d, p4, m.public_key);
    lemma_read_enc_opt_string(d, p5, m.memo);
    assert((WrapperTxMsgV { token: m.token, fee_amount: m.fee_amount, gas_limit: m.gas_limit, chain_id: m.chain_id, public_key: m.public_key, memo: m.memo }) =~= m);
}

/// Decoding an encoded `WrapperTxMsg` yields the message back, exactly.
#[verifier::rlimit(80)]
pub proof fn lemma_wrapper_tx_msg_round_trip(m: WrapperTxMsgV)
    requires
        wrapper_tx_msg_fits(m),
    ensures
        sp_wrapper_tx_msg(enc_wrapper_tx_msg(m)) == Some(m),
{
    let d = enc_wrapper_tx_msg(m);
    assert(d.subrange(0, d.len() as int) =~= d);
    lemma_read_enc_wrapper_tx_msg(d, 0, m);
}

pub fn read_wrapper_tx_msg(d: &[u8], pos: usize) -> (r: Option<(WrapperTxMsg, usize)>)
    requires
        pos <= d@.len(),
    ensures
        match r {
            Some((m, p)) => sp_read_wrapper_tx_msg(d@, pos as int) == Some((m@, p as int)) && p
                <= d@.len(),
            None => sp_read_wrapper_tx_msg(d@, pos as int) is None,
        },
{
    let (x_token, pos1) = match read_text(d, pos) {
        Some(x) => x,
        None => {
            return None;
        },
    };
    let (x_fee_amount, pos2) = match read_text(d, pos1) {
        Some(x) => x,
        None => {
            return None;
        },
    };
    let (x_gas_limit, pos3) = match read_text(d, pos2) {
        Some(x) => x,
        None => {
            return None;
        },
    };
    let (x_chain_id, pos4) = match read_text(d, pos3) {
        Some(x) => x,
        None => {
            return None;
        },
    };
    let (x_public_key, pos5) = match read_opt_text(d, pos4) {
        Some(x) => x,
        None => {
            return None;
        },
    };
    let (x_memo, pos6) = match read_opt_text(d, pos5) {
        Some(x) => x,
        None => {
            return None;
        },
    };
    Some((WrapperTxMsg { token: x_token, fee_amount: x_fee_amount, gas_limit: x_gas_limit, chain_id: x_chain_id, public_key: x_public_key, memo: x_memo }, pos6))
}

#[verifier::rlimit(80)]
pub fn write_wrapper_tx_msg(out: &mut Vec<u8>, m: &WrapperTxMsg)
    requires
        wrapper_tx_msg_fits(m@),
    ensures
        final(out)@ == old(out)@ + enc_wrapper_tx_msg(m@),
{
    write_text(out, m.token.as_str());
    proof {
        assert(out@ =~= old(out)@ + (enc_string(m@.token)));
    }
    write_text(out, m.fee_amount.as_str());
    proof {
        assert(out@ =~= old(out)@ + (enc_string(m@.token) + enc_string(m@.fee_amount)));
    }
    write_text(out, m.gas_limit.as_str());
    proof {
        assert(out@ =~= old(out)@ + (enc_string(m@.token) + enc_string(m@.fee_amount) + enc_string(m@.gas_limit)));
    }
    write_text(out, m.chain_id.as_str());
    proof {
        assert(out@ =~= old(out)@ + (enc_string(m@.token) + enc_string(m@.fee_amount) + enc_string(m@.gas_limit) + enc_string(m@.chain_id)));
    }
    write_opt_text(out, &m.public_key);
    proof {
        assert(out@ =~= old(out)@ + (enc_string(m@.token) + enc_string(m@.fee_amount) + enc_string(m@.gas_limit) + enc_string(m@.chain_id) + enc_opt_string(m@.public_key)));
    }
    write_opt_text(out, &m.memo);
    proof {
        assert(out@ =~= old(out)@ + (enc_string(m@.token) + enc_string(m@.fee_amount) + enc_string(m@.gas_limit) + enc_string(m@.chain_id) + enc_opt_string(m@.public_key) + enc_opt_string(m@.memo)));
    }
}

#[derive(Debug)]
pub struct BondMsg {
    pub source: String,
    pub validator: String,
    pub amount: String,
}

#[verifier::ext_equal]
pub struct BondMsgV {
    pub source: Seq<char>,
    pub validator: Seq<char>,
    pub amount: Seq<char>,
}

impl View for BondMsg {
    type V = BondMsgV;

    open spec fn view(&self) -> BondMsgV {
        BondMsgV {
            source: self.source@,
            validator: self.validator@,
            amount: self.amount@,
        }
    }
}

impl BondMsg {
    pub fn new(source: String, validator: String, amount: String) -> (r: BondMsg)
        ensures
            r@ == (BondMsgV {
                source: source@,
                validator: validator@,
                amount: amount@,
            }),
    {
        BondMsg { source, validator, amount }
    }

    /// Decodes one whole payload; trailing bytes are a decode failure.
    pub fn try_from_slice(d: &[u8]) -> (r: Result<BondMsg, ArgError>)
        ensures
            r is Ok <==> sp_bond_msg(d@) is Some,
            r matches Ok(m) ==> sp_bond_msg(d@) == Some(m@),
            r matches Err(e) ==> e == ArgError::DecodeError,
    {
        match read_bond_msg(d, 0) {
            Some((m, p)) => {
                if p == d.len() {
                    Ok(m)
                } else {
                    Err(ArgError::DecodeError)
                }
            },
            None => Err(ArgError::DecodeError),
        }
    }

    pub fn to_bytes(&self) -> (r: Vec<u8>)
        requires
            bond_msg_fits(self@),
        ensures
            r@ == enc_bond_msg(self@),
    {
        let mut out: Vec<u8> = Vec::new();
        write_bond_msg(&mut out, self);
        proof {
            assert(out@ =~= enc_bond_msg(self@));
        }
        out
    }
}

pub open spec fn enc_bond_msg(m: BondMsgV) -> Seq<u8> {
    enc_string(m.source) + enc_string(m.validator) + enc_string(m.amount)
}

pub open spec fn bond_msg_fits(m: BondMsgV) -> bool {
    fits_u32(encode_utf8(m.source).len()) && fits_u32(encode_utf8(m.validator).len()) && fits_u32(encode_utf8(m.amount).len())
}

pub open spec fn sp_read_bond_msg(d: Seq<u8>, pos: int) -> Option<(BondMsgV, int)> {
    match sp_read_string(d, pos) {
        None => None,
        Some((x_source, pos1)) => {
            match sp_read_string(d, pos1) {
                None => None,
                Some((x_validator, pos2)) => {
                    match sp_read_string(d, pos2) {
                        None => None,
                        Some((x_amount, pos3)) => {
                            Some(
                                (BondMsgV { source: x_source, validator: x_validator, amount: x_amount }, pos3),
                            )
                        },
                    }
                },
            }
        },
    }
}

pub open spec fn sp_bond_msg(d: Seq<u8>) -> Option<BondMsgV> {
    match sp_read_bond_msg(d, 0) {
        Some((m, p)) => if p == d.len() {
            Some(m)
        } else {
            None
        },
        None => None,
    }
}

#[verifier::rlimit(80)]
pub proof fn lemma_read_enc_bond_msg(d: Seq<u8>, pos: int, m: BondMsgV)
    requires
        0 <= pos,
        bond_msg_fits(m),
        pos + enc_bond_msg(m).len() <= d.len(),
        d.subrange(pos, pos + enc_bond_msg(m).len()) == enc_bond_msg(m),
    ensures
        sp_read_bond_msg(d, pos) == Some((m, pos + enc_bond_msg(m).len())),
{
    let e1 = enc_string(m.source);
    let e2 = enc_string(m.validator);
    let e3 = enc_string(m.amount);
    let p0 = pos;
    let p1 = p0 + e1.len();
    let p2 = p1 + e2.len();
    let p3 = p2 + e3.len();
    assert(d.subrange(p2, p3) =~= e3) by {
        assert forall|j: int| 0 <= j < e3.len() implies d.subrange(p2, p3)[j] == e3[j] by {
            assert(d.subrange(p0, p3)[p2 - p0 + j] == ((e1 + e2) + e3)[p2 - p0 + j]);
        }
    }
    assert(d.subrange(p0, p2) =~= (e1 + e2)) by {
        assert forall|j: int| 0 <= j < p2 - p0 implies d.subrange(p0, p2)[j] == (e1 + e2)[j] by {
            assert(d.subrange(p0, p3)[j] == ((e1 + e2) + e3)[j]);
        }
    }
    assert(d.subrange(p1, p2) =~= e2) by {
        assert forall|j: int| 0 <= j < e2.len() implies d.subrange(p1, p2)[j] == e2[j] by {
            assert(d.subrange(p0, p2)[p1 - p0 + j] == ((e1) + e2)[p1 - p0 + j]);
        }
    }
    assert(d.subrange(p0, p1) =~= (e1)) by {
        assert forall|j: int| 0 <= j < p1 - p0 implies d.subrange(p0, p1)[j] == (e1)[j] by {
            assert(d.subrange(p0, p2)[j] == ((e1) + e2)[j]);
        }
    }
    lemma_read_enc_string(d, p0, m.source);
    lemma_read_enc_string(d, p1, m.validator);
    lemma_read_enc_string(d, p2, m.amount);
    assert((BondMsgV { source: m.source, validator: m.validator, amount: m.amount }) =~= m);
}

/// Decoding an encoded `BondMsg` yields the message back, exactly.
#[verifier::rlimit(80)]
pub proof fn lemma_bond_msg_round_trip(m: BondMsgV)
    requires
        bond_msg_fits(m),
    ensures
        sp_bond_msg(enc_bond_msg(m)) == Some(m),
{
    let d = enc_bond_msg(m);
    assert(d.subrange(0, d.len() as int) =~= d);
    lemma_read_enc_bond_msg(d, 0, m);
}

pub fn read_bond_msg(d: &[u8], pos: usize) -> (r: Option<(BondMsg, usize)>)
    requires
        pos <= d@.len(),
    ensures
        match r {
            Some((m, p)) => sp_read_bond_msg(d@, pos as int) == Some((m@, p as int)) && p
                <= d@.len(),
            None => sp_read_bond_msg(d@, pos as int) is None,
        },
{
    let (x_source, pos1) = match read_text(d, pos) {
        Some(x) => x,
        None => {
            return None;
        },
    };
    let (x_validator, pos2) = match read_text(d, pos1) {
        Some(x) => x,
        None => {
            return None;
        },
    };
    let (x_amount, pos3) = match read_text(d, pos2) {
        Some(x) => x,
        None => {
            return None;
        },
    };
    Some((BondMsg { source: x_source, validator: x_validator, amount: x_amount }, pos3))
}

#[verifier::rlimit(80)]
pub fn write_bond_msg(out: &mut Vec<u8>, m: &BondMsg)
    requires
        bond_msg_fits(m@),
    ensures
        final(out)@ == old(out)@ + enc_bond_msg(m@),
{
    write_text(out, m.source.as_str());
    proof {
        assert(out@ =~= old(out)@ + (enc_string(m@.source)));
    }
    write_text(out, m.validator.as_str());
    proof {
        assert(out@ =~= old(out)@ + (enc_string(m@.source) + enc_string(m@.validator)));
    }
    write_text(out, m.amount.as_str());
    proof {
        assert(out@ =~= old(out)@ + (enc_string(m@.source) + enc_string(m@.validator) + enc_string(m@.amount)));
    }
}

#[derive(Debug)]
pub struct UnbondMsg {
    pub source: String,
    pub validator: String,
    pub amount: String,
}

#[verifier::ext_equal]
pub struct UnbondMsgV {
    pub source: Seq<char>,
    pub validator: Seq<char>,
    pub amount: Seq<char>,
}

impl View for UnbondMsg {
    type V = UnbondMsgV;

    open spec fn view(&self) -> UnbondMsgV {
        UnbondMsgV {
            source: self.source@,
            validator: self.validator@,
            amount: self.amount@,
        }
    }
}

impl UnbondMsg {
    pub fn new(source: String, validator: String, amount: String) -> (r: UnbondMsg)
        ensures
            r@ == (UnbondMsgV {
                source: source@,
                validator: validator@,
                amount: amount@,
            }),
    {
        UnbondMsg { source, validator, amount }
    }

    /// Decodes one whole payload; trailing bytes are a decode failure.
    pub fn try_from_slice(d: &[u8]) -> (r: Result<UnbondMsg, ArgError>)
        ensures
            r is Ok <==> sp_unbond_msg(d@) is Some,
            r matches Ok(m) ==> sp_unbond_msg(d@) == Some(m@),
            r matches Err(e) ==> e == ArgError::DecodeError,
    {
        match read_unbond_msg(d, 0) {
            Some((m, p)) => {
                if p == d.len() {
                    Ok(m)
                } else {
                    Err(ArgError::DecodeError)
                }
            },
            None => Err(ArgError::DecodeError),
        }
    }

    pub fn to_bytes(&self) -> (r: Vec<u8>)
        requires
            unbond_msg_fits(self@),
        ensures
            r@ == enc_unbond_msg(self@),
    {
        let mut out: Vec<u8> = Vec::new();
        write_unbond_msg(&mut out, self);
        proof {
            assert(out@ =~= enc_unbond_msg(self@));
        }
        out
    }
}

pub open spec fn enc_unbond_msg(m: UnbondMsgV) -> Seq<u8> {
    enc_string(m.source) + enc_string(m.validator) + enc_string(m.amount)
}

pub open spec fn unbond_msg_fits(m: UnbondMsgV) -> bool {
    fits_u32(encode_utf8(m.source).len()) && fits_u32(encode_utf8(m.validator).len()) && fits_u32(encode_utf8(m.amount).len())
}

pub open spec fn sp_read_unbond_msg(d: Seq<u8>, pos: int) -> Option<(UnbondMsgV, int)> {
    match sp_read_string(d, pos) {
        None => None,
        Some((x_source, pos1)) => {
            match sp_read_string(d, pos1) {
                None => None,
                Some((x_validator, pos2)) => {
                    match sp_read_string(d, pos2) {
                        None => None,
                        Some((x_amount, pos3)) => {
                            Some(
                                (UnbondMsgV { source: x_source, validator: x_validator, amount: x_amount }, pos3),
                            )
                        },
                    }
                },
            }
        },
    }
}

pub open spec fn sp_unbond_msg(d: Seq<u8>) -> Option<UnbondMsgV> {
    match sp_read_unbond_msg(d, 0) {
        Some((m, p)) => if p == d.len() {
            Some(m)
        } else {
            None
        },
        None => None,
    }
}

#[verifier::rlimit(80)]
pub proof fn lemma_read_enc_unbond_msg(d: Seq<u8>, pos: int, m: UnbondMsgV)
    requires
        0 <= pos,
        unbond_msg_fits(m),
        pos + enc_unbond_msg(m).len() <= d.len(),
        d.subrange(pos, pos + enc_unbond_msg(m).len()) == enc_unbond_msg(m),
    ensures
        sp_read_unbond_msg(d, pos) == Some((m, pos + enc_unbond_msg(m).len())),
{
    let e1 = enc_string(m.source);
    let e2 = enc_string(m.validator);
    let e3 = enc_string(m.amount);
    let p0 = pos;
    let p1 = p0 + e1.len();
    let p2 = p1 + e2.len();
    let p3 = p2 + e3.len();
    assert(d.subrange(p2, p3) =~= e3) by {
        assert forall|j: int| 0 <= j < e3.len() implies d.subrange(p2, p3)[j] == e3[j] by {
            assert(d.subrange(p0, p3)[p2 - p0 + j] == ((e1 + e2) + e3)[p2 - p0 + j]);
        }
    }
    assert(d.subrange(p0, p2) =~= (e1 + e2)) by {
        assert forall|j: int| 0 <= j < p2 - p0 implies d.subrange(p0, p2)[j] == (e1 + e2)[j] by {
            assert(d.subrange(p0, p3)[j] == ((e1 + e2) + e3)[j]);
        }
    }
    assert(d.subrange(p1, p2) =~= e2) by {
        assert forall|j: int| 0 <= j < e2.len() implies d.subrange(p1, p2)[j] == e2[j] by {
            assert(d.subrange(p0, p2)[p1 - p0 + j] == ((e1) + e2)[p1 - p0 + j]);
        }
    }
    assert(d.subrange(p0, p1) =~= (e1)) by {
        assert forall|j: int| 0 <= j < p1 - p0 implies d.subrange(p0, p1)[j] == (e1)[j] by {
            assert(d.subrange(p0, p2)[j] == ((e1) + e2)[j]);
        }
    }
    lemma_read_enc_string(d, p0, m.source);
    lemma_read_enc_string(d, p1, m.validator);
    lemma_read_enc_string(d, p2, m.amount);
    assert((UnbondMsgV { source: m.source, validator: m.validator, amount: m.amount }) =~= m);
}

/// Decoding an encoded `UnbondMsg` yields the message back, exactly.
#[verifier::rlimit(80)]
pub proof fn lemma_unbond_msg_round_trip(m: UnbondMsgV)
    requires
        unbond_msg_fits(m),
    ensures
        sp_unbond_msg(enc_unbond_msg(m)) == Some(m),
{
    let d = enc_unbond_msg(m);
    assert(d.subrange(0, d.len() as int) =~= d);
    lemma_read_enc_unbond_msg(d, 0, m);
}

pub fn read_unbond_msg(d: &[u8], pos: usize) -> (r: Option<(UnbondMsg, usize)>)
    requires
        pos <= d@.len(),
    ensures
        match r {
            Some((m, p)) => sp_read_unbond_msg(d@, pos as int) == Some((m@, p as int)) && p
                <= d@.len(),
            None => sp_read_unbond_msg(d@, pos as int) is None,
        },
{
    let (x_source, pos1) = match read_text(d, pos) {
        Some(x) => x,
        None => {
            return None;
        },
    };
    let (x_validator, pos2) = match read_text(d, pos1) {
        Some(x) => x,
        None => {
            return None;
        },
    };
    let (x_amount, pos3) = match read_text(d, pos2) {
        Some(x) => x,
        None => {
            return None;
        },
    };
    Some((UnbondMsg { source: x_source, validator: x_validator, amount: x_amount }, pos3))
}

#[verifier::rlimit(80)]
pub fn write_unbond_msg(out: &mut Vec<u8>, m: &UnbondMsg)
    requires
        unbond_msg_fits(m@),
    ensures
        final(out)@ == old(out)@ + enc_unbond_msg(m@),
{
    write_text(out, m.source.as_str());
    proof {
        assert(out@ =~= old(out)@ + (enc_string(m@.source)));
    }
    write_text(out, m.validator.as_str());
    proof {
        assert(out@ =~= old(out)@ + (enc_string(m@.source) + enc_string(m@.validator)));
    }
    write_text(out, m.amount.as_str());
    proof {
        assert(out@ =~= old(out)@ + (enc_string(m@.source) + enc_string(m@.validator) + enc_string(m@.amount)));
    }
}

#[derive(Debug)]
pub struct WithdrawMsg {
    pub source: String,
    pub validator: String,
}

#[verifier::ext_equal]
pub struct WithdrawMsgV {
    pub source: Seq<char>,
    pub validator: Seq<char>,
}

impl View for WithdrawMsg {
    type V = WithdrawMsgV;

    open spec fn view(&self) -> WithdrawMsgV {
        WithdrawMsgV {
            source: self.source@,
            validator: self.validator@,
        }
    }
}

impl WithdrawMsg {
    pub fn new(source: String, validator: String) -> (r: WithdrawMsg)
        ensures
            r@ == (WithdrawMsgV {
                source: source@,
                validator: validator@,
            }),
    {
        WithdrawMsg { source, validator }
    }

    /// Decodes one whole payload; trailing bytes are a decode failure.
    pub fn try_from_slice(d: &[u8]) -> (r: Result<WithdrawMsg, ArgError>)
        ensures
            r is Ok <==> sp_withdraw_msg(d@) is Some,
            r matches Ok(m) ==> sp_withdraw_msg(d@) == Some(m@),
            r matches Err(e) ==> e == ArgError::DecodeError,
    {
        match read_withdraw_msg(d, 0) {
            Some((m, p)) => {
                if p == d.len() {
                    Ok(m)
                } else {
                    Err(ArgError::DecodeError)
                }
            },
            None => Err(ArgError::DecodeError),
        }
    }

    pub fn to_bytes(&self) -> (r: Vec<u8>)
        requires
            withdraw_msg_fits(self@),
        ensures
            r@ == enc_withdraw_msg(self@),
    {
        let mut out: Vec<u8> = Vec::new();
        write_withdraw_msg(&mut out, self);
        proof {
            assert(out@ =~= enc_withdraw_msg(self@));
        }
        out
    }
}

pub open spec fn enc_withdraw_msg(m: WithdrawMsgV) -> Seq<u8> {
    enc_string(m.source) + enc_string(m.validator)
}

pub open spec fn withdraw_msg_fits(m: WithdrawMsgV) -> bool {
    fits_u32(encode_utf8(m.source).len()) && fits_u32(encode_utf8(m.validator).len())
}

pub open spec fn sp_read_withdraw_msg(d: Seq<u8>, pos: int) -> Option<(WithdrawMsgV, int)> {
    match sp_read_string(d, pos) {
        None => None,
        Some((x_source, pos1)) => {
            match sp_read_string(d, pos1) {
                None => None,
                Some((x_validator, pos2)) => {
                    Some(
                        (WithdrawMsgV { source: x_source, validator: x_validator }, pos2),
                    )
                },
            }
        },
    }
}

pub open spec fn sp_withdraw_msg(d: Seq<u8>) -> Option<WithdrawMsgV> {
    match sp_read_withdraw_msg(d, 0) {
        Some((m, p)) => if p == d.len() {
            Some(m)
        } else {
            None
        },
        None => None,
    }
}

#[verifier::rlimit(80)]
pub proof fn lemma_read_enc_withdraw_msg(d: Seq<u8>, pos: int, m: WithdrawMsgV)
    requires
        0 <= pos,
        withdraw_msg_fits(m),
        pos + enc_withdraw_msg(m).len() <= d.len(),
        d.subrange(pos, pos + enc_withdraw_msg(m).len()) == enc_withdraw_msg(m),
    ensures
        sp_read_withdraw_msg(d, pos) == Some((m, pos + enc_withdraw_msg(m).len())),
{
    let e1 = enc_string(m.source);
    let e2 = enc_string(m.validator);
    let p0 = pos;
    let p1 = p0 + e1.len();
    let p2 = p1 + e2.len();
    assert(d.subrange(p1, p2) =~= e2) by {
        assert forall|j: int| 0 <= j < e2.len() implies d.subrange(p1, p2)[j] == e2[j] by {
            assert(d.subrange(p0, p2)[p1 - p0 + j] == ((e1) + e2)[p1 - p0 + j]);
        }
    }
    assert(d.subrange(p0, p1) =~= (e1)) by {
        assert forall|j: int| 0 <= j < p1 - p0 implies d.subrange(p0, p1)[j] == (e1)[j] by {
            assert(d.subrange(p0, p2)[j] == ((e1) + e2)[j]);
        }
    }
    lemma_read_enc_string(d, p0, m.source);
    lemma_read_enc_string(d, p1, m.validator);
    assert((WithdrawMsgV { source: m.source, validator: m.validator }) =~= m);
}

/// Decoding an encoded `WithdrawMsg` yields the message back, exactly.
#[verifier::rlimit(80)]
pub proof fn lemma_withdraw_msg_round_trip(m: WithdrawMsgV)
    requires
        withdraw_msg_fits(m),
    ensures
        sp_withdraw_msg(enc_withdraw_msg(m)) == Some(m),
{
    let d = enc_withdraw_msg(m);
    assert(d.subrange(0, d.len() as int) =~= d);
    lemma_read_enc_withdraw_msg(d, 0, m);
}

pub fn read_withdraw_msg(d: &[u8], pos: usize) -> (r: Option<(WithdrawMsg, usize)>)
    requires
        pos <= d@.len(),
    ensures
        match r {
            Some((m, p)) => sp_read_withdraw_msg(d@, pos as int) == Some((m@, p as int)) && p
                <= d@.len(),
            None => sp_read_withdraw_msg(d@, pos as int) is None,
        },
{
    let (x_source, pos1) = match read_text(d, pos) {
        Some(x) => x,
        None => {
            return None;
        },
    };
    let (x_validator, pos2) = match read_text(d, pos1) {
        Some(x) => x,
        None => {
            return None;
        },
    };
    Some((WithdrawMsg { source: x_source, validator: x_validator }, pos2))
}

#[verifier::rlimit(80)]
pub fn write_withdraw_msg(out: &mut Vec<u8>, m: &WithdrawMsg)
    requires
        withdraw_msg_fits(m@),
    ensures
        final(out)@ == old(out)@ + enc_withdraw_msg(m@),
{
    write_text(out, m.source.as_str());
    proof {
        assert(out@ =~= old(out)@ + (enc_string(m@.source)));
    }
    write_text(out, m.validator.as_str());
    proof {
        assert(out@ =~= old(out)@ + (enc_string(m@.source) + enc_string(m@.validator)));
    }
}

#[derive(Debug)]
pub struct RedelegateMsg {
    pub owner: String,
    pub source_validator: String,
    pub destination_validator: String,
    pub amount: String,
}

#[verifier::ext_equal]
pub struct RedelegateMsgV {
    pub owner: Seq<char>,
    pub source_validator: Seq<char>,
    pub destination_validator: Seq<char>,
    pub amount: Seq<char>,
}

impl View for RedelegateMsg {
    type V = RedelegateMsgV;

    open spec fn view(&self) -> RedelegateMsgV {
        RedelegateMsgV {
            owner: self.owner@,
            source_validator: self.source_validator@,
            destination_validator: self.destination_validator@,
            amount: self.amount@,
        }
    }
}

impl RedelegateMsg {
    pub fn new(owner: String, source_validator: String, destination_validator: String, amount: String) -> (r: RedelegateMsg)
        ensures
            r@ == (RedelegateMsgV {
                owner: owner@,
                source_validator: source_validator@,
                destination_validator: destination_validator@,
                amount: amount@,
            }),
    {
        RedelegateMsg { owner, source_validator, destination_validator, amount }
    }

    /// Decodes one whole payload; trailing bytes are a decode failure.
    pub fn try_from_slice(d: &[u8]) -> (r: Result<RedelegateMsg, ArgError>)
        ensures
            r is Ok <==> sp_redelegate_msg(d@) is Some,
            r matches Ok(m) ==> sp_redelegate_msg(d@) == Some(m@),
            r matches Err(e) ==> e == ArgError::DecodeError,
    {
        match read_redelegate_msg(d, 0) {
            Some((m, p)) => {
                if p == d.len() {
                    Ok(m)
                } else {
                    Err(ArgError::DecodeError)
                }
            },
            None => Err(ArgError::DecodeError),
        }
    }

    pub fn to_bytes(&self) -> (r: Vec<u8>)
        requires
            redelegate_msg_fits(self@),
        ensures
            r@ == enc_redelegate_msg(self@),
    {
        let mut out: Vec<u8> = Vec::new();
        write_redelegate_msg(&mut out, self);
        proof {
            assert(out@ =~= enc_redelegate_msg(self@));
        }
        out
    }
}

pub open spec fn enc_redelegate_msg(m: RedelegateMsgV) -> Seq<u8> {
    enc_string(m.owner) + enc_string(m.source_validator) + enc_string(m.destination_validator) + enc_string(m.amount)
}

pub open spec fn redelegate_msg_fits(m: RedelegateMsgV) -> bool {
    fits_u32(encode_utf8(m.owner).len()) && fits_u32(encode_utf8(m.source_validator).len()) && fits_u32(encode_utf8(m.destination_validator).len()) && fits_u32(encode_utf8(m.amount).len())
}

pub open spec fn sp_read_redelegate_msg(d: Seq<u8>, pos: int) -> Option<(RedelegateMsgV, int)> {
    match sp_read_string(d, pos) {
        None => None,
        Some((x_owner, pos1)) => {
            match sp_read_string(d, pos1) {
                None => None,
                Some((x_source_validator, pos2)) => {
                    match sp_read_string(d, pos2) {
                        None => None,
                        Some((x_destination_validator, pos3)) => {
                            match sp_read_string(d, pos3) {
                                None => None,
                                Some((x_amount, pos4)) => {
                                    Some(
                                        (RedelegateMsgV { owner: x_owner, source_validator: x_source_validator, destination_validator: x_destination_validator, amount: x_amount }, pos4),
                                    )
                                },
                            }
                        },
                    }
                },
            }
        },
    }
}

pub open spec fn sp_redelegate_msg(d: Seq<u8>) -> Option<RedelegateMsgV> {
    match sp_read_redelegate_msg(d, 0) {
        Some((m, p)) => if p == d.len() {
            Some(m)
        } else {
            None
        },
        None => None,
    }
}

#[verifier::rlimit(80)]
pub proof fn lemma_read_enc_redelegate_msg(d: Seq<u8>, pos: int, m: RedelegateMsgV)
    requires
        0 <= pos,
        redelegate_msg_fits(m),
        pos + enc_redelegate_msg(m).len() <= d.len(),
        d.subrange(pos, pos + enc_redelegate_msg(m).len()) == enc_redelegate_msg(m),
    ensures
        sp_read_redelegate_msg(d, pos) == Some((m, pos + enc_redelegate_msg(m).len())),
{
    let e1 = enc_string(m.owner);
    let e2 = enc_string(m.source_validator);
    let e3 = enc_string(m.destination_validator);
    let e4 = enc_string(m.amount);
    let p0 = pos;
    let p1 = p0 + e1.len();
    let p2 = p1 + e2.len();
    let p3 = p2 + e3.len();
    let p4 = p3 + e4.len();
    assert(d.subrange(p3, p4) =~= e4) by {
        assert forall|j: int| 0 <= j < e4.len() implies d.subrange(p3, p4)[j] == e4[j] by {
            assert(d.subrange(p0, p4)[p3 - p0 + j] == ((e1 + e2 + e3) + e4)[p3 - p0 + j]);
        }
    }
    assert(d.subrange(p0, p3) =~= (e1 + e2 + e3)) by {
        assert forall|j: int| 0 <= j < p3 - p0 implies d.subrange(p0, p3)[j] == (e1 + e2 + e3)[j] by {
            assert(d.subrange(p0, p4)[j] == ((e1 + e2 + e3) + e4)[j]);
        }
    }
    assert(d.subrange(p2, p3) =~= e3) by {
        assert forall|j: int| 0 <= j < e3.len() implies d.subrange(p2, p3)[j] == e3[j] by {
            assert(d.subrange(p0, p3)[p2 - p0 + j] == ((e1 + e2) + e3)[p2 - p0 + j]);
        }
    }
    assert(d.subrange(p0, p2) =~= (e1 + e2)) by {
        assert forall|j: int| 0 <= j < p2 - p0 implies d.subrange(p0, p2)[j] == (e1 + e2)[j] by {
            assert(d.subrange(p0, p3)[j] == ((e1 + e2) + e3)[j]);
        }
    }
    assert(d.subrange(p1, p2) =~= e2) by {
        assert forall|j: int| 0 <= j < e2.len() implies d.subrange(p1, p2)[j] == e2[j] by {
            assert(d.subrange(p0, p2)[p1 - p0 + j] == ((e1) + e2)[p1 - p0 + j]);
        }
    }
    assert(d.subrange(p0, p1) =~= (e1)) by {
        assert forall|j: int| 0 <= j < p1 - p0 implies d.subrange(p0, p1)[j] == (e1)[j] by {
            assert(d.subrange(p0, p2)[j] == ((e1) + e2)[j]);
        }
    }
    lemma_read_enc_string(d, p0, m.owner);
    lemma_read_enc_string(d, p1, m.source_validator);
    lemma_read_enc_string(d, p2, m.destination_validator);
    lemma_read_enc_string(d, p3, m.amount);
    assert((RedelegateMsgV { owner: m.owner, source_validator: m.source_validator, destination_validator: m.destination_validator, amount: m.amount }) =~= m);
}

/// Decoding an encoded `RedelegateMsg` yields the message back, exactly.
#[verifier::rlimit(80)]
pub proof fn lemma_redelegate_msg_round_trip(m: RedelegateMsgV)
    requires
        redelegate_msg_fits(m),
    ensures
        sp_redelegate_msg(enc_redelegate_msg(m)) == Some(m),
{
    let d = enc_redelegate_msg(m);
    assert(d.subrange(0, d.len() as int) =~= d);
    lemma_read_enc_redelegate_msg(d, 0, m);
}

pub fn read_redelegate_msg(d: &[u8], pos: usize) -> (r: Option<(RedelegateMsg, usize)>)
    requires
        pos <= d@.len(),
    ensures
        match r {
            Some((m, p)) => sp_read_redelegate_msg(d@, pos as int) == Some((m@, p as int)) && p
                <= d@.len(),
            None => sp_read_redelegate_msg(d@, pos as int) is None,
        },
{
    let (x_owner, pos1) = match read_text(d, pos) {
        Some(x) => x,
        None => {
            return None;
        },
    };
    let (x_source_validator, pos2) = match read_text(d, pos1) {
        Some(x) => x,
        None => {
            return None;
        },
    };
    let (x_destination_validator, pos3) = match read_text(d, pos2) {
        Some(x) => x,
        None => {
            return None;
        },
    };
    let (x_amount, pos4) = match read_text(d, pos3) {
        Some(x) => x,
        None => {
            return None;
        },
    };
    Some((RedelegateMsg { owner: x_owner, source_validator: x_source_validator, destination_validator: x_destination_validator, amount: x_amount }, pos4))
}

#[verifier::rlimit(80)]
pub fn write_redelegate_msg(out: &mut Vec<u8>, m: &RedelegateMsg)
    requires
        redelegate_msg_fits(m@),
    ensures
        final(out)@ == old(out)@ + enc_redelegate_msg(m@),
{
    write_text(out, m.owner.as_str());
    proof {
        assert(out@ =~= old(out)@ + (enc_string(m@.owner)));
    }
    write_text(out, m.source_validator.as_str());
    proof {
        assert(out@ =~= old(out)@ + (enc_string(m@.owner) + enc_string(m@.source_validator)));
    }
    write_text(out, m.destination_validator.as_str());
    proof {
        assert(out@ =~= old(out)@ + (enc_string(m@.owner) + enc_string(m@.source_validator) + enc_string(m@.destination_validator)));
    }
    write_text(out, m.amount.as_str());
    proof {
        assert(out@ =~= old(out)@ + (enc_string(m@.owner) + enc_string(m@.source_validator) + enc_string(m@.destination_validator) + enc_string(m@.amount)));
    }
}

#[derive(Debug)]
pub struct VoteProposalMsg {
    pub signer: String,
    pub proposal_id: u64,
    pub vote: String,
}

#[verifier::ext_equal]
pub struct VoteProposalMsgV {
    pub signer: Seq<char>,
    pub proposal_id: u64,
    pub vote: Seq<char>,
}

impl View for VoteProposalMsg {
    type V = VoteProposalMsgV;

    open spec fn view(&self) -> VoteProposalMsgV {
        VoteProposalMsgV {
            signer: self.signer@,
            proposal_id: self.proposal_id,
            vote: self.vote@,
        }
    }
}

impl VoteProposalMsg {
    pub fn new(signer: String, proposal_id: u64, vote: String) -> (r: VoteProposalMsg)
        ensures
            r@ == (VoteProposalMsgV {
                signer: signer@,
                proposal_id: proposal_id,
                vote: vote@,
            }),
    {
        VoteProposalMsg { signer, proposal_id, vote }
    }

    /// Decodes one whole payload; trailing bytes are a decode failure.
    pub fn try_from_slice(d: &[u8]) -> (r: Result<VoteProposalMsg, ArgError>)
        ensures
            r is Ok <==> sp_vote_proposal_msg(d@) is Some,
            r matches Ok(m) ==> sp_vote_proposal_msg(d@) == Some(m@),
            r matches Err(e) ==> e == ArgError::DecodeError,
    {
        match read_vote_proposal_msg(d, 0) {
            Some((m, p)) => {
                if p == d.len() {
                    Ok(m)
                } else {
                    Err(ArgError::DecodeError)
                }
            },
            None => Err(ArgError::DecodeError),
        }
    }

    pub fn to_bytes(&self) -> (r: Vec<u8>)
        requires
            vote_proposal_msg_fits(self@),
        ensures
            r@ == enc_vote_proposal_msg(self@),
    {
        let mut out: Vec<u8> = Vec::new();
        write_vote_proposal_msg(&mut out, self);
        proof {
            assert(out@ =~= enc_vote_proposal_msg(self@));
        }
        out
    }
}

pub open spec fn enc_vote_proposal_msg(m: VoteProposalMsgV) -> Seq<u8> {
    enc_string(m.signer) + enc_u64(m.proposal_id) + enc_string(m.vote)
}

pub open spec fn vote_proposal_msg_fits(m: VoteProposalMsgV) -> bool {
    fits_u32(encode_utf8(m.signer).len()) && fits_u32(encode_utf8(m.vote).len())
}

pub open spec fn sp_read_vote_proposal_msg(d: Seq<u8>, pos: int) -> Option<(VoteProposalMsgV, int)> {
    match sp_read_string(d, pos) {
        None => None,
        Some((x_signer, pos1)) => {
            match sp_read_u64(d, pos1) {
                None => None,
                Some((x_proposal_id, pos2)) => {
                    match sp_read_string(d, pos2) {
                        None => None,
                        Some((x_vote, pos3)) => {
                            Some(
                                (VoteProposalMsgV { signer: x_signer, proposal_id: x_proposal_id, vote: x_vote }, pos3),
                            )
                        },
                    }
                },
            }
        },
    }
}

pub open spec fn sp_vote_proposal_msg(d: Seq<u8>) -> Option<VoteProposalMsgV> {
    match sp_read_vote_proposal_msg(d, 0) {
        Some((m, p)) => if p == d.len() {
            Some(m)
        } else {
            None
        },
        None => None,
    }
}

#[verifier::rlimit(80)]
pub proof fn lemma_read_enc_vote_proposal_msg(d: Seq<u8>, pos: int, m: VoteProposalMsgV)
    requires
        0 <= pos,
        vote_proposal_msg_fits(m),
        pos + enc_vote_proposal_msg(m).len() <= d.len(),
        d.subrange(pos, pos + enc_vote_proposal_msg(m).len()) == enc_vote_proposal_msg(m),
    ensures
        sp_read_vote_proposal_msg(d, pos) == Some((m, pos + enc_vote_proposal_msg(m).len())),
{
    let e1 = enc_string(m.signer);
    let e2 = enc_u64(m.proposal_id);
    let e3 = enc_string(m.vote);
    let p0 = pos;
    let p1 = p0 + e1.len();
    let p2 = p1 + e2.len();
    let p3 = p2 + e3.len();
    assert(d.subrange(p2, p3) =~= e3) by {
        assert forall|j: int| 0 <= j < e3.len() implies d.subrange(p2, p3)[j] == e3[j] by {
            assert(d.subrange(p0, p3)[p2 - p0 + j] == ((e1 + e2) + e3)[p2 - p0 + j]);
        }
    }
    assert(d.subrange(p0, p2) =~= (e1 + e2)) by {
        assert forall|j: int| 0 <= j < p2 - p0 implies d.subrange(p0, p2)[j] == (e1 + e2)[j] by {
            assert(d.subrange(p0, p3)[j] == ((e1 + e2) + e3)[j]);
        }
    }
    assert(d.subrange(p1, p2) =~= e2) by {
        assert forall|j: int| 0 <= j < e2.len() implies d.subrange(p1, p2)[j] == e2[j] by {
            assert(d.subrange(p0, p2)[p1 - p0 + j] == ((e1) + e2)[p1 - p0 + j]);
        }
    }
    assert(d.subrange(p0, p1) =~= (e1)) by {
        assert forall|j: int| 0 <= j < p1 - p0 implies d.subrange(p0, p1)[j] == (e1)[j] by {
            assert(d.subrange(p0, p2)[j] == ((e1) + e2)[j]);
        }
    }
    lemma_read_enc_string(d, p0, m.signer);
    lemma_read_enc_u64(d, p1, m.proposal_id);
    lemma_read_enc_string(d, p2, m.vote);
    assert((VoteProposalMsgV { signer: m.signer, proposal_id: m.proposal_id, vote: m.vote }) =~= m);
}

/// Decoding an encoded `VoteProposalMsg` yields the message back, exactly.
#[verifier::rlimit(80)]
pub proof fn lemma_vote_proposal_msg_round_trip(m: VoteProposalMsgV)
    requires
        vote_proposal_msg_fits(m),
    ensures
        sp_vote_proposal_msg(enc_vote_proposal_msg(m)) == Some(m),
{
    let d = enc_vote_proposal_msg(m);
    assert(d.subrange(0, d.len() as int) =~= d);
    lemma_read_enc_vote_proposal_msg(d, 0, m);
}

pub fn read_vote_proposal_msg(d: &[u8], pos: usize) -> (r: Option<(VoteProposalMsg, usize)>)
    requires
        pos <= d@.len(),
    ensures
        match r {
            Some((m, p)) => sp_read_vote_proposal_msg(d@, pos as int) == Some((m@, p as int)) && p
                <= d@.len(),
            None => sp_read_vote_proposal_msg(d@, pos as int) is None,
        },
{
    let (x_signer, pos1) = match read_text(d, pos) {
        Some(x) => x,
        None => {
            return None;
        },
    };
    let (x_proposal_id, pos2) = match read_u64(d, pos1) {
        Some(x) => x,
        None => {
            return None;
        },
    };
    let (x_vote, pos3) = match read_text(d, pos2) {
        Some(x) => x,
        None => {
            return None;
        },
    };
    Some((VoteProposalMsg { signer: x_signer, proposal_id: x_proposal_id, vote: x_vote }, pos3))
}

#[verifier::rlimit(80)]
pub fn write_vote_proposal_msg(out: &mut Vec<u8>, m: &VoteProposalMsg)
    requires
        vote_proposal_msg_fits(m@),
    ensures
        final(out)@ == old(out)@ + enc_vote_proposal_msg(m@),
{
    write_text(out, m.signer.as_str());
    proof {
        assert(out@ =~= old(out)@ + (enc_string(m@.signer)));
    }
    write_u64(out, m.proposal_id);
    proof {
        assert(out@ =~= old(out)@ + (enc_string(m@.signer) + enc_u64(m@.proposal_id)));
    }
    write_text(out, m.vote.as_str());
    proof {
        assert(out@ =~= old(out)@ + (enc_string(m@.signer) + enc_u64(m@.proposal_id) + enc_string(m@.vote)));
    }
}

#[derive(Debug)]
pub struct ClaimRewardsMsg {
    pub validator: String,
    pub source: Option<String>,
}

#[verifier::ext_equal]
pub struct ClaimRewardsMsgV {
    pub validator: Seq<char>,
    pub source: Option<Seq<char>>,
}

impl View for ClaimRewardsMsg {
    type V = ClaimRewardsMsgV;

    open spec fn view(&self) -> ClaimRewardsMsgV {
        ClaimRewardsMsgV {
            validator: self.validator@,
            source: view_opt_string(self.source),
        }
    }
}

impl ClaimRewardsMsg {
    pub fn new(validator: String, source: Option<String>) -> (r: ClaimRewardsMsg)
        ensures
            r@ == (ClaimRewardsMsgV {
                validator: validator@,
                source: view_opt_string(source),
            }),
    {
        ClaimRewardsMsg { validator, source }
    }

    /// Decodes one whole payload; trailing bytes are a decode failure.
    pub fn try_from_slice(d: &[u8]) -> (r: Result<ClaimRewardsMsg, ArgError>)
        ensures
            r is Ok <==> sp_claim_rewards_msg(d@) is Some,
            r matches Ok(m) ==> sp_claim_rewards_msg(d@) == Some(m@),
            r matches Err(e) ==> e == ArgError::DecodeError,
    {
        match read_claim_rewards_msg(d, 0) {
            Some((m, p)) => {
                if p == d.len() {
                    Ok(m)
                } else {
                    Err(ArgError::DecodeError)
                }
            },
            None => Err(ArgError::DecodeError),
        }
    }

    pub fn to_bytes(&self) -> (r: Vec<u8>)
        requires
            claim_rewards_msg_fits(self@),
        ensures
            r@ == enc_claim_rewards_msg(self@),
    {
        let mut out: Vec<u8> = Vec::new();
        write_claim_rewards_msg(&mut out, self);
        proof {
            assert(out@ =~= enc_claim_rewards_msg(self@));
        }
        out
    }
}

pub open spec fn enc_claim_rewards_msg(m: ClaimRewardsMsgV) -> Seq<u8> {
    enc_string(m.validator) + enc_opt_string(m.source)
}

pub open spec fn claim_rewards_msg_fits(m: ClaimRewardsMsgV) -> bool {
    fits_u32(encode_utf8(m.validator).len()) && opt_string_fits(m.source)
}

pub open spec fn sp_read_claim_rewards_msg(d: Seq<u8>, pos: int) -> Option<(ClaimRewardsMsgV, int)> {
    match sp_read_string(d, pos) {
        None => None,
        Some((x_validator, pos1)) => {
            match sp_read_opt_string(d, pos1) {
                None => None,
                Some((x_source, pos2)) => {
                    Some(
                        (ClaimRewardsMsgV { validator: x_validator, source: x_source }, pos2),
                    )
                },
            }
        },
    }
}

pub open spec fn sp_claim_rewards_msg(d: Seq<u8>) -> Option<ClaimRewardsMsgV> {
    match sp_read_claim_rewards_msg(d, 0) {
        Some((m, p)) => if p == d.len() {
            Some(m)
        } else {
            None
        },
        None => None,
    }
}

#[verifier::rlimit(80)]
pub proof fn lemma_read_enc_claim_rewards_msg(d: Seq<u8>, pos: int, m: ClaimRewardsMsgV)
    requires
        0 <= pos,
        claim_rewards_msg_fits(m),
        pos + enc_claim_rewards_msg(m).len() <= d.len(),
        d.subrange(pos, pos + enc_claim_rewards_msg(m).len()) == enc_claim_rewards_msg(m),
    ensures
        sp_read_claim_rewards_msg(d, pos) == Some((m, pos + enc_claim_rewards_msg(m).len())),
{
    let e1 = enc_string(m.validator);
    let e2 = enc_opt_string(m.source);
    let p0 = pos;
    let p1 = p0 + e1.len();
    let p2 = p1 + e2.len();
    assert(d.subrange(p1, p2) =~= e2) by {
        assert forall|j: int| 0 <= j < e2.len() implies d.subrange(p1, p2)[j] == e2[j] by {
            assert(d.subrange(p0, p2)[p1 - p0 + j] == ((e1) + e2)[p1 - p0 + j]);
        }
    }
    assert(d.subrange(p0, p1) =~= (e1)) by {
        assert forall|j: int| 0 <= j < p1 - p0 implies d.subrange(p0, p1)[j] == (e1)[j] by {
            assert(d.subrange(p0, p2)[j] == ((e1) + e2)[j]);
        }
    }
    lemma_read_enc_string(d, p0, m.validator);
    lemma_read_enc_opt_string(d, p1, m.source);
    assert((ClaimRewardsMsgV { validator: m.validator, source: m.source }) =~= m);
}

/// Decoding an encoded `ClaimRewardsMsg` yields the message back, exactly.
#[verifier::rlimit(80)]
pub proof fn lemma_claim_rewards_msg_round_trip(m: ClaimRewardsMsgV)
    requires
        claim_rewards_msg_fits(m),
    ensures
        sp_claim_rewards_msg(enc_claim_rewards_msg(m)) == Some(m),
{
    let d = enc_claim_rewards_msg(m);
    assert(d.subrange(0, d.len() as int) =~= d);
    lemma_read_enc_claim_rewards_msg(d, 0, m);
}

pub fn read_claim_rewards_msg(d: &[u8], pos: usize) -> (r: Option<(ClaimRewardsMsg, usize)>)
    requires
        pos <= d@.len(),
    ensures
        match r {
            Some((m, p)) => sp_read_claim_rewards_msg(d@, pos as int) == Some((m@, p as int)) && p
                <= d@.len(),
            None => sp_read_claim_rewards_msg(d@, pos as int) is None,
        },
{
    let (x_validator, pos1) = match read_text(d, pos) {
        Some(x) => x,
        None => {
            return None;
        },
    };
    let (x_source, pos2) = match read_opt_text(d, pos1) {
        Some(x) => x,
        None => {
            return None;
        },
    };
    Some((ClaimRewardsMsg { validator: x_validator, source: x_source }, pos2))
}

#[verifier::rlimit(80)]
pub fn write_claim_rewards_msg(out: &mut Vec<u8>, m: &ClaimRewardsMsg)
    requires
        claim_rewards_msg_fits(m@),
    ensures
        final(out)@ == old(out)@ + enc_claim_rewards_msg(m@),
{
    write_text(out, m.validator.as_str());
    proof {
        assert(out@ =~= old(out)@ + (enc_string(m@.validator)));
    }
    write_opt_text(out, &m.source);
    proof {
        assert(out@ =~= old(out)@ + (enc_string(m@.validator) + enc_opt_string(m@.source)));
    }
}

#[derive(Debug)]
pub struct TransferDataMsg {
    pub owner: String,
    pub token: String,
    pub amount: String,
}

#[verifier::ext_equal]
pub struct TransferDataMsgV {
    pub owner: Seq<char>,
    pub token: Seq<char>,
    pub amount: Seq<char>,
}

impl View for TransferDataMsg {
    type V = TransferDataMsgV;

    open spec fn view(&self) -> TransferDataMsgV {
        TransferDataMsgV {
            owner: self.owner@,
            token: self.token@,
            amount: self.amount@,
        }
    }
}

impl TransferDataMsg {
    pub fn new(owner: String, token: String, amount: String) -> (r: TransferDataMsg)
        ensures
            r@ == (TransferDataMsgV {
                owner: owner@,
                token: token@,
                amount: amount@,
            }),
    {
        TransferDataMsg { owner, token, amount }
    }

    /// Decodes one whole payload; trailing bytes are a decode failure.
    pub fn try_from_slice(d: &[u8]) -> (r: Result<TransferDataMsg, ArgError>)
        ensures
            r is Ok <==> sp_transfer_data_msg(d@) is Some,
            r matches Ok(m) ==> sp_transfer_data_msg(d@) == Some(m@),
            r matches Err(e) ==> e == ArgError::DecodeError,
    {
        match read_transfer_data_msg(d, 0) {
            Some((m, p)) => {
                if p == d.len() {
                    Ok(m)
                } else {
                    Err(ArgError::DecodeError)
                }
            },
            None => Err(ArgError::DecodeError),
        }
    }

    pub fn to_bytes(&self) -> (r: Vec<u8>)
        requires
            transfer_data_msg_fits(self@),
        ensures
            r@ == enc_transfer_data_msg(self@),
    {
        let mut out: Vec<u8> = Vec::new();
        write_transfer_data_msg(&mut out, self);
        proof {
            assert(out@ =~= enc_transfer_data_msg(self@));
        }
        out
    }
}

pub open spec fn enc_transfer_data_msg(m: TransferDataMsgV) -> Seq<u8> {
    enc_string(m.owner) + enc_string(m.token) + enc_string(m.amount)
}

pub open spec fn transfer_data_msg_fits(m: TransferDataMsgV) -> bool {
    fits_u32(encode_utf8(m.owner).len()) && fits_u32(encode_utf8(m.token).len()) && fits_u32(encode_utf8(m.amount).len())
}

pub open spec fn sp_read_transfer_data_msg(d: Seq<u8>, pos: int) -> Option<(TransferDataMsgV, int)> {
    match sp_read_string(d, pos) {
        None => None,
        Some((x_owner, pos1)) => {
            match sp_read_string(d, pos1) {
                None => None,
                Some((x_token, pos2)) => {
                    match sp_read_string(d, pos2) {
                        None => None,
                        Some((x_amount, pos3)) => {
                            Some(
                                (TransferDataMsgV { owner: x_owner, token: x_token, amount: x_amount }, pos3),
                            )
                        },
                    }
                },
            }
        },
    }
}

pub open spec fn sp_transfer_data_msg(d: Seq<u8>) -> Option<TransferDataMsgV> {
    match sp_read_transfer_data_msg(d, 0) {
        Some((m, p)) => if p == d.len() {
            Some(m)
        } else {
            None
        },
        None => None,
    }
}

#[verifier::rlimit(80)]
pub proof fn lemma_read_enc_transfer_data_msg(d: Seq<u8>, pos: int, m: TransferDataMsgV)
    requires
        0 <= pos,
        transfer_data_msg_fits(m),
        pos + enc_transfer_data_msg(m).len() <= d.len(),
        d.subrange(pos, pos + enc_transfer_data_msg(m).len()) == enc_transfer_data_msg(m),
    ensures
        sp_read_transfer_data_msg(d, pos) == Some((m, pos + enc_transfer_data_msg(m).len())),
{
    let e1 = enc_string(m.owner);
    let e2 = enc_string(m.token);
    let e3 = enc_string(m.amount);
    let p0 = pos;
    let p1 = p0 + e1.len();
    let p2 = p1 + e2.len();
    let p3 = p2 + e3.len();
    assert(d.subrange(p2, p3) =~= e3) by {
        assert forall|j: int| 0 <= j < e3.len() implies d.subrange(p2, p3)[j] == e3[j] by {
            assert(d.subrange(p0, p3)[p2 - p0 + j] == ((e1 + e2) + e3)[p2 - p0 + j]);
        }
    }
    assert(d.subrange(p0, p2) =~= (e1 + e2)) by {
        assert forall|j: int| 0 <= j < p2 - p0 implies d.subrange(p0, p2)[j] == (e1 + e2)[j] by {
            assert(d.subrange(p0, p3)[j] == ((e1 + e2) + e3)[j]);
        }
    }
    assert(d.subrange(p1, p2) =~= e2) by {
        assert forall|j: int| 0 <= j < e2.len() implies d.subrange(p1, p2)[j] == e2[j] by {
            assert(d.subrange(p0, p2)[p1 - p0 + j] == ((e1) + e2)[p1 - p0 + j]);
        }
    }
    assert(d.subrange(p0, p1) =~= (e1)) by {
        assert forall|j: int| 0 <= j < p1 - p0 implies d.subrange(p0, p1)[j] == (e1)[j] by {
            assert(d.subrange(p0, p2)[j] == ((e1) + e2)[j]);
        }
    }
    lemma_read_enc_string(d, p0, m.owner);
    lemma_read_enc_string(d, p1, m.token);
    lemma_read_enc_string(d, p2, m.amount);
    assert((TransferDataMsgV { owner: m.owner, token: m.token, amount: m.amount }) =~= m);
}

/// Decoding an encoded `TransferDataMsg` yields the message back, exactly.
#[verifier::rlimit(80)]
pub proof fn lemma_transfer_data_msg_round_trip(m: TransferDataMsgV)
    requires
        transfer_data_msg_fits(m),
    ensures
        sp_transfer_data_msg(enc_transfer_data_msg(m)) == Some(m),
{
    let d = enc_transfer_data_msg(m);
    assert(d.subrange(0, d.len() as int) =~= d);
    lemma_read_enc_transfer_data_msg(d, 0, m);
}

pub fn read_transfer_data_msg(d: &[u8], pos: usize) -> (r: Option<(TransferDataMsg, usize)>)
    requires
        pos <= d@.len(),
    ensures
        match r {
            Some((m, p)) => sp_read_transfer_data_msg(d@, pos as int) == Some((m@, p as int)) && p
                <= d@.len(),
            None => sp_read_transfer_data_msg(d@, pos as int) is None,
        },
{
    let (x_owner, pos1) = match read_text(d, pos) {
        Some(x) => x,
        None => {
            return None;
        },
    };
    let (x_token, pos2) = match read_text(d, pos1) {
        Some(x) => x,
        None => {
            return None;
        },
    };
    let (x_amount, pos3) = match read_text(d, pos2) {
        Some(x) => x,
        None => {
            return None;
        },
    };
    Some((TransferDataMsg { owner: x_owner, token: x_token, amount: x_amount }, pos3))
}

#[verifier::rlimit(80)]
pub fn write_transfer_data_msg(out: &mut Vec<u8>, m: &TransferDataMsg)
    requires
        transfer_data_msg_fits(m@),
    ensures
        final(out)@ == old(out)@ + enc_transfer_data_msg(m@),
{
    write_text(out, m.owner.as_str());
    proof {
        assert(out@ =~= old(out)@ + (enc_string(m@.owner)));
    }
    write_text(out, m.token.as_str());
    proof {
        assert(out@ =~= old(out)@ + (enc_string(m@.owner) + enc_string(m@.token)));
    }
    write_text(out, m.amount.as_str());
    proof {
        assert(out@ =~= old(out)@ + (enc_string(m@.owner) + enc_string(m@.token) + enc_string(m@.amount)));
    }
}

pub open spec fn transfer_data_msg_views(s: Seq<TransferDataMsg>) -> Seq<TransferDataMsgV> {
    s.map_values(|x: TransferDataMsg| x@)
}

pub open spec fn enc_transfer_data_msg_items(xs: Seq<TransferDataMsgV>) -> Seq<u8>
    decreases xs.len(),
{
    if xs.len() == 0 {
        Seq::empty()
    } else {
        enc_transfer_data_msg(xs[0]) + enc_transfer_data_msg_items(xs.drop_first())
    }
}

pub open spec fn enc_transfer_data_msg_seq(xs: Seq<TransferDataMsgV>) -> Seq<u8> {
    enc_u32(xs.len() as u32) + enc_transfer_data_msg_items(xs)
}

pub open spec fn transfer_data_msg_seq_fits(xs: Seq<TransferDataMsgV>) -> bool {
    fits_u32(xs.len()) && (forall|i: int| 0 <= i < xs.len() ==> #[trigger] transfer_data_msg_fits(xs[i]))
}

pub open spec fn sp_read_transfer_data_msg_n(d: Seq<u8>, pos: int, n: nat) -> Option<(Seq<TransferDataMsgV>, int)>
    decreases n,
{
    if n == 0 {
        Some((Seq::empty(), pos))
    } else {
        match sp_read_transfer_data_msg(d, pos) {
            Some((x, p)) => match sp_read_transfer_data_msg_n(d, p, (n - 1) as nat) {
                Some((xs, p2)) => Some((seq![x] + xs, p2)),
                None => None,
            },
            None => None,
        }
    }
}

pub open spec fn sp_read_transfer_data_msg_seq(d: Seq<u8>, pos: int) -> Option<(Seq<TransferDataMsgV>, int)> {
    match sp_read_u32(d, pos) {
        Some((n, p)) => sp_read_transfer_data_msg_n(d, p, n as nat),
        None => None,
    }
}

pub proof fn lemma_enc_transfer_data_msg_items_push(xs: Seq<TransferDataMsgV>, x: TransferDataMsgV)
    ensures
        enc_transfer_data_msg_items(xs.push(x)) == enc_transfer_data_msg_items(xs) + enc_transfer_data_msg(x),
    decreases xs.len(),
{
    let s1 = xs.push(x);
    if xs.len() == 0 {
        assert(s1[0] == x);
        assert(s1.drop_first() =~= Seq::<TransferDataMsgV>::empty());
        assert(enc_transfer_data_msg_items(s1.drop_first()) == Seq::<u8>::empty());
        assert(enc_transfer_data_msg_items(s1) == enc_transfer_data_msg(s1[0]) + enc_transfer_data_msg_items(s1.drop_first()));
        assert(enc_transfer_data_msg_items(xs) == Seq::<u8>::empty());
        assert(enc_transfer_data_msg_items(s1) =~= enc_transfer_data_msg_items(xs) + enc_transfer_data_msg(x));
    } else {
        assert(s1[0] == xs[0]);
        assert(s1.drop_first() =~= xs.drop_first().push(x));
        lemma_enc_transfer_data_msg_items_push(xs.drop_first(), x);
        assert(enc_transfer_data_msg_items(s1) == enc_transfer_data_msg(s1[0]) + enc_transfer_data_msg_items(s1.drop_first()));
        assert(enc_transfer_data_msg_items(s1) =~= enc_transfer_data_msg_items(xs) + enc_transfer_data_msg(x));
    }
}

#[verifier::rlimit(100)]
#[verifier::spinoff_prover]
pub proof fn lemma_read_enc_transfer_data_msg_items(d: Seq<u8>, pos: int, xs: Seq<TransferDataMsgV>)
    requires
        0 <= pos,
        forall|i: int| 0 <= i < xs.len() ==> #[trigger] transfer_data_msg_fits(xs[i]),
        pos + enc_transfer_data_msg_items(xs).len() <= d.len(),
        d.subrange(pos, pos + enc_transfer_data_msg_items(xs).len()) == enc_transfer_data_msg_items(xs),
    ensures
        sp_read_transfer_data_msg_n(d, pos, xs.len()) == Some((xs, pos + enc_transfer_data_msg_items(xs).len())),
    decreases xs.len(),
{
    if xs.len() == 0 {
        assert(xs =~= Seq::<TransferDataMsgV>::empty());
    } else {
        let all = enc_transfer_data_msg_items(xs);
        let e0 = enc_transfer_data_msg(xs[0]);
        let rest = enc_transfer_data_msg_items(xs.drop_first());
        assert(d.subrange(pos, pos + e0.len()) =~= e0) by {
            assert forall|j: int| 0 <= j < e0.len() implies d.subrange(pos, pos + e0.len() as int)[j]
                == e0[j] by {
                assert(d.subrange(pos, pos + all.len() as int)[j] == all[j]);
            }
        }
        lemma_read_enc_transfer_data_msg(d, pos, xs[0]);
        assert(d.subrange(pos + e0.len(), pos + e0.len() + rest.len()) =~= rest) by {
            assert forall|j: int| 0 <= j < rest.len() implies d.subrange(
                pos + e0.len() as int,
                pos + e0.len() + rest.len(),
            )[j] == rest[j] by {
                assert(d.subrange(pos, pos + all.len() as int)[e0.len() + j] == all[e0.len() + j]);
            }
        }
        lemma_read_enc_transfer_data_msg_items(d, pos + e0.len() as int, xs.drop_first());
        assert(seq![xs[0]] + xs.drop_first() =~= xs);
    }
}

#[verifier::rlimit(80)]
pub proof fn lemma_read_enc_transfer_data_msg_seq(d: Seq<u8>, pos: int, xs: Seq<TransferDataMsgV>)
    requires
        0 <= pos,
        transfer_data_msg_seq_fits(xs),
        pos + enc_transfer_data_msg_seq(xs).len() <= d.len(),
        d.subrange(pos, pos + enc_transfer_data_msg_seq(xs).len()) == enc_transfer_data_msg_seq(xs),
    ensures
        sp_read_transfer_data_msg_seq(d, pos) == Some((xs, pos + enc_transfer_data_msg_seq(xs).len())),
{
    let all = enc_transfer_data_msg_seq(xs);
    let n = xs.len() as u32;
    let items = enc_transfer_data_msg_items(xs);
    assert(d.subrange(pos, pos + 4) =~= enc_u32(n)) by {
        assert forall|j: int| 0 <= j < 4 implies d.subrange(pos, pos + 4)[j] == enc_u32(n)[j] by {
            assert(d.subrange(pos, pos + all.len() as int)[j] == all[j]);
        }
    }
    lemma_read_enc_u32(d, pos, n);
    assert(d.subrange(pos + 4, pos + 4 + items.len()) =~= items) by {
        assert forall|j: int| 0 <= j < items.len() implies d.subrange(
            pos + 4,
            pos + 4 + items.len(),
        )[j] == items[j] by {
            assert(d.subrange(pos, pos + all.len() as int)[4 + j] == all[4 + j]);
        }
    }
    lemma_read_enc_transfer_data_msg_items(d, pos + 4, xs);
}

pub fn read_transfer_data_msg_vec(d: &[u8], pos: usize) -> (r: Option<(Vec<TransferDataMsg>, usize)>)
    requires
        pos <= d@.len(),
    ensures
        match r {
            Some((v, p)) => sp_read_transfer_data_msg_seq(d@, pos as int) == Some((transfer_data_msg_views(v@), p as int)) && p
                <= d@.len(),
            None => sp_read_transfer_data_msg_seq(d@, pos as int) is None,
        },
{
    match read_u32(d, pos) {
        None => None,
        Some((n, p0)) => {
            let mut acc: Vec<TransferDataMsg> = Vec::new();
            let mut cur: usize = p0;
            let mut i: u32 = 0;
            while i < n
                invariant
                    i <= n,
                    pos <= d@.len(),
                    cur <= d@.len(),
                    acc@.len() == i,
                    sp_read_u32(d@, pos as int) == Some((n, p0 as int)),
                    match sp_read_transfer_data_msg_n(d@, cur as int, (n - i) as nat) {
                        Some((xs, pe)) => sp_read_transfer_data_msg_n(d@, p0 as int, n as nat) == Some(
                            (transfer_data_msg_views(acc@) + xs, pe),
                        ),
                        None => sp_read_transfer_data_msg_n(d@, p0 as int, n as nat) is None,
                    },
                decreases n - i,
            {
                match read_transfer_data_msg(d, cur) {
                    None => {
                        return None;
                    },
                    Some((x, p2)) => {
                        let ghost pre = transfer_data_msg_views(acc@);
                        let ghost xv = x@;
                        acc.push(x);
                        proof {
                            assert(transfer_data_msg_views(acc@) =~= pre.push(xv));
                            match sp_read_transfer_data_msg_n(d@, p2 as int, (n - i - 1) as nat) {
                                Some((xs2, pe)) => {
                                    assert(pre + (seq![xv] + xs2) =~= pre.push(xv) + xs2);
                                },
                                None => {},
                            }
                        }
                        cur = p2;
                        i = i + 1;
                    },
                }
            }
            proof {
                assert(transfer_data_msg_views(acc@) + Seq::<TransferDataMsgV>::empty() =~= transfer_data_msg_views(acc@));
            }
            Some((acc, cur))
        },
    }
}

pub fn write_transfer_data_msg_vec(out: &mut Vec<u8>, v: &Vec<TransferDataMsg>)
    requires
        transfer_data_msg_seq_fits(transfer_data_msg_views(v@)),
    ensures
        final(out)@ == old(out)@ + enc_transfer_data_msg_seq(transfer_data_msg_views(v@)),
{
    let ghost views = transfer_data_msg_views(v@);
    assert(v@.len() == views.len());
    write_u32(out, v.len() as u32);
    let mut i: usize = 0;
    while i < v.len()
        invariant
            i <= v@.len(),
            views == transfer_data_msg_views(v@),
            transfer_data_msg_seq_fits(views),
            out@ == old(out)@ + enc_u32(views.len() as u32) + enc_transfer_data_msg_items(
                views.subrange(0, i as int),
            ),
        decreases v@.len() - i,
    {
        assert(views[i as int] == v@[i as int]@);
        write_transfer_data_msg(out, &v[i]);
        proof {
            assert(views.subrange(0, i + 1) =~= views.subrange(0, i as int).push(views[i as int]));
            lemma_enc_transfer_data_msg_items_push(views.subrange(0, i as int), views[i as int]);
        }
        i = i + 1;
    }
    proof {
        assert(views.subrange(0, views.len() as int) =~= views);
    }
}


#[derive(Debug)]
pub struct TransferMsg {
    pub sources: Vec<TransferDataMsg>,
    pub targets: Vec<TransferDataMsg>,
    pub shielded_section_hash: Option<Vec<u8>>,
}

#[verifier::ext_equal]
pub struct TransferMsgV {
    pub sources: Seq<TransferDataMsgV>,
    pub targets: Seq<TransferDataMsgV>,
    pub shielded_section_hash: Option<Seq<u8>>,
}

impl View for TransferMsg {
    type V = TransferMsgV;

    open spec fn view(&self) -> TransferMsgV {
        TransferMsgV {
            sources: transfer_data_msg_views(self.sources@),
            targets: transfer_data_msg_views(self.targets@),
            shielded_section_hash: view_opt_bytes(self.shielded_section_hash),
        }
    }
}

impl TransferMsg {
    pub fn new(sources: Vec<TransferDataMsg>, targets: Vec<TransferDataMsg>, shielded_section_hash: Option<Vec<u8>>) -> (r: TransferMsg)
        ensures
            r@ == (TransferMsgV {
                sources: transfer_data_msg_views(sources@),
                targets: transfer_data_msg_views(targets@),
                shielded_section_hash: view_opt_bytes(shielded_section_hash),
            }),
    {
        TransferMsg { sources, targets, shielded_section_hash }
    }

    /// Decodes one whole payload; trailing bytes are a decode failure.
    pub fn try_from_slice(d: &[u8]) -> (r: Result<TransferMsg, ArgError>)
        ensures
            r is Ok <==> sp_transfer_msg(d@) is Some,
            r matches Ok(m) ==> sp_transfer_msg(d@) == Some(m@),
            r matches Err(e) ==> e == ArgError::DecodeError,
    {
        match read_transfer_msg(d, 0) {
            Some((m, p)) => {
                if p == d.len() {
                    Ok(m)
                } else {
                    Err(ArgError::DecodeError)
                }
            },
            None => Err(ArgError::DecodeError),
        }
    }

    pub fn to_bytes(&self) -> (r: Vec<u8>)
        requires
            transfer_msg_fits(self@),
        ensures
            r@ == enc_transfer_msg(self@),
    {
        let mut out: Vec<u8> = Vec::new();
        write_transfer_msg(&mut out, self);
        proof {
            assert(out@ =~= enc_transfer_msg(self@));
        }
        out
    }
}

pub open spec fn enc_transfer_msg(m: TransferMsgV) -> Seq<u8> {
    enc_transfer_data_msg_seq(m.sources) + enc_transfer_data_msg_seq(m.targets) + enc_opt_bytes(m.shielded_section_hash)
}

pub open spec fn transfer_msg_fits(m: TransferMsgV) -> bool {
    transfer_data_msg_seq_fits(m.sources) && transfer_data_msg_seq_fits(m.targets) && opt_bytes_fits(m.shielded_section_hash)
}

pub open spec fn sp_read_transfer_msg(d: Seq<u8>, pos: int) -> Option<(TransferMsgV, int)> {
    match sp_read_transfer_data_msg_seq(d, pos) {
        None => None,
        Some((x_sources, pos1)) => {
            match sp_read_transfer_data_msg_seq(d, pos1) {
                None => None,
                Some((x_targets, pos2)) => {
                    match sp_read_opt_bytes(d, pos2) {
                        None => None,
                        Some((x_shielded_section_hash, pos3)) => {
                            Some(
                                (TransferMsgV { sources: x_sources, targets: x_targets, shielded_section_hash: x_shielded_section_hash }, pos3),
                            )
                        },
                    }
                },
            }
        },
    }
}

pub open spec fn sp_transfer_msg(d: Seq<u8>) -> Option<TransferMsgV> {
    match sp_read_transfer_msg(d, 0) {
        Some((m, p)) => if p == d.len() {
            Some(m)
        } else {
            None
        },
        None => None,
    }
}

#[verifier::rlimit(80)]
pub proof fn lemma_read_enc_transfer_msg(d: Seq<u8>, pos: int, m: TransferMsgV)
    requires
        0 <= pos,
        transfer_msg_fits(m),
        pos + enc_transfer_msg(m).len() <= d.len(),
        d.subrange(pos, pos + enc_transfer_msg(m).len()) == enc_transfer_msg(m),
    ensures
        sp_read_transfer_msg(d, pos) == Some((m, pos + enc_transfer_msg(m).len())),
{
    let e1 = enc_transfer_data_msg_seq(m.sources);
    let e2 = enc_transfer_data_msg_seq(m.targets);
    let e3 = enc_opt_bytes(m.shielded_section_hash);
    let p0 = pos;
    let p1 = p0 + e1.len();
    let p2 = p1 + e2.len();
    let p3 = p2 + e3.len();
    assert(d.subrange(p2, p3) =~= e3) by {
        assert forall|j: int| 0 <= j < e3.len() implies d.subrange(p2, p3)[j] == e3[j] by {
            assert(d.subrange(p0, p3)[p2 - p0 + j] == ((e1 + e2) + e3)[p2 - p0 + j]);
        }
    }
    assert(d.subrange(p0, p2) =~= (e1 + e2)) by {
        assert forall|j: int| 0 <= j < p2 - p0 implies d.subrange(p0, p2)[j] == (e1 + e2)[j] by {
            assert(d.subrange(p0, p3)[j] == ((e1 + e2) + e3)[j]);
        }
    }
    assert(d.subrange(p1, p2) =~= e2) by {
        assert forall|j: int| 0 <= j < e2.len() implies d.subrange(p1, p2)[j] == e2[j] by {
            assert(d.subrange(p0, p2)[p1 - p0 + j] == ((e1) + e2)[p1 - p0 + j]);
        }
    }
    assert(d.subrange(p0, p1) =~= (e1)) by {
        assert forall|j: int| 0 <= j < p1 - p0 implies d.subrange(p0, p1)[j] == (e1)[j] by {
            assert(d.subrange(p0, p2)[j] == ((e1) + e2)[j]);
        }
    }
    lemma_read_enc_transfer_data_msg_seq(d, p0, m.sources);
    lemma_read_enc_transfer_data_msg_seq(d, p1, m.targets);
    lemma_read_enc_opt_bytes(d, p2, m.shielded_section_hash);
    assert((TransferMsgV { sources: m.sources, targets: m.targets, shielded_section_hash: m.shielded_section_hash }) =~= m);
}

/// Decoding an encoded `TransferMsg` yields the message back, exactly.
#[verifier::rlimit(80)]
pub proof fn lemma_transfer_msg_round_trip(m: TransferMsgV)
    requires
        transfer_msg_fits(m),
    ensures
        sp_transfer_msg(enc_transfer_msg(m)) == Some(m),
{
    let d = enc_transfer_msg(m);
    assert(d.subrange(0, d.len() as int) =~= d);
    lemma_read_enc_transfer_msg(d, 0, m);
}

pub fn read_transfer_msg(d: &[u8], pos: usize) -> (r: Option<(TransferMsg, usize)>)
    requires
        pos <= d@.len(),
    ensures
        match r {
            Some((m, p)) => sp_read_transfer_msg(d@, pos as int) == Some((m@, p as int)) && p
                <= d@.len(),
            None => sp_read_transfer_msg(d@, pos as int) is None,
        },
{
    let (x_sources, pos1) = match read_transfer_data_msg_vec(d, pos) {
        Some(x) => x,
        None => {
            return None;
        },
    };
    let (x_targets, pos2) = match read_transfer_data_msg_vec(d, pos1) {
        Some(x) => x,
        None => {
            return None;
        },
    };
    let (x_shielded_section_hash, pos3) = match read_opt_byte_string(d, pos2) {
        Some(x) => x,
        None => {
            return None;
        },
    };
    Some((TransferMsg { sources: x_sources, targets: x_targets, shielded_section_hash: x_shielded_section_hash }, pos3))
}

#[verifier::rlimit(80)]
pub fn write_transfer_msg(out: &mut Vec<u8>, m: &TransferMsg)
    requires
        transfer_msg_fits(m@),
    ensures
        final(out)@ == old(out)@ + enc_transfer_msg(m@),
{
    write_transfer_data_msg_vec(out, &m.sources);
    proof {
        assert(out@ =~= old(out)@ + (enc_transfer_data_msg_seq(m@.sources)));
    }
    write_transfer_data_msg_vec(out, &m.targets);
    proof {
        assert(out@ =~= old(out)@ + (enc_transfer_data_msg_seq(m@.sources) + enc_transfer_data_msg_seq(m@.targets)));
    }
    write_opt_byte_string(out, &m.shielded_section_hash);
    proof {
        assert(out@ =~= old(out)@ + (enc_transfer_data_msg_seq(m@.sources) + enc_transfer_data_msg_seq(m@.targets) + enc_opt_bytes(m@.shielded_section_hash)));
    }
}

#[derive(Debug)]
pub struct TransparentTransferDataMsg {
    pub source: String,
    pub target: String,
    pub token: String,
    pub amount: String,
}

#[verifier::ext_equal]
pub struct TransparentTransferDataMsgV {
    pub source: Seq<char>,
    pub target: Seq<char>,
    pub token: Seq<char>,
    pub amount: Seq<char>,
}

impl View for TransparentTransferDataMsg {
    type V = TransparentTransferDataMsgV;

    open spec fn view(&self) -> TransparentTransferDataMsgV {
        TransparentTransferDataMsgV {
            source: self.source@,
            target: self.target@,
            token: self.token@,
            amount: self.amount@,
        }
    }
}

impl TransparentTransferDataMsg {
    pub fn new(source: String, target: String, token: String, amount: String) -> (r: TransparentTransferDataMsg)
        ensures
            r@ == (TransparentTransferDataMsgV {
                source: source@,
                target: target@,
                token: token@,
                amount: amount@,
            }),
    {
        TransparentTransferDataMsg { source, target, token, amount }
    }

    /// Decodes one whole payload; trailing bytes are a decode failure.
    pub fn try_from_slice(d: &[u8]) -> (r: Result<TransparentTransferDataMsg, ArgError>)
        ensures
            r is Ok <==> sp_transparent_transfer_data_msg(d@) is Some,
            r matches Ok(m) ==> sp_transparent_transfer_data_msg(d@) == Some(m@),
            r matches Err(e) ==> e == ArgError::DecodeError,
    {
        match read_transparent_transfer_data_msg(d, 0) {
            Some((m, p)) => {
                if p == d.len() {
                    Ok(m)
                } else {
                    Err(ArgError::DecodeError)
                }
            },
            None => Err(ArgError::DecodeError),
        }
    }

    pub fn to_bytes(&self) -> (r: Vec<u8>)
        requires
            transparent_transfer_data_msg_fits(self@),
        ensures
            r@ == enc_transparent_transfer_data_msg(self@),
    {
        let mut out: Vec<u8> = Vec::new();
        write_transparent_transfer_data_msg(&mut out, self);
        proof {
            assert(out@ =~= enc_transparent_transfer_data_msg(self@));
        }
        out
    }
}

pub open spec fn enc_transparent_transfer_data_msg(m: TransparentTransferDataMsgV) -> Seq<u8> {
    enc_string(m.source) + enc_string(m.target) + enc_string(m.token) + enc_string(m.amount)
}

pub open spec fn transparent_transfer_data_msg_fits(m: TransparentTransferDataMsgV) -> bool {
    fits_u32(encode_utf8(m.source).len()) && fits_u32(encode_utf8(m.target).len()) && fits_u32(encode_utf8(m.token).len()) && fits_u32(encode_utf8(m.amount).len())
}

pub open spec fn sp_read_transparent_transfer_data_msg(d: Seq<u8>, pos: int) -> Option<(TransparentTransferDataMsgV, int)> {
    match sp_read_string(d, pos) {
        None => None,
        Some((x_source, pos1)) => {
            match sp_read_string(d, pos1) {
                None => None,
                Some((x_target, pos2)) => {
                    match sp_read_string(d, pos2) {
                        None => None,
                        Some((x_token, pos3)) => {
                            match sp_read_string(d, pos3) {
                                None => None,
                                Some((x_amount, pos4)) => {
                                    Some(
                                        (TransparentTransferDataMsgV { source: x_source, target: x_target, token: x_token, amount: x_amount }, pos4),
                                    )
                                },
                            }
                        },
                    }
                },
            }
        },
    }
}

pub open spec fn sp_transparent_transfer_data_msg(d: Seq<u8>) -> Option<TransparentTransferDataMsgV> {
    match sp_read_transparent_transfer_data_msg(d, 0) {
        Some((m, p)) => if p == d.len() {
            Some(m)
        } else {
            None
        },
        None => None,
    }
}

#[verifier::rlimit(80)]
pub proof fn lemma_read_enc_transparent_transfer_data_msg(d: Seq<u8>, pos: int, m: TransparentTransferDataMsgV)
    requires
        0 <= pos,
        transparent_transfer_data_msg_fits(m),
        pos + enc_transparent_transfer_data_msg(m).len() <= d.len(),
        d.subrange(pos, pos + enc_transparent_transfer_data_msg(m).len()) == enc_transparent_transfer_data_msg(m),
    ensures
        sp_read_transparent_transfer_data_msg(d, pos) == Some((m, pos + enc_transparent_transfer_data_msg(m).len())),
{
    let e1 = enc_string(m.source);
    let e2 = enc_string(m.target);
    let e3 = enc_string(m.token);
    let e4 = enc_string(m.amount);
    let p0 = pos;
    let p1 = p0 + e1.len();
    let p2 = p1 + e2.len();
    let p3 = p2 + e3.len();
    let p4 = p3 + e4.len();
    assert(d.subrange(p3, p4) =~= e4) by {
        assert forall|j: int| 0 <= j < e4.len() implies d.subrange(p3, p4)[j] == e4[j] by {
            assert(d.subrange(p0, p4)[p3 - p0 + j] == ((e1 + e2 + e3) + e4)[p3 - p0 + j]);
        }
    }
    assert(d.subrange(p0, p3) =~= (e1 + e2 + e3)) by {
        assert forall|j: int| 0 <= j < p3 - p0 implies d.subrange(p0, p3)[j] == (e1 + e2 + e3)[j] by {
            assert(d.subrange(p0, p4)[j] == ((e1 + e2 + e3) + e4)[j]);
        }
    }
    assert(d.subrange(p2, p3) =~= e3) by {
        assert forall|j: int| 0 <= j < e3.len() implies d.subrange(p2, p3)[j] == e3[j] by {
            assert(d.subrange(p0, p3)[p2 - p0 + j] == ((e1 + e2) + e3)[p2 - p0 + j]);
        }
    }
    assert(d.subrange(p0, p2) =~= (e1 + e2)) by {
        assert forall|j: int| 0 <= j < p2 - p0 implies d.subrange(p0, p2)[j] == (e1 + e2)[j] by {
            assert(d.subrange(p0, p3)[j] == ((e1 + e2) + e3)[j]);
        }
    }
    assert(d.subrange(p1, p2) =~= e2) by {
        assert forall|j: int| 0 <= j < e2.len() implies d.subrange(p1, p2)[j] == e2[j] by {
            assert(d.subrange(p0, p2)[p1 - p0 + j] == ((e1) + e2)[p1 - p0 + j]);
        }
    }
    assert(d.subrange(p0, p1) =~= (e1)) by {
        assert forall|j: int| 0 <= j < p1 - p0 implies d.subrange(p0, p1)[j] == (e1)[j] by {
            assert(d.subrange(p0, p2)[j] == ((e1) + e2)[j]);
        }
    }
    lemma_read_enc_string(d, p0, m.source);
    lemma_read_enc_string(d, p1, m.target);
    lemma_read_enc_string(d, p2, m.token);
    lemma_read_enc_string(d, p3, m.amount);
    assert((TransparentTransferDataMsgV { source: m.source, target: m.target, token: m.token, amount: m.amount }) =~= m);
}

/// Decoding an encoded `TransparentTransferDataMsg` yields the message back, exactly.
#[verifier::rlimit(80)]
pub proof fn lemma_transparent_transfer_data_msg_round_trip(m: TransparentTransferDataMsgV)
    requires
        transparent_transfer_data_msg_fits(m),
    ensures
        sp_transparent_transfer_data_msg(enc_transparent_transfer_data_msg(m)) == Some(m),
{
    let d = enc_transparent_transfer_data_msg(m);
    assert(d.subrange(0, d.len() as int) =~= d);
    lemma_read_enc_transparent_transfer_data_msg(d, 0, m);
}

pub fn read_transparent_transfer_data_msg(d: &[u8], pos: usize) -> (r: Option<(TransparentTransferDataMsg, usize)>)
    requires
        pos <= d@.len(),
    ensures
        match r {
            Some((m, p)) => sp_read_transparent_transfer_data_msg(d@, pos as int) == Some((m@, p as int)) && p
                <= d@.len(),
            None => sp_read_transparent_transfer_data_msg(d@, pos as int) is None,
        },
{
    let (x_source, pos1) = match read_text(d, pos) {
        Some(x) => x,
        None => {
            return None;
        },
    };
    let (x_target, pos2) = match read_text(d, pos1) {
        Some(x) => x,
        None => {
            return None;
        },
    };
    let (x_token, pos3) = match read_text(d, pos2) {
        Some(x) => x,
        None => {
            return None;
        },
    };
    let (x_amount, pos4) = match read_text(d, pos3) {
        Some(x) => x,
        None => {
            return None;
        },
    };
    Some((TransparentTransferDataMsg { source: x_source, target: x_target, token: x_token, amount: x_amount }, pos4))
}

#[verifier::rlimit(80)]
pub fn write_transparent_transfer_data_msg(out: &mut Vec<u8>, m: &TransparentTransferDataMsg)
    requires
        transparent_transfer_data_msg_fits(m@),
    ensures
        final(out)@ == old(out)@ + enc_transparent_transfer_data_msg(m@),
{
    write_text(out, m.source.as_str());
    proof {
        assert(out@ =~= old(out)@ + (enc_string(m@.source)));
    }
    write_text(out, m.target.as_str());
    proof {
        assert(out@ =~= old(out)@ + (enc_string(m@.source) + enc_string(m@.target)));
    }
    write_text(out, m.token.as_str());
    proof {
        assert(out@ =~= old(out)@ + (enc_string(m@.source) + enc_string(m@.target) + enc_string(m@.token)));
    }
    write_text(out, m.amount.as_str());
    proof {
        assert(out@ =~= old(out)@ + (enc_string(m@.source) + enc_string(m@.target) + enc_string(m@.token) + enc_string(m@.amount)));
    }
}

pub open spec fn transparent_transfer_data_msg_views(s: Seq<TransparentTransferDataMsg>) -> Seq<TransparentTransferDataMsgV> {
    s.map_values(|x: TransparentTransferDataMsg| x@)
}

pub open spec fn enc_transparent_transfer_data_msg_items(xs: Seq<TransparentTransferDataMsgV>) -> Seq<u8>
    decreases xs.len(),
{
    if xs.len() == 0 {
        Seq::empty()
    } else {
        enc_transparent_transfer_data_msg(xs[0]) + enc_transparent_transfer_data_msg_items(xs.drop_first())
    }
}

pub open spec fn enc_transparent_transfer_data_msg_seq(xs: Seq<TransparentTransferDataMsgV>) -> Seq<u8> {
    enc_u32(xs.len() as u32) + enc_transparent_transfer_data_msg_items(xs)
}

pub open spec fn transparent_transfer_data_msg_seq_fits(xs: Seq<TransparentTransferDataMsgV>) -> bool {
    fits_u32(xs.len()) && (forall|i: int| 0 <= i < xs.len() ==> #[trigger] transparent_transfer_data_msg_fits(xs[i]))
}

pub open spec fn sp_read_transparent_transfer_data_msg_n(d: Seq<u8>, pos: int, n: nat) -> Option<(Seq<TransparentTransferDataMsgV>, int)>
    decreases n,
{
    if n == 0 {
        Some((Seq::empty(), pos))
    } else {
        match sp_read_transparent_transfer_data_msg(d, pos) {
            Some((x, p)) => match sp_read_transparent_transfer_data_msg_n(d, p, (n - 1) as nat) {
                Some((xs, p2)) => Some((seq![x] + xs, p2)),
                None => None,
            },
            None => None,
        }
    }
}

pub open spec fn sp_read_transparent_transfer_data_msg_seq(d: Seq<u8>, pos: int) -> Option<(Seq<TransparentTransferDataMsgV>, int)> {
    match sp_read_u32(d, pos) {
        Some((n, p)) => sp_read_transparent_transfer_data_msg_n(d, p, n as nat),
        None => None,
    }
}

pub proof fn lemma_enc_transparent_transfer_data_msg_items_push(xs: Seq<TransparentTransferDataMsgV>, x: TransparentTransferDataMsgV)
    ensures
        enc_transparent_transfer_data_msg_items(xs.push(x)) == enc_transparent_transfer_data_msg_items(xs) + enc_transparent_transfer_data_msg(x),
    decreases xs.len(),
{
    let s1 = xs.push(x);
    if xs.len() == 0 {
        assert(s1[0] == x);
        assert(s1.drop_first() =~= Seq::<TransparentTransferDataMsgV>::empty());
        assert(enc_transparent_transfer_data_msg_items(s1.drop_first()) == Seq::<u8>::empty());
        assert(enc_transparent_transfer_data_msg_items(s1) == enc_transparent_transfer_data_msg(s1[0]) + enc_transparent_transfer_data_msg_items(s1.drop_first()));
        assert(enc_transparent_transfer_data_msg_items(xs) == Seq::<u8>::empty());
        assert(enc_transparent_transfer_data_msg_items(s1) =~= enc_transparent_transfer_data_msg_items(xs) + enc_transparent_transfer_data_msg(x));
    } else {
        assert(s1[0] == xs[0]);
        assert(s1.drop_first() =~= xs.drop_first().push(x));
        lemma_enc_transparent_transfer_data_msg_items_push(xs.drop_first(), x);
        assert(enc_transparent_transfer_data_msg_items(s1) == enc_transparent_transfer_data_msg(s1[0]) + enc_transparent_transfer_data_msg_items(s1.drop_first()));
        assert(enc_transparent_transfer_data_msg_items(s1) =~= enc_transparent_transfer_data_msg_items(xs) + enc_transparent_transfer_data_msg(x));
    }
}

#[verifier::rlimit(100)]
#[verifier::spinoff_prover]
pub proof fn lemma_read_enc_transparent_transfer_data_msg_items(d: Seq<u8>, pos: int, xs: Seq<TransparentTransferDataMsgV>)
    requires
        0 <= pos,
        forall|i: int| 0 <= i < xs.len() ==> #[trigger] transparent_transfer_data_msg_fits(xs[i]),
        pos + enc_transparent_transfer_data_msg_items(xs).len() <= d.len(),
        d.subrange(pos, pos + enc_transparent_transfer_data_msg_items(xs).len()) == enc_transparent_transfer_data_msg_items(xs),
    ensures
        sp_read_transparent_transfer_data_msg_n(d, pos, xs.len()) == Some((xs, pos + enc_transparent_transfer_data_msg_items(xs).len())),
    decreases xs.len(),
{
    if xs.len() == 0 {
        assert(xs =~= Seq::<TransparentTransferDataMsgV>::empty());
    } else {
        let all = enc_transparent_transfer_data_msg_items(xs);
        let e0 = enc_transparent_transfer_data_msg(xs[0]);
        let rest = enc_transparent_transfer_data_msg_items(xs.drop_first());
        assert(d.subrange(pos, pos + e0.len()) =~= e0) by {
            assert forall|j: int| 0 <= j < e0.len() implies d.subrange(pos, pos + e0.len() as int)[j]
                == e0[j] by {
                assert(d.subrange(pos, pos + all.len() as int)[j] == all[j]);
            }
        }
        lemma_read_enc_transparent_transfer_data_msg(d, pos, xs[0]);
        assert(d.subrange(pos + e0.len(), pos + e0.len() + rest.len()) =~= rest) by {
            assert forall|j: int| 0 <= j < rest.len() implies d.subrange(
                pos + e0.len() as int,
                pos + e0.len() + rest.len(),
            )[j] == rest[j] by {
                assert(d.subrange(pos, pos + all.len() as int)[e0.len() + j] == all[e0.len() + j]);
            }
        }
        lemma_read_enc_transparent_transfer_data_msg_items(d, pos + e0.len() as int, xs.drop_first());
        assert(seq![xs[0]] + xs.drop_first() =~= xs);
    }
}

#[verifier::rlimit(80)]
pub proof fn lemma_read_enc_transparent_transfer_data_msg_seq(d: Seq<u8>, pos: int, xs: Seq<TransparentTransferDataMsgV>)
    requires
        0 <= pos,
        transparent_transfer_data_msg_seq_fits(xs),
        pos + enc_transparent_transfer_data_msg_seq(xs).len() <= d.len(),
        d.subrange(pos, pos + enc_transparent_transfer_data_msg_seq(xs).len()) == enc_transparent_transfer_data_msg_seq(xs),
    ensures
        sp_read_transparent_transfer_data_msg_seq(d, pos) == Some((xs, pos + enc_transparent_transfer_data_msg_seq(xs).len())),
{
    let all = enc_transparent_transfer_data_msg_seq(xs);
    let n = xs.len() as u32;
    let items = enc_transparent_transfer_data_msg_items(xs);
    assert(d.subrange(pos, pos + 4) =~= enc_u32(n)) by {
        assert forall|j: int| 0 <= j < 4 implies d.subrange(pos, pos + 4)[j] == enc_u32(n)[j] by {
            assert(d.subrange(pos, pos + all.len() as int)[j] == all[j]);
        }
    }
    lemma_read_enc_u32(d, pos, n);
    assert(d.subrange(pos + 4, pos + 4 + items.len()) =~= items) by {
        assert forall|j: int| 0 <= j < items.len() implies d.subrange(
            pos + 4,
            pos + 4 + items.len(),
        )[j] == items[j] by {
            assert(d.subrange(pos, pos + all.len() as int)[4 + j] == all[4 + j]);
        }
    }
    lemma_read_enc_transparent_transfer_data_msg_items(d, pos + 4, xs);
}

pub fn read_transparent_transfer_data_msg_vec(d: &[u8], pos: usize) -> (r: Option<(Vec<TransparentTransferDataMsg>, usize)>)
    requires
        pos <= d@.len(),
    ensures
        match r {
            Some((v, p)) => sp_read_transparent_transfer_data_msg_seq(d@, pos as int) == Some((transparent_transfer_data_msg_views(v@), p as int)) && p
                <= d@.len(),
            None => sp_read_transparent_transfer_data_msg_seq(d@, pos as int) is None,
        },
{
    match read_u32(d, pos) {
        None => None,
        Some((n, p0)) => {
            let mut acc: Vec<TransparentTransferDataMsg> = Vec::new();
            let mut cur: usize = p0;
            let mut i: u32 = 0;
            while i < n
                invariant
                    i <= n,
                    pos <= d@.len(),
                    cur <= d@.len(),
                    acc@.len() == i,
                    sp_read_u32(d@, pos as int) == Some((n, p0 as int)),
                    match sp_read_transparent_transfer_data_msg_n(d@, cur as int, (n - i) as nat) {
                        Some((xs, pe)) => sp_read_transparent_transfer_data_msg_n(d@, p0 as int, n as nat) == Some(
                            (transparent_transfer_data_msg_views(acc@) + xs, pe),
                        ),
                        None => sp_read_transparent_transfer_data_msg_n(d@, p0 as int, n as nat) is None,
                    },
                decreases n - i,
            {
                match read_transparent_transfer_data_msg(d, cur) {
                    None => {
                        return None;
                    },
                    Some((x, p2)) => {
                        let ghost pre = transparent_transfer_data_msg_views(acc@);
                        let ghost xv = x@;
                        acc.push(x);
                        proof {
                            assert(transparent_transfer_data_msg_views(acc@) =~= pre.push(xv));
                            match sp_read_transparent_transfer_data_msg_n(d@, p2 as int, (n - i - 1) as nat) {
                                Some((xs2, pe)) => {
                                    assert(pre + (seq![xv] + xs2) =~= pre.push(xv) + xs2);
                                },
                                None => {},
                            }
                        }
                        cur = p2;
                        i = i + 1;
                    },
                }
            }
            proof {
                assert(transparent_transfer_data_msg_views(acc@) + Seq::<TransparentTransferDataMsgV>::empty() =~= transparent_transfer_data_msg_views(acc@));
            }
            Some((acc, cur))
        },
    }
}

pub fn write_transparent_transfer_data_msg_vec(out: &mut Vec<u8>, v: &Vec<TransparentTransferDataMsg>)
    requires
        transparent_transfer_data_msg_seq_fits(transparent_transfer_data_msg_views(v@)),
    ensures
        final(out)@ == old(out)@ + enc_transparent_transfer_data_msg_seq(transparent_transfer_data_msg_views(v@)),
{
    let ghost views = transparent_transfer_data_msg_views(v@);
    assert(v@.len() == views.len());
    write_u32(out, v.len() as u32);
    let mut i: usize = 0;
    while i < v.len()
        invariant
            i <= v@.len(),
            views == transparent_transfer_data_msg_views(v@),
            transparent_transfer_data_msg_seq_fits(views),
            out@ == old(out)@ + enc_u32(views.len() as u32) + enc_transparent_transfer_data_msg_items(
                views.subrange(0, i as int),
            ),
        decreases v@.len() - i,
    {
        assert(views[i as int] == v@[i as int]@);
        write_transparent_transfer_data_msg(out, &v[i]);
        proof {
            assert(views.subrange(0, i + 1) =~= views.subrange(0, i as int).push(views[i as int]));
            lemma_enc_transparent_transfer_data_msg_items_push(views.subrange(0, i as int), views[i as int]);
        }
        i = i + 1;
    }
    proof {
        assert(views.subrange(0, views.len() as int) =~= views);
    }
}


#[derive(Debug)]
pub struct TransparentTransferMsg {
    pub data: Vec<TransparentTransferDataMsg>,
}

#[verifier::ext_equal]
pub struct TransparentTransferMsgV {
    pub data: Seq<TransparentTransferDataMsgV>,
}

impl View for TransparentTransferMsg {
    type V = TransparentTransferMsgV;

    open spec fn view(&self) -> TransparentTransferMsgV {
        TransparentTransferMsgV {
            data: transparent_transfer_data_msg_views(self.data@),
        }
    }
}

impl TransparentTransferMsg {
    pub fn new(data: Vec<TransparentTransferDataMsg>) -> (r: TransparentTransferMsg)
        ensures
            r@ == (TransparentTransferMsgV {
                data: transparent_transfer_data_msg_views(data@),
            }),
    {
        TransparentTransferMsg { data }
    }

    /// Decodes one whole payload; trailing bytes are a decode failure.
    pub fn try_from_slice(d: &[u8]) -> (r: Result<TransparentTransferMsg, ArgError>)
        ensures
            r is Ok <==> sp_transparent_transfer_msg(d@) is Some,
            r matches Ok(m) ==> sp_transparent_transfer_msg(d@) == Some(m@),
            r matches Err(e) ==> e == ArgError::DecodeError,
    {
        match read_transparent_transfer_msg(d, 0) {
            Some((m, p)) => {
                if p == d.len() {
                    Ok(m)
                } else {
                    Err(ArgError::DecodeError)
                }
            },
            None => Err(ArgError::DecodeError),
        }
    }

    pub fn to_bytes(&self) -> (r: Vec<u8>)
        requires
            transparent_transfer_msg_fits(self@),
        ensures
            r@ == enc_transparent_transfer_msg(self@),
    {
        let mut out: Vec<u8> = Vec::new();
        write_transparent_transfer_msg(&mut out, self);
        proof {
            assert(out@ =~= enc_transparent_transfer_msg(self@));
        }
        out
    }
}

pub open spec fn enc_transparent_transfer_msg(m: TransparentTransferMsgV) -> Seq<u8> {
    enc_transparent_transfer_data_msg_seq(m.data)
}

pub open spec fn transparent_transfer_msg_fits(m: TransparentTransferMsgV) -> bool {
    transparent_transfer_data_msg_seq_fits(m.data)
}

pub open spec fn sp_read_transparent_transfer_msg(d: Seq<u8>, pos: int) -> Option<(TransparentTransferMsgV, int)> {
    match sp_read_transparent_transfer_data_msg_seq(d, pos) {
        None => None,
        Some((x_data, pos1)) => {
            Some(
                (TransparentTransferMsgV { data: x_data }, pos1),
            )
        },
    }
}

pub open spec fn sp_transparent_transfer_msg(d: Seq<u8>) -> Option<TransparentTransferMsgV> {
    match sp_read_transparent_transfer_msg(d, 0) {
        Some((m, p)) => if p == d.len() {
            Some(m)
        } else {
            None
        },
        None => None,
    }
}

#[verifier::rlimit(80)]
pub proof fn lemma_read_enc_transparent_transfer_msg(d: Seq<u8>, pos: int, m: TransparentTransferMsgV)
    requires
        0 <= pos,
        transparent_transfer_msg_fits(m),
        pos + enc_transparent_transfer_msg(m).len() <= d.len(),
        d.subrange(pos, pos + enc_transparent_transfer_msg(m).len()) == enc_transparent_transfer_msg(m),
    ensures
        sp_read_transparent_transfer_msg(d, pos) == Some((m, pos + enc_transparent_transfer_msg(m).len())),
{
    let e1 = enc_transparent_transfer_data_msg_seq(m.data);
    let p0 = pos;
    let p1 = p0 + e1.len();
    lemma_read_enc_transparent_transfer_data_msg_seq(d, p0, m.data);
    assert((TransparentTransferMsgV { data: m.data }) =~= m);
}

/// Decoding an encoded `TransparentTransferMsg` yields the message back, exactly.
#[verifier::rlimit(80)]
pub proof fn lemma_transparent_transfer_msg_round_trip(m: TransparentTransferMsgV)
    requires
        transparent_transfer_msg_fits(m),
    ensures
        sp_transparent_transfer_msg(enc_transparent_transfer_msg(m)) == Some(m),
{
    let d = enc_transparent_transfer_msg(m);
    assert(d.subrange(0, d.len() as int) =~= d);
    lemma_read_enc_transparent_transfer_msg(d, 0, m);
}

pub fn read_transparent_transfer_msg(d: &[u8], pos: usize) -> (r: Option<(TransparentTransferMsg, usize)>)
    requires
        pos <= d@.len(),
    ensures
        match r {
            Some((m, p)) => sp_read_transparent_transfer_msg(d@, pos as int) == Some((m@, p as int)) && p
                <= d@.len(),
            None => sp_read_transparent_transfer_msg(d@, pos as int) is None,
        },
{
    let (x_data, pos1) = match read_transparent_transfer_data_msg_vec(d, pos) {
        Some(x) => x,
        None => {
            return None;
        },
    };
    Some((TransparentTransferMsg { data: x_data }, pos1))
}

#[verifier::rlimit(80)]
pub fn write_transparent_transfer_msg(out: &mut Vec<u8>, m: &TransparentTransferMsg)
    requires
        transparent_transfer_msg_fits(m@),
    ensures
        final(out)@ == old(out)@ + enc_transparent_transfer_msg(m@),
{
    write_transparent_transfer_data_msg_vec(out, &m.data);
    proof {
        assert(out@ =~= old(out)@ + (enc_transparent_transfer_data_msg_seq(m@.data)));
    }
}

#[derive(Debug)]
pub struct ShieldedTransferDataMsg {
    pub source: Vec<u8>,
    pub target: String,
    pub token: String,
    pub amount: String,
}

#[verifier::ext_equal]
pub struct ShieldedTransferDataMsgV {
    pub source: Seq<u8>,
    pub target: Seq<char>,
    pub token: Seq<char>,
    pub amount: Seq<char>,
}

impl View for ShieldedTransferDataMsg {
    type V = ShieldedTransferDataMsgV;

    open spec fn view(&self) -> ShieldedTransferDataMsgV {
        ShieldedTransferDataMsgV {
            source: self.source@,
            target: self.target@,
            token: self.token@,
            amount: self.amount@,
        }
    }
}

impl ShieldedTransferDataMsg {
    pub fn new(source: Vec<u8>, target: String, token: String, amount: String) -> (r: ShieldedTransferDataMsg)
        ensures
            r@ == (ShieldedTransferDataMsgV {
                source: source@,
                target: target@,
                token: token@,
                amount: amount@,
            }),
    {
        ShieldedTransferDataMsg { source, target, token, amount }
    }

    /// Decodes one whole payload; trailing bytes are a decode failure.
    pub fn try_from_slice(d: &[u8]) -> (r: Result<ShieldedTransferDataMsg, ArgError>)
        ensures
            r is Ok <==> sp_shielded_transfer_data_msg(d@) is Some,
            r matches Ok(m) ==> sp_shielded_transfer_data_msg(d@) == Some(m@),
            r matches Err(e) ==> e == ArgError::DecodeError,
    {
        match read_shielded_transfer_data_msg(d, 0) {
            Some((m, p)) => {
                if p == d.len() {
                    Ok(m)
                } else {
                    Err(ArgError::DecodeError)
                }
            },
            None => Err(ArgError::DecodeError),
        }
    }

    pub fn to_bytes(&self) -> (r: Vec<u8>)
        requires
            shielded_transfer_data_msg_fits(self@),
        ensures
            r@ == enc_shielded_transfer_data_msg(self@),
    {
        let mut out: Vec<u8> = Vec::new();
        write_shielded_transfer_data_msg(&mut out, self);
        proof {
            assert(out@ =~= enc_shielded_transfer_data_msg(self@));
        }
        out
    }
}

pub open spec fn enc_shielded_transfer_data_msg(m: ShieldedTransferDataMsgV) -> Seq<u8> {
    enc_bytes(m.source) + enc_string(m.target) + enc_string(m.token) + enc_string(m.amount)
}

pub open spec fn shielded_transfer_data_msg_fits(m: ShieldedTransferDataMsgV) -> bool {
    fits_u32(m.source.len()) && fits_u32(encode_utf8(m.target).len()) && fits_u32(encode_utf8(m.token).len()) && fits_u32(encode_utf8(m.amount).len())
}

pub open spec fn sp_read_shielded_transfer_data_msg(d: Seq<u8>, pos: int) -> Option<(ShieldedTransferDataMsgV, int)> {
    match sp_read_bytes(d, pos) {
        None => None,
        Some((x_source, pos1)) => {
            match sp_read_string(d, pos1) {
                None => None,
                Some((x_target, pos2)) => {
                    match sp_read_string(d, pos2) {
                        None => None,
                        Some((x_token, pos3)) => {
                            match sp_read_string(d, pos3) {
                                None => None,
                                Some((x_amount, pos4)) => {
                                    Some(
                                        (ShieldedTransferDataMsgV { source: x_source, target: x_target, token: x_token, amount: x_amount }, pos4),
                                    )
                                },
                            }
                        },
                    }
                },
            }
        },
    }
}

pub open spec fn sp_shielded_transfer_data_msg(d: Seq<u8>) -> Option<ShieldedTransferDataMsgV> {
    match sp_read_shielded_transfer_data_msg(d, 0) {
        Some((m, p)) => if p == d.len() {
            Some(m)
        } else {
            None
        },
        None => None,
    }
}

#[verifier::rlimit(80)]
pub proof fn lemma_read_enc_shielded_transfer_data_msg(d: Seq<u8>, pos: int, m: ShieldedTransferDataMsgV)
    requires
        0 <= pos,
        shielded_transfer_data_msg_fits(m),
        pos + enc_shielded_transfer_data_msg(m).len() <= d.len(),
        d.subrange(pos, pos + enc_shielded_transfer_data_msg(m).len()) == enc_shielded_transfer_data_msg(m),
    ensures
        sp_read_shielded_transfer_data_msg(d, pos) == Some((m, pos + enc_shielded_transfer_data_msg(m).len())),
{
    let e1 = enc_bytes(m.source);
    let e2 = enc_string(m.target);
    let e3 = enc_string(m.token);
    let e4 = enc_string(m.amount);
    let p0 = pos;
    let p1 = p0 + e1.len();
    let p2 = p1 + e2.len();
    let p3 = p2 + e3.len();
    let p4 = p3 + e4.len();
    assert(d.subrange(p3, p4) =~= e4) by {
        assert forall|j: int| 0 <= j < e4.len() implies d.subrange(p3, p4)[j] == e4[j] by {
            assert(d.subrange(p0, p4)[p3 - p0 + j] == ((e1 + e2 + e3) + e4)[p3 - p0 + j]);
        }
    }
    assert(d.subrange(p0, p3) =~= (e1 + e2 + e3)) by {
        assert forall|j: int| 0 <= j < p3 - p0 implies d.subrange(p0, p3)[j] == (e1 + e2 + e3)[j] by {
            assert(d.subrange(p0, p4)[j] == ((e1 + e2 + e3) + e4)[j]);
        }
    }
    assert(d.subrange(p2, p3) =~= e3) by {
        assert forall|j: int| 0 <= j < e3.len() implies d.subrange(p2, p3)[j] == e3[j] by {
            assert(d.subrange(p0, p3)[p2 - p0 + j] == ((e1 + e2) + e3)[p2 - p0 + j]);
        }
    }
    assert(d.subrange(p0, p2) =~= (e1 + e2)) by {
        assert forall|j: int| 0 <= j < p2 - p0 implies d.subrange(p0, p2)[j] == (e1 + e2)[j] by {
            assert(d.subrange(p0, p3)[j] == ((e1 + e2) + e3)[j]);
        }
    }
    assert(d.subrange(p1, p2) =~= e2) by {
        assert forall|j: int| 0 <= j < e2.len() implies d.subrange(p1, p2)[j] == e2[j] by {
            assert(d.subrange(p0, p2)[p1 - p0 + j] == ((e1) + e2)[p1 - p0 + j]);
        }
    }
    assert(d.subrange(p0, p1) =~= (e1)) by {
        assert forall|j: int| 0 <= j < p1 - p0 implies d.subrange(p0, p1)[j] == (e1)[j] by {
            assert(d.subrange(p0, p2)[j] == ((e1) + e2)[j]);
        }
    }
    lemma_read_enc_bytes(d, p0, m.source);
    lemma_read_enc_string(d, p1, m.target);
    lemma_read_enc_string(d, p2, m.token);
    lemma_read_enc_string(d, p3, m.amount);
    assert((ShieldedTransferDataMsgV { source: m.source, target: m.target, token: m.token, amount: m.amount }) =~= m);
}

/// Decoding an encoded `ShieldedTransferDataMsg` yields the message back, exactly.
#[verifier::rlimit(80)]
pub proof fn lemma_shielded_transfer_data_msg_round_trip(m: ShieldedTransferDataMsgV)
    requires
        shielded_transfer_data_msg_fits(m),
    ensures
        sp_shielded_transfer_data_msg(enc_shielded_transfer_data_msg(m)) == Some(m),
{
    let d = enc_shielded_transfer_data_msg(m);
    assert(d.subrange(0, d.len() as int) =~= d);
    lemma_read_enc_shielded_transfer_data_msg(d, 0, m);
}

pub fn read_shielded_transfer_data_msg(d: &[u8], pos: usize) -> (r: Option<(ShieldedTransferDataMsg, usize)>)
    requires
        pos <= d@.len(),
    ensures
        match r {
            Some((m, p)) => sp_read_shielded_transfer_data_msg(d@, pos as int) == Some((m@, p as int)) && p
                <= d@.len(),
            None => sp_read_shielded_transfer_data_msg(d@, pos as int) is None,
        },
{
    let (x_source, pos1) = match read_byte_string(d, pos) {
        Some(x) => x,
        None => {
            return None;
        },
    };
    let (x_target, pos2) = match read_text(d, pos1) {
        Some(x) => x,
        None => {
            return None;
        },
    };
    let (x_token, pos3) = match read_text(d, pos2) {
        Some(x) => x,
        None => {
            return None;
        },
    };
    let (x_amount, pos4) = match read_text(d, pos3) {
        Some(x) => x,
        None => {
            return None;
        },
    };
    Some((ShieldedTransferDataMsg { source: x_source, target: x_target, token: x_token, amount: x_amount }, pos4))
}

#[verifier::rlimit(80)]
pub fn write_shielded_transfer_data_msg(out: &mut Vec<u8>, m: &ShieldedTransferDataMsg)
    requires
        shielded_transfer_data_msg_fits(m@),
    ensures
        final(out)@ == old(out)@ + enc_shielded_transfer_data_msg(m@),
{
    write_byte_string(out, &m.source);
    proof {
        assert(out@ =~= old(out)@ + (enc_bytes(m@.source)));
    }
    write_text(out, m.target.as_str());
    proof {
        assert(out@ =~= old(out)@ + (enc_bytes(m@.source) + enc_string(m@.target)));
    }
    write_text(out, m.token.as_str());
    proof {
        assert(out@ =~= old(out)@ + (enc_bytes(m@.source) + enc_string(m@.target) + enc_string(m@.token)));
    }
    write_text(out, m.amount.as_str());
    proof {
        assert(out@ =~= old(out)@ + (enc_bytes(m@.source) + enc_string(m@.target) + enc_string(m@.token) + enc_string(m@.amount)));
    }
}

pub open spec fn shielded_transfer_data_msg_views(s: Seq<ShieldedTransferDataMsg>) -> Seq<ShieldedTransferDataMsgV> {
    s.map_values(|x: ShieldedTransferDataMsg| x@)
}

pub open spec fn enc_shielded_transfer_data_msg_items(xs: Seq<ShieldedTransferDataMsgV>) -> Seq<u8>
    decreases xs.len(),
{
    if xs.len() == 0 {
        Seq::empty()
    } else {
        enc_shielded_transfer_data_msg(xs[0]) + enc_shielded_transfer_data_msg_items(xs.drop_first())
    }
}

pub open spec fn enc_shielded_transfer_data_msg_seq(xs: Seq<ShieldedTransferDataMsgV>) -> Seq<u8> {
    enc_u32(xs.len() as u32) + enc_shielded_transfer_data_msg_items(xs)
}

pub open spec fn shielded_transfer_data_msg_seq_fits(xs: Seq<ShieldedTransferDataMsgV>) -> bool {
    fits_u32(xs.len()) && (forall|i: int| 0 <= i < xs.len() ==> #[trigger] shielded_transfer_data_msg_fits(xs[i]))
}

pub open spec fn sp_read_shielded_transfer_data_msg_n(d: Seq<u8>, pos: int, n: nat) -> Option<(Seq<ShieldedTransferDataMsgV>, int)>
    decreases n,
{
    if n == 0 {
        Some((Seq::empty(), pos))
    } else {
        match sp_read_shielded_transfer_data_msg(d, pos) {
            Some((x, p)) => match sp_read_shielded_transfer_data_msg_n(d, p, (n - 1) as nat) {
                Some((xs, p2)) => Some((seq![x] + xs, p2)),
                None => None,
            },
            None => None,
        }
    }
}

pub open spec fn sp_read_shielded_transfer_data_msg_seq(d: Seq<u8>, pos: int) -> Option<(Seq<ShieldedTransferDataMsgV>, int)> {
    match sp_read_u32(d, pos) {
        Some((n, p)) => sp_read_shielded_transfer_data_msg_n(d, p, n as nat),
        None => None,
    }
}

pub proof fn lemma_enc_shielded_transfer_data_msg_items_push(xs: Seq<ShieldedTransferDataMsgV>, x: ShieldedTransferDataMsgV)
    ensures
        enc_shielded_transfer_data_msg_items(xs.push(x)) == enc_shielded_transfer_data_msg_items(xs) + enc_shielded_transfer_data_msg(x),
    decreases xs.len(),
{
    let s1 = xs.push(x);
    if xs.len() == 0 {
        assert(s1[0] == x);
        assert(s1.drop_first() =~= Seq::<ShieldedTransferDataMsgV>::empty());
        assert(enc_shielded_transfer_data_msg_items(s1.drop_first()) == Seq::<u8>::empty());
        assert(enc_shielded_transfer_data_msg_items(s1) == enc_shielded_transfer_data_msg(s1[0]) + enc_shielded_transfer_data_msg_items(s1.drop_first()));
        assert(enc_shielded_transfer_data_msg_items(xs) == Seq::<u8>::empty());
        assert(enc_shielded_transfer_data_msg_items(s1) =~= enc_shielded_transfer_data_msg_items(xs) + enc_shielded_transfer_data_msg(x));
    } else {
        assert(s1[0] == xs[0]);
        assert(s1.drop_first() =~= xs.drop_first().push(x));
        lemma_enc_shielded_transfer_data_msg_items_push(xs.drop_first(), x);
        assert(enc_shielded_transfer_data_msg_items(s1) == enc_shielded_transfer_data_msg(s1[0]) + enc_shielded_transfer_data_msg_items(s1.drop_first()));
        assert(enc_shielded_transfer_data_msg_items(s1) =~= enc_shielded_transfer_data_msg_items(xs) + enc_shielded_transfer_data_msg(x));
    }
}

#[verifier::rlimit(100)]
#[verifier::spinoff_prover]
pub proof fn lemma_read_enc_shielded_transfer_data_msg_items(d: Seq<u8>, pos: int, xs: Seq<ShieldedTransferDataMsgV>)
    requires
        0 <= pos,
        forall|i: int| 0 <= i < xs.len() ==> #[trigger] shielded_transfer_data_msg_fits(xs[i]),
        pos + enc_shielded_transfer_data_msg_items(xs).len() <= d.len(),
        d.subrange(pos, pos + enc_shielded_transfer_data_msg_items(xs).len()) == enc_shielded_transfer_data_msg_items(xs),
    ensures
        sp_read_shielded_transfer_data_msg_n(d, pos, xs.len()) == Some((xs, pos + enc_shielded_transfer_data_msg_items(xs).len())),
    decreases xs.len(),
{
    if xs.len() == 0 {
        assert(xs =~= Seq::<ShieldedTransferDataMsgV>::empty());
    } else {
        let all = enc_shielded_transfer_data_msg_items(xs);
        let e0 = enc_shielded_transfer_data_msg(xs[0]);
        let rest = enc_shielded_transfer_data_msg_items(xs.drop_first());
        assert(d.subrange(pos, pos + e0.len()) =~= e0) by {
            assert forall|j: int| 0 <= j < e0.len() implies d.subrange(pos, pos + e0.len() as int)[j]
                == e0[j] by {
                assert(d.subrange(pos, pos + all.len() as int)[j] == all[j]);
            }
        }
        lemma_read_enc_shielded_transfer_data_msg(d, pos, xs[0]);
        assert(d.subrange(pos + e0.len(), pos + e0.len() + rest.len()) =~= rest) by {
            assert forall|j: int| 0 <= j < rest.len() implies d.subrange(
                pos + e0.len() as int,
                pos + e0.len() + rest.len(),
            )[j] == rest[j] by {
                assert(d.subrange(pos, pos + all.len() as int)[e0.len() + j] == all[e0.len() + j]);
            }
        }
        lemma_read_enc_shielded_transfer_data_msg_items(d, pos + e0.len() as int, xs.drop_first());
        assert(seq![xs[0]] + xs.drop_first() =~= xs);
    }
}

#[verifier::rlimit(80)]
pub proof fn lemma_read_enc_shielded_transfer_data_msg_seq(d: Seq<u8>, pos: int, xs: Seq<ShieldedTransferDataMsgV>)
    requires
        0 <= pos,
        shielded_transfer_data_msg_seq_fits(xs),
        pos + enc_shielded_transfer_data_msg_seq(xs).len() <= d.len(),
        d.subrange(pos, pos + enc_shielded_transfer_data_msg_seq(xs).len()) == enc_shielded_transfer_data_msg_seq(xs),
    ensures
        sp_read_shielded_transfer_data_msg_seq(d, pos) == Some((xs, pos + enc_shielded_transfer_data_msg_seq(xs).len())),
{
    let all = enc_shielded_transfer_data_msg_seq(xs);
    let n = xs.len() as u32;
    let items = enc_shielded_transfer_data_msg_items(xs);
    assert(d.subrange(pos, pos + 4) =~= enc_u32(n)) by {
        assert forall|j: int| 0 <= j < 4 implies d.subrange(pos, pos + 4)[j] == enc_u32(n)[j] by {
            assert(d.subrange(pos, pos + all.len() as int)[j] == all[j]);
        }
    }
    lemma_read_enc_u32(d, pos, n);
    assert(d.subrange(pos + 4, pos + 4 + items.len()) =~= items) by {
        assert forall|j: int| 0 <= j < items.len() implies d.subrange(
            pos + 4,
            pos + 4 + items.len(),
        )[j] == items[j] by {
            assert(d.subrange(pos, pos + all.len() as int)[4 + j] == all[4 + j]);
        }
    }
    lemma_read_enc_shielded_transfer_data_msg_items(d, pos + 4, xs);
}

pub fn read_shielded_transfer_data_msg_vec(d: &[u8], pos: usize) -> (r: Option<(Vec<ShieldedTransferDataMsg>, usize)>)
    requires
        pos <= d@.len(),
    ensures
        match r {
            Some((v, p)) => sp_read_shielded_transfer_data_msg_seq(d@, pos as int) == Some((shielded_transfer_data_msg_views(v@), p as int)) && p
                <= d@.len(),
            None => sp_read_shielded_transfer_data_msg_seq(d@, pos as int) is None,
        },
{
    match read_u32(d, pos) {
        None => None,
        Some((n, p0)) => {
            let mut acc: Vec<ShieldedTransferDataMsg> = Vec::new();
            let mut cur: usize = p0;
            let mut i: u32 = 0;
            while i < n
                invariant
                    i <= n,
                    pos <= d@.len(),
                    cur <= d@.len(),
                    acc@.len() == i,
                    sp_read_u32(d@, pos as int) == Some((n, p0 as int)),
                    match sp_read_shielded_transfer_data_msg_n(d@, cur as int, (n - i) as nat) {
                        Some((xs, pe)) => sp_read_shielded_transfer_data_msg_n(d@, p0 as int, n as nat) == Some(
                            (shielded_transfer_data_msg_views(acc@) + xs, pe),
                        ),
                        None => sp_read_shielded_transfer_data_msg_n(d@, p0 as int, n as nat) is None,
                    },
                decreases n - i,
            {
                match read_shielded_transfer_data_msg(d, cur) {
                    None => {
                        return None;
                    },
                    Some((x, p2)) => {
                        let ghost pre = shielded_transfer_data_msg_views(acc@);
                        let ghost xv = x@;
                        acc.push(x);
                        proof {
                            assert(shielded_transfer_data_msg_views(acc@) =~= pre.push(xv));
                            match sp_read_shielded_transfer_data_msg_n(d@, p2 as int, (n - i - 1) as nat) {
                                Some((xs2, pe)) => {
                                    assert(pre + (seq![xv] + xs2) =~= pre.push(xv) + xs2);
                                },
                                None => {},
                            }
                        }
                        cur = p2;
                        i = i + 1;
                    },
                }
            }
            proof {
                assert(shielded_transfer_data_msg_views(acc@) + Seq::<ShieldedTransferDataMsgV>::empty() =~= shielded_transfer_data_msg_views(acc@));
            }
            Some((acc, cur))
        },
    }
}

pub fn write_shielded_transfer_data_msg_vec(out: &mut Vec<u8>, v: &Vec<ShieldedTransferDataMsg>)
    requires
        shielded_transfer_data_msg_seq_fits(shielded_transfer_data_msg_views(v@)),
    ensures
        final(out)@ == old(out)@ + enc_shielded_transfer_data_msg_seq(shielded_transfer_data_msg_views(v@)),
{
    let ghost views = shielded_transfer_data_msg_views(v@);
    assert(v@.len() == views.len());
    write_u32(out, v.len() as u32);
    let mut i: usize = 0;
    while i < v.len()
        invariant
            i <= v@.len(),
            views == shielded_transfer_data_msg_views(v@),
            shielded_transfer_data_msg_seq_fits(views),
            out@ == old(out)@ + enc_u32(views.len() as u32) + enc_shielded_transfer_data_msg_items(
                views.subrange(0, i as int),
            ),
        decreases v@.len() - i,
    {
        assert(views[i as int] == v@[i as int]@);
        write_shielded_transfer_data_msg(out, &v[i]);
        proof {
            assert(views.subrange(0, i + 1) =~= views.subrange(0, i as int).push(views[i as int]));
            lemma_enc_shielded_transfer_data_msg_items_push(views.subrange(0, i as int), views[i as int]);
        }
        i = i + 1;
    }
    proof {
        assert(views.subrange(0, views.len() as int) =~= views);
    }
}


#[derive(Debug)]
pub struct ShieldedTransferMsg {
    pub data: Vec<ShieldedTransferDataMsg>,
    pub gas_spending_keys: Vec<Vec<u8>>,
}

#[verifier::ext_equal]
pub struct ShieldedTransferMsgV {
    pub data: Seq<ShieldedTransferDataMsgV>,
    pub gas_spending_keys: Seq<Seq<u8>>,
}

impl View for ShieldedTransferMsg {
    type V = ShieldedTransferMsgV;

    open spec fn view(&self) -> ShieldedTransferMsgV {
        ShieldedTransferMsgV {
            data: shielded_transfer_data_msg_views(self.data@),
            gas_spending_keys: byte_string_views(self.gas_spending_keys@),
        }
    }
}

impl ShieldedTransferMsg {
    pub fn new(data: Vec<ShieldedTransferDataMsg>, gas_spending_keys: Vec<Vec<u8>>) -> (r: ShieldedTransferMsg)
        ensures
            r@ == (ShieldedTransferMsgV {
                data: shielded_transfer_data_msg_views(data@),
                gas_spending_keys: byte_string_views(gas_spending_keys@),
            }),
    {
        ShieldedTransferMsg { data, gas_spending_keys }
    }

    /// Decodes one whole payload; trailing bytes are a decode failure.
    pub fn try_from_slice(d: &[u8]) -> (r: Result<ShieldedTransferMsg, ArgError>)
        ensures
            r is Ok <==> sp_shielded_transfer_msg(d@) is Some,
            r matches Ok(m) ==> sp_shielded_transfer_msg(d@) == Some(m@),
            r matches Err(e) ==> e == ArgError::DecodeError,
    {
        match read_shielded_transfer_msg(d, 0) {
            Some((m, p)) => {
                if p == d.len() {
                    Ok(m)
                } else {
                    Err(ArgError::DecodeError)
                }
            },
            None => Err(ArgError::DecodeError),
        }
    }

    pub fn to_bytes(&self) -> (r: Vec<u8>)
        requires
            shielded_transfer_msg_fits(self@),
        ensures
            r@ == enc_shielded_transfer_msg(self@),
    {
        let mut out: Vec<u8> = Vec::new();
        write_shielded_transfer_msg(&mut out, self);
        proof {
            assert(out@ =~= enc_shielded_transfer_msg(self@));
        }
        out
    }
}

pub open spec fn enc_shielded_transfer_msg(m: ShieldedTransferMsgV) -> Seq<u8> {
    enc_shielded_transfer_data_msg_seq(m.data) + enc_byte_string_seq(m.gas_spending_keys)
}

pub open spec fn shielded_transfer_msg_fits(m: ShieldedTransferMsgV) -> bool {
    shielded_transfer_data_msg_seq_fits(m.data) && byte_string_seq_fits(m.gas_spending_keys)
}

pub open spec fn sp_read_shielded_transfer_msg(d: Seq<u8>, pos: int) -> Option<(ShieldedTransferMsgV, int)> {
    match sp_read_shielded_transfer_data_msg_seq(d, pos) {
        None => None,
        Some((x_data, pos1)) => {
            match sp_read_byte_string_seq(d, pos1) {
                None => None,
                Some((x_gas_spending_keys, pos2)) => {
                    Some(
                        (ShieldedTransferMsgV { data: x_data, gas_spending_keys: x_gas_spending_keys }, pos2),
                    )
                },
            }
        },
    }
}

pub open spec fn sp_shielded_transfer_msg(d: Seq<u8>) -> Option<ShieldedTransferMsgV> {
    match sp_read_shielded_transfer_msg(d, 0) {
        Some((m, p)) => if p == d.len() {
            Some(m)
        } else {
            None
        },
        None => None,
    }
}

#[verifier::rlimit(80)]
pub proof fn lemma_read_enc_shielded_transfer_msg(d: Seq<u8>, pos: int, m: ShieldedTransferMsgV)
    requires
        0 <= pos,
        shielded_transfer_msg_fits(m),
        pos + enc_shielded_transfer_msg(m).len() <= d.len(),
        d.subrange(pos, pos + enc_shielded_transfer_msg(m).len()) == enc_shielded_transfer_msg(m),
    ensures
        sp_read_shielded_transfer_msg(d, pos) == Some((m, pos + enc_shielded_transfer_msg(m).len())),
{
    let e1 = enc_shielded_transfer_data_msg_seq(m.data);
    let e2 = enc_byte_string_seq(m.gas_spending_keys);
    let p0 = pos;
    let p1 = p0 + e1.len();
    let p2 = p1 + e2.len();
    assert(d.subrange(p1, p2) =~= e2) by {
        assert forall|j: int| 0 <= j < e2.len() implies d.subrange(p1, p2)[j] == e2[j] by {
            assert(d.subrange(p0, p2)[p1 - p0 + j] == ((e1) + e2)[p1 - p0 + j]);
        }
    }
    assert(d.subrange(p0, p1) =~= (e1)) by {
        assert forall|j: int| 0 <= j < p1 - p0 implies d.subrange(p0, p1)[j] == (e1)[j] by {
            assert(d.subrange(p0, p2)[j] == ((e1) + e2)[j]);
        }
    }
    lemma_read_enc_shielded_transfer_data_msg_seq(d, p0, m.data);
    lemma_read_enc_byte_string_seq(d, p1, m.gas_spending_keys);
    assert((ShieldedTransferMsgV { data: m.data, gas_spending_keys: m.gas_spending_keys }) =~= m);
}

/// Decoding an encoded `ShieldedTransferMsg` yields the message back, exactly.
#[verifier::rlimit(80)]
pub proof fn lemma_shielded_transfer_msg_round_trip(m: ShieldedTransferMsgV)
    requires
        shielded_transfer_msg_fits(m),
    ensures
        sp_shielded_transfer_msg(enc_shielded_transfer_msg(m)) == Some(m),
{
    let d = enc_shielded_transfer_msg(m);
    assert(d.subrange(0, d.len() as int) =~= d);
    lemma_read_enc_shielded_transfer_msg(d, 0, m);
}

pub fn read_shielded_transfer_msg(d: &[u8], pos: usize) -> (r: Option<(ShieldedTransferMsg, usize)>)
    requires
        pos <= d@.len(),
    ensures
        match r {
            Some((m, p)) => sp_read_shielded_transfer_msg(d@, pos as int) == Some((m@, p as int)) && p
                <= d@.len(),
            None => sp_read_shielded_transfer_msg(d@, pos as int) is None,
        },
{
    let (x_data, pos1) = match read_shielded_transfer_data_msg_vec(d, pos) {
        Some(x) => x,
        None => {
            return None;
        },
    };
    let (x_gas_spending_keys, pos2) = match read_byte_string_vec(d, pos1) {
        Some(x) => x,
        None => {
            return None;
        },
    };
    Some((ShieldedTransferMsg { data: x_data, gas_spending_keys: x_gas_spending_keys }, pos2))
}

#[verifier::rlimit(80)]
pub fn write_shielded_transfer_msg(out: &mut Vec<u8>, m: &ShieldedTransferMsg)
    requires
        shielded_transfer_msg_fits(m@),
    ensures
        final(out)@ == old(out)@ + enc_shielded_transfer_msg(m@),
{
    write_shielded_transfer_data_msg_vec(out, &m.data);
    proof {
        assert(out@ =~= old(out)@ + (enc_shielded_transfer_data_msg_seq(m@.data)));
    }
    write_byte_string_vec(out, &m.gas_spending_keys);
    proof {
        assert(out@ =~= old(out)@ + (enc_shielded_transfer_data_msg_seq(m@.data) + enc_byte_string_seq(m@.gas_spending_keys)));
    }
}

#[derive(Debug)]
pub struct ShieldingTransferDataMsg {
    pub source: String,
    pub token: String,
    pub amount: String,
}

#[verifier::ext_equal]
pub struct ShieldingTransferDataMsgV {
    pub source: Seq<char>,
    pub token: Seq<char>,
    pub amount: Seq<char>,
}

impl View for ShieldingTransferDataMsg {
    type V = ShieldingTransferDataMsgV;

    open spec fn view(&self) -> ShieldingTransferDataMsgV {
        ShieldingTransferDataMsgV {
            source: self.source@,
            token: self.token@,
            amount: self.amount@,
        }
    }
}

impl ShieldingTransferDataMsg {
    pub fn new(source: String, token: String, amount: String) -> (r: ShieldingTransferDataMsg)
        ensures
            r@ == (ShieldingTransferDataMsgV {
                source: source@,
                token: token@,
                amount: amount@,
            }),
    {
        ShieldingTransferDataMsg { source, token, amount }
    }

    /// Decodes one whole payload; trailing bytes are a decode failure.
    pub fn try_from_slice(d: &[u8]) -> (r: Result<ShieldingTransferDataMsg, ArgError>)
        ensures
            r is Ok <==> sp_shielding_transfer_data_msg(d@) is Some,
            r matches Ok(m) ==> sp_shielding_transfer_data_msg(d@) == Some(m@),
            r matches Err(e) ==> e == ArgError::DecodeError,
    {
        match read_shielding_transfer_data_msg(d, 0) {
            Some((m, p)) => {
                if p == d.len() {
                    Ok(m)
                } else {
                    Err(ArgError::DecodeError)
                }
            },
            None => Err(ArgError::DecodeError),
        }
    }

    pub fn to_bytes(&self) -> (r: Vec<u8>)
        requires
            shielding_transfer_data_msg_fits(self@),
        ensures
            r@ == enc_shielding_transfer_data_msg(self@),
    {
        let mut out: Vec<u8> = Vec::new();
        write_shielding_transfer_data_msg(&mut out, self);
        proof {
            assert(out@ =~= enc_shielding_transfer_data_msg(self@));
        }
        out
    }
}

pub open spec fn enc_shielding_transfer_data_msg(m: ShieldingTransferDataMsgV) -> Seq<u8> {
    enc_string(m.source) + enc_string(m.token) + enc_string(m.amount)
}

pub open spec fn shielding_transfer_data_msg_fits(m: ShieldingTransferDataMsgV) -> bool {
    fits_u32(encode_utf8(m.source).len()) && fits_u32(encode_utf8(m.token).len()) && fits_u32(encode_utf8(m.amount).len())
}

pub open spec fn sp_read_shielding_transfer_data_msg(d: Seq<u8>, pos: int) -> Option<(ShieldingTransferDataMsgV, int)> {
    match sp_read_string(d, pos) {
        None => None,
        Some((x_source, pos1)) => {
            match sp_read_string(d, pos1) {
                None => None,
                Some((x_token, pos2)) => {
                    match sp_read_string(d, pos2) {
                        None => None,
                        Some((x_amount, pos3)) => {
                            Some(
                                (ShieldingTransferDataMsgV { source: x_source, token: x_token, amount: x_amount }, pos3),
                            )
                        },
                    }
                },
            }
        },
    }
}

pub open spec fn sp_shielding_transfer_data_msg(d: Seq<u8>) -> Option<ShieldingTransferDataMsgV> {
    match sp_read_shielding_transfer_data_msg(d, 0) {
        Some((m, p)) => if p == d.len() {
            Some(m)
        } else {
            None
        },
        None => None,
    }
}

#[verifier::rlimit(80)]
pub proof fn lemma_read_enc_shielding_transfer_data_msg(d: Seq<u8>, pos: int, m: ShieldingTransferDataMsgV)
    requires
        0 <= pos,
        shielding_transfer_data_msg_fits(m),
        pos + enc_shielding_transfer_data_msg(m).len() <= d.len(),
        d.subrange(pos, pos + enc_shielding_transfer_data_msg(m).len()) == enc_shielding_transfer_data_msg(m),
    ensures
        sp_read_shielding_transfer_data_msg(d, pos) == Some((m, pos + enc_shielding_transfer_data_msg(m).len())),
{
    let e1 = enc_string(m.source);
    let e2 = enc_string(m.token);
    let e3 = enc_string(m.amount);
    let p0 = pos;
    let p1 = p0 + e1.len();
    let p2 = p1 + e2.len();
    let p3 = p2 + e3.len();
    assert(d.subrange(p2, p3) =~= e3) by {
        assert forall|j: int| 0 <= j < e3.len() implies d.subrange(p2, p3)[j] == e3[j] by {
            assert(d.subrange(p0, p3)[p2 - p0 + j] == ((e1 + e2) + e3)[p2 - p0 + j]);
        }
    }
    assert(d.subrange(p0, p2) =~= (e1 + e2)) by {
        assert forall|j: int| 0 <= j < p2 - p0 implies d.subrange(p0, p2)[j] == (e1 + e2)[j] by {
            assert(d.subrange(p0, p3)[j] == ((e1 + e2) + e3)[j]);
        }
    }
    assert(d.subrange(p1, p2) =~= e2) by {
        assert forall|j: int| 0 <= j < e2.len() implies d.subrange(p1, p2)[j] == e2[j] by {
            assert(d.subrange(p0, p2)[p1 - p0 + j] == ((e1) + e2)[p1 - p0 + j]);
        }
    }
    assert(d.subrange(p0, p1) =~= (e1)) by {
        assert forall|j: int| 0 <= j < p1 - p0 implies d.subrange(p0, p1)[j] == (e1)[j] by {
            assert(d.subrange(p0, p2)[j] == ((e1) + e2)[j]);
        }
    }
    lemma_read_enc_string(d, p0, m.source);
    lemma_read_enc_string(d, p1, m.token);
    lemma_read_enc_string(d, p2, m.amount);
    assert((ShieldingTransferDataMsgV { source: m.source, token: m.token, amount: m.amount }) =~= m);
}

/// Decoding an encoded `ShieldingTransferDataMsg` yields the message back, exactly.
#[verifier::rlimit(80)]
pub proof fn lemma_shielding_transfer_data_msg_round_trip(m: ShieldingTransferDataMsgV)
    requires
        shielding_transfer_data_msg_fits(m),
    ensures
        sp_shielding_transfer_data_msg(enc_shielding_transfer_data_msg(m)) == Some(m),
{
    let d = enc_shielding_transfer_data_msg(m);
    assert(d.subrange(0, d.len() as int) =~= d);
    lemma_read_enc_shielding_transfer_data_msg(d, 0, m);
}

pub fn read_shielding_transfer_data_msg(d: &[u8], pos: usize) -> (r: Option<(ShieldingTransferDataMsg, usize)>)
    requires
        pos <= d@.len(),
    ensures
        match r {
            Some((m, p)) => sp_read_shielding_transfer_data_msg(d@, pos as int) == Some((m@, p as int)) && p
                <= d@.len(),
            None => sp_read_shielding_transfer_data_msg(d@, pos as int) is None,
        },
{
    let (x_source, pos1) = match read_text(d, pos) {
        Some(x) => x,
        None => {
            return None;
        },
    };
    let (x_token, pos2) = match read_text(d, pos1) {
        Some(x) => x,
        None => {
            return None;
        },
    };
    let (x_amount, pos3) = match read_text(d, pos2) {
        Some(x) => x,
        None => {
            return None;
        },
    };
    Some((ShieldingTransferDataMsg { source: x_source, token: x_token, amount: x_amount }, pos3))
}

#[verifier::rlimit(80)]
pub fn write_shielding_transfer_data_msg(out: &mut Vec<u8>, m: &ShieldingTransferDataMsg)
    requires
        shielding_transfer_data_msg_fits(m@),
    ensures
        final(out)@ == old(out)@ + enc_shielding_transfer_data_msg(m@),
{
    write_text(out, m.source.as_str());
    proof {
        assert(out@ =~= old(out)@ + (enc_string(m@.source)));
    }
    write_text(out, m.token.as_str());
    proof {
        assert(out@ =~= old(out)@ + (enc_string(m@.source) + enc_string(m@.token)));
    }
    write_text(out, m.amount.as_str());
    proof {
        assert(out@ =~= old(out)@ + (enc_string(m@.source) + enc_string(m@.token) + enc_string(m@.amount)));
    }
}

pub open spec fn shielding_transfer_data_msg_views(s: Seq<ShieldingTransferDataMsg>) -> Seq<ShieldingTransferDataMsgV> {
    s.map_values(|x: ShieldingTransferDataMsg| x@)
}

pub open spec fn enc_shielding_transfer_data_msg_items(xs: Seq<ShieldingTransferDataMsgV>) -> Seq<u8>
    decreases xs.len(),
{
    if xs.len() == 0 {
        Seq::empty()
    } else {
        enc_shielding_transfer_data_msg(xs[0]) + enc_shielding_transfer_data_msg_items(xs.drop_first())
    }
}

pub open spec fn enc_shielding_transfer_data_msg_seq(xs: Seq<ShieldingTransferDataMsgV>) -> Seq<u8> {
    enc_u32(xs.len() as u32) + enc_shielding_transfer_data_msg_items(xs)
}

pub open spec fn shielding_transfer_data_msg_seq_fits(xs: Seq<ShieldingTransferDataMsgV>) -> bool {
    fits_u32(xs.len()) && (forall|i: int| 0 <= i < xs.len() ==> #[trigger] shielding_transfer_data_msg_fits(xs[i]))
}

pub open spec fn sp_read_shielding_transfer_data_msg_n(d: Seq<u8>, pos: int, n: nat) -> Option<(Seq<ShieldingTransferDataMsgV>, int)>
    decreases n,
{
    if n == 0 {
        Some((Seq::empty(), pos))
    } else {
        match sp_read_shielding_transfer_data_msg(d, pos) {
            Some((x, p)) => match sp_read_shielding_transfer_data_msg_n(d, p, (n - 1) as nat) {
                Some((xs, p2)) => Some((seq![x] + xs, p2)),
                None => None,
            },
            None => None,
        }
    }
}

pub open spec fn sp_read_shielding_transfer_data_msg_seq(d: Seq<u8>, pos: int) -> Option<(Seq<ShieldingTransferDataMsgV>, int)> {
    match sp_read_u32(d, pos) {
        Some((n, p)) => sp_read_shielding_transfer_data_msg_n(d, p, n as nat),
        None => None,
    }
}

pub proof fn lemma_enc_shielding_transfer_data_msg_items_push(xs: Seq<ShieldingTransferDataMsgV>, x: ShieldingTransferDataMsgV)
    ensures
        enc_shielding_transfer_data_msg_items(xs.push(x)) == enc_shielding_transfer_data_msg_items(xs) + enc_shielding_transfer_data_msg(x),
    decreases xs.len(),
{
    let s1 = xs.push(x);
    if xs.len() == 0 {
        assert(s1[0] == x);
        assert(s1.drop_first() =~= Seq::<ShieldingTransferDataMsgV>::empty());
        assert(enc_shielding_transfer_data_msg_items(s1.drop_first()) == Seq::<u8>::empty());
        assert(enc_shielding_transfer_data_msg_items(s1) == enc_shielding_transfer_data_msg(s1[0]) + enc_shielding_transfer_data_msg_items(s1.drop_first()));
        assert(enc_shielding_transfer_data_msg_items(xs) == Seq::<u8>::empty());
        assert(enc_shielding_transfer_data_msg_items(s1) =~= enc_shielding_transfer_data_msg_items(xs) + enc_shielding_transfer_data_msg(x));
    } else {
        assert(s1[0] == xs[0]);
        assert(s1.drop_first() =~= xs.drop_first().push(x));
        lemma_enc_shielding_transfer_data_msg_items_push(xs.drop_first(), x);
        assert(enc_shielding_transfer_data_msg_items(s1) == enc_shielding_transfer_data_msg(s1[0]) + enc_shielding_transfer_data_msg_items(s1.drop_first()));
        assert(enc_shielding_transfer_data_msg_items(s1) =~= enc_shielding_transfer_data_msg_items(xs) + enc_shielding_transfer_data_msg(x));
    }
}

#[verifier::rlimit(100)]
#[verifier::spinoff_prover]
pub proof fn lemma_read_enc_shielding_transfer_data_msg_items(d: Seq<u8>, pos: int, xs: Seq<ShieldingTransferDataMsgV>)
    requires
        0 <= pos,
        forall|i: int| 0 <= i < xs.len() ==> #[trigger] shielding_transfer_data_msg_fits(xs[i]),
        pos + enc_shielding_transfer_data_msg_items(xs).len() <= d.len(),
        d.subrange(pos, pos + enc_shielding_transfer_data_msg_items(xs).len()) == enc_shielding_transfer_data_msg_items(xs),
    ensures
        sp_read_shielding_transfer_data_msg_n(d, pos, xs.len()) == Some((xs, pos + enc_shielding_transfer_data_msg_items(xs).len())),
    decreases xs.len(),
{
    if xs.len() == 0 {
        assert(xs =~= Seq::<ShieldingTransferDataMsgV>::empty());
    } else {
        let all = enc_shielding_transfer_data_msg_items(xs);
        let e0 = enc_shielding_transfer_data_msg(xs[0]);
        let rest = enc_shielding_transfer_data_msg_items(xs.drop_first());
        assert(d.subrange(pos, pos + e0.len()) =~= e0) by {
            assert forall|j: int| 0 <= j < e0.len() implies d.subrange(pos, pos + e0.len() as int)[j]
                == e0[j] by {
                assert(d.subrange(pos, pos + all.len() as int)[j] == all[j]);
            }
        }
        lemma_read_enc_shielding_transfer_data_msg(d, pos, xs[0]);
        assert(d.subrange(pos + e0.len(), pos + e0.len() + rest.len()) =~= rest) by {
            assert forall|j: int| 0 <= j < rest.len() implies d.subrange(
                pos + e0.len() as int,
                pos + e0.len() + rest.len(),
            )[j] == rest[j] by {
                assert(d.subrange(pos, pos + all.len() as int)[e0.len() + j] == all[e0.len() + j]);
            }
        }
        lemma_read_enc_shielding_transfer_data_msg_items(d, pos + e0.len() as int, xs.drop_first());
        assert(seq![xs[0]] + xs.drop_first() =~= xs);
    }
}

#[verifier::rlimit(80)]
pub proof fn lemma_read_enc_shielding_transfer_data_msg_seq(d: Seq<u8>, pos: int, xs: Seq<ShieldingTransferDataMsgV>)
    requires
        0 <= pos,
        shielding_transfer_data_msg_seq_fits(xs),
        pos + enc_shielding_transfer_data_msg_seq(xs).len() <= d.len(),
        d.subrange(pos, pos + enc_shielding_transfer_data_msg_seq(xs).len()) == enc_shielding_transfer_data_msg_seq(xs),
    ensures
        sp_read_shielding_transfer_data_msg_seq(d, pos) == Some((xs, pos + enc_shielding_transfer_data_msg_seq(xs).len())),
{
    let all = enc_shielding_transfer_data_msg_seq(xs);
    let n = xs.len() as u32;
    let items = enc_shielding_transfer_data_msg_items(xs);
    assert(d.subrange(pos, pos + 4) =~= enc_u32(n)) by {
        assert forall|j: int| 0 <= j < 4 implies d.subrange(pos, pos + 4)[j] == enc_u32(n)[j] by {
            assert(d.subrange(pos, pos + all.len() as int)[j] == all[j]);
        }
    }
    lemma_read_enc_u32(d, pos, n);
    assert(d.subrange(pos + 4, pos + 4 + items.len()) =~= items) by {
        assert forall|j: int| 0 <= j < items.len() implies d.subrange(
            pos + 4,
            pos + 4 + items.len(),
        )[j] == items[j] by {
            assert(d.subrange(pos, pos + all.len() as int)[4 + j] == all[4 + j]);
        }
    }
    lemma_read_enc_shielding_transfer_data_msg_items(d, pos + 4, xs);
}

pub fn read_shielding_transfer_data_msg_vec(d: &[u8], pos: usize) -> (r: Option<(Vec<ShieldingTransferDataMsg>, usize)>)
    requires
        pos <= d@.len(),
    ensures
        match r {
            Some((v, p)) => sp_read_shielding_transfer_data_msg_seq(d@, pos as int) == Some((shielding_transfer_data_msg_views(v@), p as int)) && p
                <= d@.len(),
            None => sp_read_shielding_transfer_data_msg_seq(d@, pos as int) is None,
        },
{
    match read_u32(d, pos) {
        None => None,
        Some((n, p0)) => {
            let mut acc: Vec<ShieldingTransferDataMsg> = Vec::new();
            let mut cur: usize = p0;
            let mut i: u32 = 0;
            while i < n
                invariant
                    i <= n,
                    pos <= d@.len(),
                    cur <= d@.len(),
                    acc@.len() == i,
                    sp_read_u32(d@, pos as int) == Some((n, p0 as int)),
                    match sp_read_shielding_transfer_data_msg_n(d@, cur as int, (n - i) as nat) {
                        Some((xs, pe)) => sp_read_shielding_transfer_data_msg_n(d@, p0 as int, n as nat) == Some(
                            (shielding_transfer_data_msg_views(acc@) + xs, pe),
                        ),
                        None => sp_read_shielding_transfer_data_msg_n(d@, p0 as int, n as nat) is None,
                    },
                decreases n - i,
            {
                match read_shielding_transfer_data_msg(d, cur) {
                    None => {
                        return None;
                    },
                    Some((x, p2)) => {
                        let ghost pre = shielding_transfer_data_msg_views(acc@);
                        let ghost xv = x@;
                        acc.push(x);
                        proof {
                            assert(shielding_transfer_data_msg_views(acc@) =~= pre.push(xv));
                            match sp_read_shielding_transfer_data_msg_n(d@, p2 as int, (n - i - 1) as nat) {
                                Some((xs2, pe)) => {
                                    assert(pre + (seq![xv] + xs2) =~= pre.push(xv) + xs2);
                                },
                                None => {},
                            }
                        }
                        cur = p2;
                        i = i + 1;
                    },
                }
            }
            proof {
                assert(shielding_transfer_data_msg_views(acc@) + Seq::<ShieldingTransferDataMsgV>::empty() =~= shielding_transfer_data_msg_views(acc@));
            }
            Some((acc, cur))
        },
    }
}

pub fn write_shielding_transfer_data_msg_vec(out: &mut Vec<u8>, v: &Vec<ShieldingTransferDataMsg>)
    requires
        shielding_transfer_data_msg_seq_fits(shielding_transfer_data_msg_views(v@)),
    ensures
        final(out)@ == old(out)@ + enc_shielding_transfer_data_msg_seq(shielding_transfer_data_msg_views(v@)),
{
    let ghost views = shielding_transfer_data_msg_views(v@);
    assert(v@.len() == views.len());
    write_u32(out, v.len() as u32);
    let mut i: usize = 0;
    while i < v.len()
        invariant
            i <= v@.len(),
            views == shielding_transfer_data_msg_views(v@),
            shielding_transfer_data_msg_seq_fits(views),
            out@ == old(out)@ + enc_u32(views.len() as u32) + enc_shielding_transfer_data_msg_items(
                views.subrange(0, i as int),
            ),
        decreases v@.len() - i,
    {
        assert(views[i as int] == v@[i as int]@);
        write_shielding_transfer_data_msg(out, &v[i]);
        proof {
            assert(views.subrange(0, i + 1) =~= views.subrange(0, i as int).push(views[i as int]));
            lemma_enc_shielding_transfer_data_msg_items_push(views.subrange(0, i as int), views[i as int]);
        }
        i = i + 1;
    }
    proof {
        assert(views.subrange(0, views.len() as int) =~= views);
    }
}


#[derive(Debug)]
pub struct ShieldingTransferMsg {
    pub target: String,
    pub data: Vec<ShieldingTransferDataMsg>,
}

#[verifier::ext_equal]
pub struct ShieldingTransferMsgV {
    pub target: Seq<char>,
    pub data: Seq<ShieldingTransferDataMsgV>,
}

impl View for ShieldingTransferMsg {
    type V = ShieldingTransferMsgV;

    open spec fn view(&self) -> ShieldingTransferMsgV {
        ShieldingTransferMsgV {
            target: self.target@,
            data: shielding_transfer_data_msg_views(self.data@),
        }
    }
}

impl ShieldingTransferMsg {
    pub fn new(target: String, data: Vec<ShieldingTransferDataMsg>) -> (r: ShieldingTransferMsg)
        ensures
            r@ == (ShieldingTransferMsgV {
                target: target@,
                data: shielding_transfer_data_msg_views(data@),
            }),
    {
        ShieldingTransferMsg { target, data }
    }

    /// Decodes one whole payload; trailing bytes are a decode failure.
    pub fn try_from_slice(d: &[u8]) -> (r: Result<ShieldingTransferMsg, ArgError>)
        ensures
            r is Ok <==> sp_shielding_transfer_msg(d@) is Some,
            r matches Ok(m) ==> sp_shielding_transfer_msg(d@) == Some(m@),
            r matches Err(e) ==> e == ArgError::DecodeError,
    {
        match read_shielding_transfer_msg(d, 0) {
            Some((m, p)) => {
                if p == d.len() {
                    Ok(m)
                } else {
                    Err(ArgError::DecodeError)
                }
            },
            None => Err(ArgError::DecodeError),
        }
    }

    pub fn to_bytes(&self) -> (r: Vec<u8>)
        requires
            shielding_transfer_msg_fits(self@),
        ensures
            r@ == enc_shielding_transfer_msg(self@),
    {
        let mut out: Vec<u8> = Vec::new();
        write_shielding_transfer_msg(&mut out, self);
        proof {
            assert(out@ =~= enc_shielding_transfer_msg(self@));
        }
        out
    }
}

pub open spec fn enc_shielding_transfer_msg(m: ShieldingTransferMsgV) -> Seq<u8> {
    enc_string(m.target) + enc_shielding_transfer_data_msg_seq(m.data)
}

pub open spec fn shielding_transfer_msg_fits(m: ShieldingTransferMsgV) -> bool {
    fits_u32(encode_utf8(m.target).len()) && shielding_transfer_data_msg_seq_fits(m.data)
}

pub open spec fn sp_read_shielding_transfer_msg(d: Seq<u8>, pos: int) -> Option<(ShieldingTransferMsgV, int)> {
    match sp_read_string(d, pos) {
        None => None,
        Some((x_target, pos1)) => {
            match sp_read_shielding_transfer_data_msg_seq(d, pos1) {
                None => None,
                Some((x_data, pos2)) => {
                    Some(
                        (ShieldingTransferMsgV { target: x_target, data: x_data }, pos2),
                    )
                },
            }
        },
    }
}

pub open spec fn sp_shielding_transfer_msg(d: Seq<u8>) -> Option<ShieldingTransferMsgV> {
    match sp_read_shielding_transfer_msg(d, 0) {
        Some((m, p)) => if p == d.len() {
            Some(m)
        } else {
            None
        },
        None => None,
    }
}

#[verifier::rlimit(80)]
pub proof fn lemma_read_enc_shielding_transfer_msg(d: Seq<u8>, pos: int, m: ShieldingTransferMsgV)
    requires
        0 <= pos,
        shielding_transfer_msg_fits(m),
        pos + enc_shielding_transfer_msg(m).len() <= d.len(),
        d.subrange(pos, pos + enc_shielding_transfer_msg(m).len()) == enc_shielding_transfer_msg(m),
    ensures
        sp_read_shielding_transfer_msg(d, pos) == Some((m, pos + enc_shielding_transfer_msg(m).len())),
{
    let e1 = enc_string(m.target);
    let e2 = enc_shielding_transfer_data_msg_seq(m.data);
    let p0 = pos;
    let p1 = p0 + e1.len();
    let p2 = p1 + e2.len();
    assert(d.subrange(p1, p2) =~= e2) by {
        assert forall|j: int| 0 <= j < e2.len() implies d.subrange(p1, p2)[j] == e2[j] by {
            assert(d.subrange(p0, p2)[p1 - p0 + j] == ((e1) + e2)[p1 - p0 + j]);
        }
    }
    assert(d.subrange(p0, p1) =~= (e1)) by {
        assert forall|j: int| 0 <= j < p1 - p0 implies d.subrange(p0, p1)[j] == (e1)[j] by {
            assert(d.subrange(p0, p2)[j] == ((e1) + e2)[j]);
        }
    }
    lemma_read_enc_string(d, p0, m.target);
    lemma_read_enc_shielding_transfer_data_msg_seq(d, p1, m.data);
    assert((ShieldingTransferMsgV { target: m.target, data: m.data }) =~= m);
}

/// Decoding an encoded `ShieldingTransferMsg` yields the message back, exactly.
#[verifier::rlimit(80)]
pub proof fn lemma_shielding_transfer_msg_round_trip(m: ShieldingTransferMsgV)
    requires
        shielding_transfer_msg_fits(m),
    ensures
        sp_shielding_transfer_msg(enc_shielding_transfer_msg(m)) == Some(m),
{
    let d = enc_shielding_transfer_msg(m);
    assert(d.subrange(0, d.len() as int) =~= d);
    lemma_read_enc_shielding_transfer_msg(d, 0, m);
}

pub fn read_shielding_transfer_msg(d: &[u8], pos: usize) -> (r: Option<(ShieldingTransferMsg, usize)>)
    requires
        pos <= d@.len(),
    ensures
        match r {
            Some((m, p)) => sp_read_shielding_transfer_msg(d@, pos as int) == Some((m@, p as int)) && p
                <= d@.len(),
            None => sp_read_shielding_transfer_msg(d@, pos as int) is None,
        },
{
    let (x_target, pos1) = match read_text(d, pos) {
        Some(x) => x,
        None => {
            return None;
        },
    };
    let (x_data, pos2) = match read_shielding_transfer_data_msg_vec(d, pos1) {
        Some(x) => x,
        None => {
            return None;
        },
    };
    Some((ShieldingTransferMsg { target: x_target, data: x_data }, pos2))
}

#[verifier::rlimit(80)]
pub fn write_shielding_transfer_msg(out: &mut Vec<u8>, m: &ShieldingTransferMsg)
    requires
        shielding_transfer_msg_fits(m@),
    ensures
        final(out)@ == old(out)@ + enc_shielding_transfer_msg(m@),
{
    write_text(out, m.target.as_str());
    proof {
        assert(out@ =~= old(out)@ + (enc_string(m@.target)));
    }
    write_shielding_transfer_data_msg_vec(out, &m.data);
    proof {
        assert(out@ =~= old(out)@ + (enc_string(m@.target) + enc_shielding_transfer_data_msg_seq(m@.data)));
    }
}

#[derive(Debug)]
pub struct UnshieldingTransferDataMsg {
    pub target: String,
    pub token: String,
    pub amount: String,
}

#[verifier::ext_equal]
pub struct UnshieldingTransferDataMsgV {
    pub target: Seq<char>,
    pub token: Seq<char>,
    pub amount: Seq<char>,
}

impl View for UnshieldingTransferDataMsg {
    type V = UnshieldingTransferDataMsgV;

    open spec fn view(&self) -> UnshieldingTransferDataMsgV {
        UnshieldingTransferDataMsgV {
            target: self.target@,
            token: self.token@,
            amount: self.amount@,
        }
    }
}

impl UnshieldingTransferDataMsg {
    pub fn new(target: String, token: String, amount: String) -> (r: UnshieldingTransferDataMsg)
        ensures
            r@ == (UnshieldingTransferDataMsgV {
                target: target@,
                token: token@,
                amount: amount@,
            }),
    {
        UnshieldingTransferDataMsg { target, token, amount }
    }

    /// Decodes one whole payload; trailing bytes are a decode failure.
    pub fn try_from_slice(d: &[u8]) -> (r: Result<UnshieldingTransferDataMsg, ArgError>)
        ensures
            r is Ok <==> sp_unshielding_transfer_data_msg(d@) is Some,
            r matches Ok(m) ==> sp_unshielding_transfer_data_msg(d@) == Some(m@),
            r matches Err(e) ==> e == ArgError::DecodeError,
    {
        match read_unshielding_transfer_data_msg(d, 0) {
            Some((m, p)) => {
                if p == d.len() {
                    Ok(m)
                } else {
                    Err(ArgError::DecodeError)
                }
            },
            None => Err(ArgError::DecodeError),
        }
    }

    pub fn to_bytes(&self) -> (r: Vec<u8>)
        requires
            unshielding_transfer_data_msg_fits(self@),
        ensures
            r@ == enc_unshielding_transfer_data_msg(self@),
    {
        let mut out: Vec<u8> = Vec::new();
        write_unshielding_transfer_data_msg(&mut out, self);
        proof {
            assert(out@ =~= enc_unshielding_transfer_data_msg(self@));
        }
        out
    }
}

pub open spec fn enc_unshielding_transfer_data_msg(m: UnshieldingTransferDataMsgV) -> Seq<u8> {
    enc_string(m.target) + enc_string(m.token) + enc_string(m.amount)
}

pub open spec fn unshielding_transfer_data_msg_fits(m: UnshieldingTransferDataMsgV) -> bool {
    fits_u32(encode_utf8(m.target).len()) && fits_u32(encode_utf8(m.token).len()) && fits_u32(encode_utf8(m.amount).len())
}

pub open spec fn sp_read_unshielding_transfer_data_msg(d: Seq<u8>, pos: int) -> Option<(UnshieldingTransferDataMsgV, int)> {
    match sp_read_string(d, pos) {
        None => None,
        Some((x_target, pos1)) => {
            match sp_read_string(d, pos1) {
                None => None,
                Some((x_token, pos2)) => {
                    match sp_read_string(d, pos2) {
                        None => None,
                        Some((x_amount, pos3)) => {
                            Some(
                                (UnshieldingTransferDataMsgV { target: x_target, token: x_token, amount: x_amount }, pos3),
                            )
                        },
                    }
                },
            }
        },
    }
}

pub open spec fn sp_unshielding_transfer_data_msg(d: Seq<u8>) -> Option<UnshieldingTransferDataMsgV> {
    match sp_read_unshielding_transfer_data_msg(d, 0) {
        Some((m, p)) => if p == d.len() {
            Some(m)
        } else {
            None
        },
        None => None,
    }
}

#[verifier::rlimit(80)]
pub proof fn lemma_read_enc_unshielding_transfer_data_msg(d: Seq<u8>, pos: int, m: UnshieldingTransferDataMsgV)
    requires
        0 <= pos,
        unshielding_transfer_data_msg_fits(m),
        pos + enc_unshielding_transfer_data_msg(m).len() <= d.len(),
        d.subrange(pos, pos + enc_unshielding_transfer_data_msg(m).len()) == enc_unshielding_transfer_data_msg(m),
    ensures
        sp_read_unshielding_transfer_data_msg(d, pos) == Some((m, pos + enc_unshielding_transfer_data_msg(m).len())),
{
    let e1 = enc_string(m.target);
    let e2 = enc_string(m.token);
    let e3 = enc_string(m.amount);
    let p0 = pos;
    let p1 = p0 + e1.len();
    let p2 = p1 + e2.len();
    let p3 = p2 + e3.len();
    assert(d.subrange(p2, p3) =~= e3) by {
        assert forall|j: int| 0 <= j < e3.len() implies d.subrange(p2, p3)[j] == e3[j] by {
            assert(d.subrange(p0, p3)[p2 - p0 + j] == ((e1 + e2) + e3)[p2 - p0 + j]);
        }
    }
    assert(d.subrange(p0, p2) =~= (e1 + e2)) by {
        assert forall|j: int| 0 <= j < p2 - p0 implies d.subrange(p0, p2)[j] == (e1 + e2)[j] by {
            assert(d.subrange(p0, p3)[j] == ((e1 + e2) + e3)[j]);
        }
    }
    assert(d.subrange(p1, p2) =~= e2) by {
        assert forall|j: int| 0 <= j < e2.len() implies d.subrange(p1, p2)[j] == e2[j] by {
            assert(d.subrange(p0, p2)[p1 - p0 + j] == ((e1) + e2)[p1 - p0 + j]);
        }
    }
    assert(d.subrange(p0, p1) =~= (e1)) by {
        assert forall|j: int| 0 <= j < p1 - p0 implies d.subrange(p0, p1)[j] == (e1)[j] by {
            assert(d.subrange(p0, p2)[j] == ((e1) + e2)[j]);
        }
    }
    lemma_read_enc_string(d, p0, m.target);
    lemma_read_enc_string(d, p1, m.token);
    lemma_read_enc_string(d, p2, m.amount);
    assert((UnshieldingTransferDataMsgV { target: m.target, token: m.token, amount: m.amount }) =~= m);
}

/// Decoding an encoded `UnshieldingTransferDataMsg` yields the message back, exactly.
#[verifier::rlimit(80)]
pub proof fn lemma_unshielding_transfer_data_msg_round_trip(m: UnshieldingTransferDataMsgV)
    requires
        unshielding_transfer_data_msg_fits(m),
    ensures
        sp_unshielding_transfer_data_msg(enc_unshielding_transfer_data_msg(m)) == Some(m),
{
    let d = enc_unshielding_transfer_data_msg(m);
    assert(d.subrange(0, d.len() as int) =~= d);
    lemma_read_enc_unshielding_transfer_data_msg(d, 0, m);
}

pub fn read_unshielding_transfer_data_msg(d: &[u8], pos: usize) -> (r: Option<(UnshieldingTransferDataMsg, usize)>)
    requires
        pos <= d@.len(),
    ensures
        match r {
            Some((m, p)) => sp_read_unshielding_transfer_data_msg(d@, pos as int) == Some((m@, p as int)) && p
                <= d@.len(),
            None => sp_read_unshielding_transfer_data_msg(d@, pos as int) is None,
        },
{
    let (x_target, pos1) = match read_text(d, pos) {
        Some(x) => x,
        None => {
            return None;
        },
    };
    let (x_token, pos2) = match read_text(d, pos1) {
        Some(x) => x,
        None => {
            return None;
        },
    };
    let (x_amount, pos3) = match read_text(d, pos2) {
        Some(x) => x,
        None => {
            return None;
        },
    };
    Some((UnshieldingTransferDataMsg { target: x_target, token: x_token, amount: x_amount }, pos3))
}

#[verifier::rlimit(80)]
pub fn write_unshielding_transfer_data_msg(out: &mut Vec<u8>, m: &UnshieldingTransferDataMsg)
    requires
        unshielding_transfer_data_msg_fits(m@),
    ensures
        final(out)@ == old(out)@ + enc_unshielding_transfer_data_msg(m@),
{
    write_text(out, m.target.as_str());
    proof {
        assert(out@ =~= old(out)@ + (enc_string(m@.target)));
    }
    write_text(out, m.token.as_str());
    proof {
        assert(out@ =~= old(out)@ + (enc_string(m@.target) + enc_string(m@.token)));
    }
    write_text(out, m.amount.as_str());
    proof {
        assert(out@ =~= old(out)@ + (enc_string(m@.target) + enc_string(m@.token) + enc_string(m@.amount)));
    }
}

pub open spec fn unshielding_transfer_data_msg_views(s: Seq<UnshieldingTransferDataMsg>) -> Seq<UnshieldingTransferDataMsgV> {
    s.map_values(|x: UnshieldingTransferDataMsg| x@)
}

pub open spec fn enc_unshielding_transfer_data_msg_items(xs: Seq<UnshieldingTransferDataMsgV>) -> Seq<u8>
    decreases xs.len(),
{
    if xs.len() == 0 {
        Seq::empty()
    } else {
        enc_unshielding_transfer_data_msg(xs[0]) + enc_unshielding_transfer_data_msg_items(xs.drop_first())
    }
}

pub open spec fn enc_unshielding_transfer_data_msg_seq(xs: Seq<UnshieldingTransferDataMsgV>) -> Seq<u8> {
    enc_u32(xs.len() as u32) + enc_unshielding_transfer_data_msg_items(xs)
}

pub open spec fn unshielding_transfer_data_msg_seq_fits(xs: Seq<UnshieldingTransferDataMsgV>) -> bool {
    fits_u32(xs.len()) && (forall|i: int| 0 <= i < xs.len() ==> #[trigger] unshielding_transfer_data_msg_fits(xs[i]))
}

pub open spec fn sp_read_unshielding_transfer_data_msg_n(d: Seq<u8>, pos: int, n: nat) -> Option<(Seq<UnshieldingTransferDataMsgV>, int)>
    decreases n,
{
    if n == 0 {
        Some((Seq::empty(), pos))
    } else {
        match sp_read_unshielding_transfer_data_msg(d, pos) {
            Some((x, p)) => match sp_read_unshielding_transfer_data_msg_n(d, p, (n - 1) as nat) {
                Some((xs, p2)) => Some((seq![x] + xs, p2)),
                None => None,
            },
            None => None,
        }
    }
}

pub open spec fn sp_read_unshielding_transfer_data_msg_seq(d: Seq<u8>, pos: int) -> Option<(Seq<UnshieldingTransferDataMsgV>, int)> {
    match sp_read_u32(d, pos) {
        Some((n, p)) => sp_read_unshielding_transfer_data_msg_n(d, p, n as nat),
        None => None,
    }
}

pub proof fn lemma_enc_unshielding_transfer_data_msg_items_push(xs: Seq<UnshieldingTransferDataMsgV>, x: UnshieldingTransferDataMsgV)
    ensures
        enc_unshielding_transfer_data_msg_items(xs.push(x)) == enc_unshielding_transfer_data_msg_items(xs) + enc_unshielding_transfer_data_msg(x),
    decreases xs.len(),
{
    let s1 = xs.push(x);
    if xs.len() == 0 {
        assert(s1[0] == x);
        assert(s1.drop_first() =~= Seq::<UnshieldingTransferDataMsgV>::empty());
        assert(enc_unshielding_transfer_data_msg_items(s1.drop_first()) == Seq::<u8>::empty());
        assert(enc_unshielding_transfer_data_msg_items(s1) == enc_unshielding_transfer_data_msg(s1[0]) + enc_unshielding_transfer_data_msg_items(s1.drop_first()));
        assert(enc_unshielding_transfer_data_msg_items(xs) == Seq::<u8>::empty());
        assert(enc_unshielding_transfer_data_msg_items(s1) =~= enc_unshielding_transfer_data_msg_items(xs) + enc_unshielding_transfer_data_msg(x));
    } else {
        assert(s1[0] == xs[0]);
        assert(s1.drop_first() =~= xs.drop_first().push(x));
        lemma_enc_unshielding_transfer_data_msg_items_push(xs.drop_first(), x);
        assert(enc_unshielding_transfer_data_msg_items(s1) == enc_unshielding_transfer_data_msg(s1[0]) + enc_unshielding_transfer_data_msg_items(s1.drop_first()));
        assert(enc_unshielding_transfer_data_msg_items(s1) =~= enc_unshielding_transfer_data_msg_items(xs) + enc_unshielding_transfer_data_msg(x));
    }
}

#[verifier::rlimit(100)]
#[verifier::spinoff_prover]
pub proof fn lemma_read_enc_unshielding_transfer_data_msg_items(d: Seq<u8>, pos: int, xs: Seq<UnshieldingTransferDataMsgV>)
    requires
        0 <= pos,
        forall|i: int| 0 <= i < xs.len() ==> #[trigger] unshielding_transfer_data_msg_fits(xs[i]),
        pos + enc_unshielding_transfer_data_msg_items(xs).len() <= d.len(),
        d.subrange(pos, pos + enc_unshielding_transfer_data_msg_items(xs).len()) == enc_unshielding_transfer_data_msg_items(xs),
    ensures
        sp_read_unshielding_transfer_data_msg_n(d, pos, xs.len()) == Some((xs, pos + enc_unshielding_transfer_data_msg_items(xs).len())),
    decreases xs.len(),
{
    if xs.len() == 0 {
        assert(xs =~= Seq::<UnshieldingTransferDataMsgV>::empty());
    } else {
        let all = enc_unshielding_transfer_data_msg_items(xs);
        let e0 = enc_unshielding_transfer_data_msg(xs[0]);
        let rest = enc_unshielding_transfer_data_msg_items(xs.drop_first());
        assert(d.subrange(pos, pos + e0.len()) =~= e0) by {
            assert forall|j: int| 0 <= j < e0.len() implies d.subrange(pos, pos + e0.len() as int)[j]
                == e0[j] by {
                assert(d.subrange(pos, pos + all.len() as int)[j] == all[j]);
            }
        }
        lemma_read_enc_unshielding_transfer_data_msg(d, pos, xs[0]);
        assert(d.subrange(pos + e0.len(), pos + e0.len() + rest.len()) =~= rest) by {
            assert forall|j: int| 0 <= j < rest.len() implies d.subrange(
                pos + e0.len() as int,
                pos + e0.len() + rest.len(),
            )[j] == rest[j] by {
                assert(d.subrange(pos, pos + all.len() as int)[e0.len() + j] == all[e0.len() + j]);
            }
        }
        lemma_read_enc_unshielding_transfer_data_msg_items(d, pos + e0.len() as int, xs.drop_first());
        assert(seq![xs[0]] + xs.drop_first() =~= xs);
    }
}

#[verifier::rlimit(80)]
pub proof fn lemma_read_enc_unshielding_transfer_data_msg_seq(d: Seq<u8>, pos: int, xs: Seq<UnshieldingTransferDataMsgV>)
    requires
        0 <= pos,
        unshielding_transfer_data_msg_seq_fits(xs),
        pos + enc_unshielding_transfer_data_msg_seq(xs).len() <= d.len(),
        d.subrange(pos, pos + enc_unshielding_transfer_data_msg_seq(xs).len()) == enc_unshielding_transfer_data_msg_seq(xs),
    ensures
        sp_read_unshielding_transfer_data_msg_seq(d, pos) == Some((xs, pos + enc_unshielding_transfer_data_msg_seq(xs).len())),
{
    let all = enc_unshielding_transfer_data_msg_seq(xs);
    let n = xs.len() as u32;
    let items = enc_unshielding_transfer_data_msg_items(xs);
    assert(d.subrange(pos, pos + 4) =~= enc_u32(n)) by {
        assert forall|j: int| 0 <= j < 4 implies d.subrange(pos, pos + 4)[j] == enc_u32(n)[j] by {
            assert(d.subrange(pos, pos + all.len() as int)[j] == all[j]);
        }
    }
    lemma_read_enc_u32(d, pos, n);
    assert(d.subrange(pos + 4, pos + 4 + items.len()) =~= items) by {
        assert forall|j: int| 0 <= j < items.len() implies d.subrange(
            pos + 4,
            pos + 4 + items.len(),
        )[j] == items[j] by {
            assert(d.subrange(pos, pos + all.len() as int)[4 + j] == all[4 + j]);
        }
    }
    lemma_read_enc_unshielding_transfer_data_msg_items(d, pos + 4, xs);
}

pub fn read_unshielding_transfer_data_msg_vec(d: &[u8], pos: usize) -> (r: Option<(Vec<UnshieldingTransferDataMsg>, usize)>)
    requires
        pos <= d@.len(),
    ensures
        match r {
            Some((v, p)) => sp_read_unshielding_transfer_data_msg_seq(d@, pos as int) == Some((unshielding_transfer_data_msg_views(v@), p as int)) && p
                <= d@.len(),
            None => sp_read_unshielding_transfer_data_msg_seq(d@, pos as int) is None,
        },
{
    match read_u32(d, pos) {
        None => None,
        Some((n, p0)) => {
            let mut acc: Vec<UnshieldingTransferDataMsg> = Vec::new();
            let mut cur: usize = p0;
            let mut i: u32 = 0;
            while i < n
                invariant
                    i <= n,
                    pos <= d@.len(),
                    cur <= d@.len(),
                    acc@.len() == i,
                    sp_read_u32(d@, pos as int) == Some((n, p0 as int)),
                    match sp_read_unshielding_transfer_data_msg_n(d@, cur as int, (n - i) as nat) {
                        Some((xs, pe)) => sp_read_unshielding_transfer_data_msg_n(d@, p0 as int, n as nat) == Some(
                            (unshielding_transfer_data_msg_views(acc@) + xs, pe),
                        ),
                        None => sp_read_unshielding_transfer_data_msg_n(d@, p0 as int, n as nat) is None,
                    },
                decreases n - i,
            {
                match read_unshielding_transfer_data_msg(d, cur) {
                    None => {
                        return None;
                    },
                    Some((x, p2)) => {
                        let ghost pre = unshielding_transfer_data_msg_views(acc@);
                        let ghost xv = x@;
                        acc.push(x);
                        proof {
                            assert(unshielding_transfer_data_msg_views(acc@) =~= pre.push(xv));
                            match sp_read_unshielding_transfer_data_msg_n(d@, p2 as int, (n - i - 1) as nat) {
                                Some((xs2, pe)) => {
                                    assert(pre + (seq![xv] + xs2) =~= pre.push(xv) + xs2);
                                },
                                None => {},
                            }
                        }
                        cur = p2;
                        i = i + 1;
                    },
                }
            }
            proof {
                assert(unshielding_transfer_data_msg_views(acc@) + Seq::<UnshieldingTransferDataMsgV>::empty() =~= unshielding_transfer_data_msg_views(acc@));
            }
            Some((acc, cur))
        },
    }
}

pub fn write_unshielding_transfer_data_msg_vec(out: &mut Vec<u8>, v: &Vec<UnshieldingTransferDataMsg>)
    requires
        unshielding_transfer_data_msg_seq_fits(unshielding_transfer_data_msg_views(v@)),
    ensures
        final(out)@ == old(out)@ + enc_unshielding_transfer_data_msg_seq(unshielding_transfer_data_msg_views(v@)),
{
    let ghost views = unshielding_transfer_data_msg_views(v@);
    assert(v@.len() == views.len());
    write_u32(out, v.len() as u32);
    let mut i: usize = 0;
    while i < v.len()
        invariant
            i <= v@.len(),
            views == unshielding_transfer_data_msg_views(v@),
            unshielding_transfer_data_msg_seq_fits(views),
            out@ == old(out)@ + enc_u32(views.len() as u32) + enc_unshielding_transfer_data_msg_items(
                views.subrange(0, i as int),
            ),
        decreases v@.len() - i,
    {
        assert(views[i as int] == v@[i as int]@);
        write_unshielding_transfer_data_msg(out, &v[i]);
        proof {
            assert(views.subrange(0, i + 1) =~= views.subrange(0, i as int).push(views[i as int]));
            lemma_enc_unshielding_transfer_data_msg_items_push(views.subrange(0, i as int), views[i as int]);
        }
        i = i + 1;
    }
    proof {
        assert(views.subrange(0, views.len() as int) =~= views);
    }
}


#[derive(Debug)]
pub struct UnshieldingTransferMsg {
    pub source: Vec<u8>,
    pub data: Vec<UnshieldingTransferDataMsg>,
    pub gas_spending_keys: Vec<Vec<u8>>,
}

#[verifier::ext_equal]
pub struct UnshieldingTransferMsgV {
    pub source: Seq<u8>,
    pub data: Seq<UnshieldingTransferDataMsgV>,
    pub gas_spending_keys: Seq<Seq<u8>>,
}

impl View for UnshieldingTransferMsg {
    type V = UnshieldingTransferMsgV;

    open spec fn view(&self) -> UnshieldingTransferMsgV {
        UnshieldingTransferMsgV {
            source: self.source@,
            data: unshielding_transfer_data_msg_views(self.data@),
            gas_spending_keys: byte_string_views(self.gas_spending_keys@),
        }
    }
}

impl UnshieldingTransferMsg {
    pub fn new(source: Vec<u8>, data: Vec<UnshieldingTransferDataMsg>, gas_spending_keys: Vec<Vec<u8>>) -> (r: UnshieldingTransferMsg)
        ensures
            r@ == (UnshieldingTransferMsgV {
                source: source@,
                data: unshielding_transfer_data_msg_views(data@),
                gas_spending_keys: byte_string_views(gas_spending_keys@),
            }),
    {
        UnshieldingTransferMsg { source, data, gas_spending_keys }
    }

    /// Decodes one whole payload; trailing bytes are a decode failure.
    pub fn try_from_slice(d: &[u8]) -> (r: Result<UnshieldingTransferMsg, ArgError>)
        ensures
            r is Ok <==> sp_unshielding_transfer_msg(d@) is Some,
            r matches Ok(m) ==> sp_unshielding_transfer_msg(d@) == Some(m@),
            r matches Err(e) ==> e == ArgError::DecodeError,
    {
        match read_unshielding_transfer_msg(d, 0) {
            Some((m, p)) => {
                if p == d.len() {
                    Ok(m)
                } else {
                    Err(ArgError::DecodeError)
                }
            },
            None => Err(ArgError::DecodeError),
        }
    }

    pub fn to_bytes(&self) -> (r: Vec<u8>)
        requires
            unshielding_transfer_msg_fits(self@),
        ensures
            r@ == enc_unshielding_transfer_msg(self@),
    {
        let mut out: Vec<u8> = Vec::new();
        write_unshielding_transfer_msg(&mut out, self);
        proof {
            assert(out@ =~= enc_unshielding_transfer_msg(self@));
        }
        out
    }
}

pub open spec fn enc_unshielding_transfer_msg(m: UnshieldingTransferMsgV) -> Seq<u8> {
    enc_bytes(m.source) + enc_unshielding_transfer_data_msg_seq(m.data) + enc_byte_string_seq(m.gas_spending_keys)
}

pub open spec fn unshielding_transfer_msg_fits(m: UnshieldingTransferMsgV) -> bool {
    fits_u32(m.source.len()) && unshielding_transfer_data_msg_seq_fits(m.data) && byte_string_seq_fits(m.gas_spending_keys)
}

pub open spec fn sp_read_unshielding_transfer_msg(d: Seq<u8>, pos: int) -> Option<(UnshieldingTransferMsgV, int)> {
    match sp_read_bytes(d, pos) {
        None => None,
        Some((x_source, pos1)) => {
            match sp_read_unshielding_transfer_data_msg_seq(d, pos1) {
                None => None,
                Some((x_data, pos2)) => {
                    match sp_read_byte_string_seq(d, pos2) {
                        None => None,
                        Some((x_gas_spending_keys, pos3)) => {
                            Some(
                                (UnshieldingTransferMsgV { source: x_source, data: x_data, gas_spending_keys: x_gas_spending_keys }, pos3),
                            )
                        },
                    }
                },
            }
        },
    }
}

pub open spec fn sp_unshielding_transfer_msg(d: Seq<u8>) -> Option<UnshieldingTransferMsgV> {
    match sp_read_unshielding_transfer_msg(d, 0) {
        Some((m, p)) => if p == d.len() {
            Some(m)
        } else {
            None
        },
        None => None,
    }
}

#[verifier::rlimit(80)]
pub proof fn lemma_read_enc_unshielding_transfer_msg(d: Seq<u8>, pos: int, m: UnshieldingTransferMsgV)
    requires
        0 <= pos,
        unshielding_transfer_msg_fits(m),
        pos + enc_unshielding_transfer_msg(m).len() <= d.len(),
        d.subrange(pos, pos + enc_unshielding_transfer_msg(m).len()) == enc_unshielding_transfer_msg(m),
    ensures
        sp_read_unshielding_transfer_msg(d, pos) == Some((m, pos + enc_unshielding_transfer_msg(m).len())),
{
    let e1 = enc_bytes(m.source);
    let e2 = enc_unshielding_transfer_data_msg_seq(m.data);
    let e3 = enc_byte_string_seq(m.gas_spending_keys);
    let p0 = pos;
    let p1 = p0 + e1.len();
    let p2 = p1 + e2.len();
    let p3 = p2 + e3.len();
    assert(d.subrange(p2, p3) =~= e3) by {
        assert forall|j: int| 0 <= j < e3.len() implies d.subrange(p2, p3)[j] == e3[j] by {
            assert(d.subrange(p0, p3)[p2 - p0 + j] == ((e1 + e2) + e3)[p2 - p0 + j]);
        }
    }
    assert(d.subrange(p0, p2) =~= (e1 + e2)) by {
        assert forall|j: int| 0 <= j < p2 - p0 implies d.subrange(p0, p2)[j] == (e1 + e2)[j] by {
            assert(d.subrange(p0, p3)[j] == ((e1 + e2) + e3)[j]);
        }
    }
    assert(d.subrange(p1, p2) =~= e2) by {
        assert forall|j: int| 0 <= j < e2.len() implies d.subrange(p1, p2)[j] == e2[j] by {
            assert(d.subrange(p0, p2)[p1 - p0 + j] == ((e1) + e2)[p1 - p0 + j]);
        }
    }
    assert(d.subrange(p0, p1) =~= (e1)) by {
        assert forall|j: int| 0 <= j < p1 - p0 implies d.subrange(p0, p1)[j] == (e1)[j] by {
            assert(d.subrange(p0, p2)[j] == ((e1) + e2)[j]);
        }
    }
    lemma_read_enc_bytes(d, p0, m.source);
    lemma_read_enc_unshielding_transfer_data_msg_seq(d, p1, m.data);
    lemma_read_enc_byte_string_seq(d, p2, m.gas_spending_keys);
    assert((UnshieldingTransferMsgV { source: m.source, data: m.data, gas_spending_keys: m.gas_spending_keys }) =~= m);
}

/// Decoding an encoded `UnshieldingTransferMsg` yields the message back, exactly.
#[verifier::rlimit(80)]
pub proof fn lemma_unshielding_transfer_msg_round_trip(m: UnshieldingTransferMsgV)
    requires
        unshielding_transfer_msg_fits(m),
    ensures
        sp_unshielding_transfer_msg(enc_unshielding_transfer_msg(m)) == Some(m),
{
    let d = enc_unshielding_transfer_msg(m);
    assert(d.subrange(0, d.len() as int) =~= d);
    lemma_read_enc_unshielding_transfer_msg(d, 0, m);
}

pub fn read_unshielding_transfer_msg(d: &[u8], pos: usize) -> (r: Option<(UnshieldingTransferMsg, usize)>)
    requires
        pos <= d@.len(),
    ensures
        match r {
            Some((m, p)) => sp_read_unshielding_transfer_msg(d@, pos as int) == Some((m@, p as int)) && p
                <= d@.len(),
            None => sp_read_unshielding_transfer_msg(d@, pos as int) is None,
        },
{
    let (x_source, pos1) = match read_byte_string(d, pos) {
        Some(x) => x,
        None => {
            return None;
        },
    };
    let (x_data, pos2) = match read_unshielding_transfer_data_msg_vec(d, pos1) {
        Some(x) => x,
        None => {
            return None;
        },
    };
    let (x_gas_spending_keys, pos3) = match read_byte_string_vec(d, pos2) {
        Some(x) => x,
        None => {
            return None;
        },
    };
    Some((UnshieldingTransferMsg { source: x_source, data: x_data, gas_spending_keys: x_gas_spending_keys }, pos3))
}

#[verifier::rlimit(80)]
pub fn write_unshielding_transfer_msg(out: &mut Vec<u8>, m: &UnshieldingTransferMsg)
    requires
        unshielding_transfer_msg_fits(m@),
    ensures
        final(out)@ == old(out)@ + enc_unshielding_transfer_msg(m@),
{
    write_byte_string(out, &m.source);
    proof {
        assert(out@ =~= old(out)@ + (enc_bytes(m@.source)));
    }
    write_unshielding_transfer_data_msg_vec(out, &m.data);
    proof {
        assert(out@ =~= old(out)@ + (enc_bytes(m@.source) + enc_unshielding_transfer_data_msg_seq(m@.data)));
    }
    write_byte_string_vec(out, &m.gas_spending_keys);
    proof {
        assert(out@ =~= old(out)@ + (enc_bytes(m@.source) + enc_unshielding_transfer_data_msg_seq(m@.data) + enc_byte_string_seq(m@.gas_spending_keys)));
    }
}

#[derive(Debug)]
pub struct IbcTransferMsg {
    pub source: String,
    pub receiver: String,
    pub token: String,
    pub amount: String,
    pub port_id: String,
    pub channel_id: String,
    pub timeout_height: Option<u64>,
    pub timeout_sec_offset: Option<u64>,
    pub memo: Option<String>,
    pub shielding_data: Option<Vec<u8>>,
}

#[verifier::ext_equal]
pub struct IbcTransferMsgV {
    pub source: Seq<char>,
    pub receiver: Seq<char>,
    pub token: Seq<char>,
    pub amount: Seq<char>,
    pub port_id: Seq<char>,
    pub channel_id: Seq<char>,
    pub timeout_height: Option<u64>,
    pub timeout_sec_offset: Option<u64>,
    pub memo: Option<Seq<char>>,
    pub shielding_data: Option<Seq<u8>>,
}

impl View for IbcTransferMsg {
    type V = IbcTransferMsgV;

    open spec fn view(&self) -> IbcTransferMsgV {
        IbcTransferMsgV {
            source: self.source@,
            receiver: self.receiver@,
            token: self.token@,
            amount: self.amount@,
            port_id: self.port_id@,
            channel_id: self.channel_id@,
            timeout_height: self.timeout_height,
            timeout_sec_offset: self.timeout_sec_offset,
            memo: view_opt_string(self.memo),
            shielding_data: view_opt_bytes(self.shielding_data),
        }
    }
}

impl IbcTransferMsg {
    pub fn new(source: String, receiver: String, token: String, amount: String, port_id: String, channel_id: String, timeout_height: Option<u64>, timeout_sec_offset: Option<u64>, memo: Option<String>, shielding_data: Option<Vec<u8>>) -> (r: IbcTransferMsg)
        ensures
            r@ == (IbcTransferMsgV {
                source: source@,
                receiver: receiver@,
                token: token@,
                amount: amount@,
                port_id: port_id@,
                channel_id: channel_id@,
                timeout_height: timeout_height,
                timeout_sec_offset: timeout_sec_offset,
                memo: view_opt_string(memo),
                shielding_data: view_opt_bytes(shielding_data),
            }),
    {
        IbcTransferMsg { source, receiver, token, amount, port_id, channel_id, timeout_height, timeout_sec_offset, memo, shielding_data }
    }

    /// Decodes one whole payload; trailing bytes are a decode failure.
    pub fn try_from_slice(d: &[u8]) -> (r: Result<IbcTransferMsg, ArgError>)
        ensures
            r is Ok <==> sp_ibc_transfer_msg(d@) is Some,
            r matches Ok(m) ==> sp_ibc_transfer_msg(d@) == Some(m@),
            r matches Err(e) ==> e == ArgError::DecodeError,
    {
        match read_ibc_transfer_msg(d, 0) {
            Some((m, p)) => {
                if p == d.len() {
                    Ok(m)
                } else {
                    Err(ArgError::DecodeError)
                }
            },
            None => Err(ArgError::DecodeError),
        }
    }

    pub fn to_bytes(&self) -> (r: Vec<u8>)
        requires
            ibc_transfer_msg_fits(self@),
        ensures
            r@ == enc_ibc_transfer_msg(self@),
    {
        let mut out: Vec<u8> = Vec::new();
        write_ibc_transfer_msg(&mut out, self);
        proof {
            assert(out@ =~= enc_ibc_transfer_msg(self@));
        }
        out
    }
}

pub open spec fn enc_ibc_transfer_msg(m: IbcTransferMsgV) -> Seq<u8> {
    enc_string(m.source) + enc_string(m.receiver) + enc_string(m.token) + enc_string(m.amount) + enc_string(m.port_id) + enc_string(m.channel_id) + enc_opt_u64(m.timeout_height) + enc_opt_u64(m.timeout_sec_offset) + enc_opt_string(m.memo) + enc_opt_bytes(m.shielding_data)
}

pub open spec fn ibc_transfer_msg_fits(m: IbcTransferMsgV) -> bool {
    fits_u32(encode_utf8(m.source).len()) && fits_u32(encode_utf8(m.receiver).len()) && fits_u32(encode_utf8(m.token).len()) && fits_u32(encode_utf8(m.amount).len()) && fits_u32(encode_utf8(m.port_id).len()) && fits_u32(encode_utf8(m.channel_id).len()) && opt_string_fits(m.memo) && opt_bytes_fits(m.shielding_data)
}

pub open spec fn sp_read_ibc_transfer_msg(d: Seq<u8>, pos: int) -> Option<(IbcTransferMsgV, int)> {
    match sp_read_string(d, pos) {
        None => None,
        Some((x_source, pos1)) => {
            match sp_read_string(d, pos1) {
                None => None,
                Some((x_receiver, pos2)) => {
                    match sp_read_string(d, pos2) {
                        None => None,
                        Some((x_token, pos3)) => {
                            match sp_read_string(d, pos3) {
                                None => None,
                                Some((x_amount, pos4)) => {
                                    match sp_read_string(d, pos4) {
                                        None => None,
                                        Some((x_port_id, pos5)) => {
                                            match sp_read_string(d, pos5) {
                                                None => None,
                                                Some((x_channel_id, pos6)) => {
                                                    match sp_read_opt_u64(d, pos6) {
                                                        None => None,
                                                        Some((x_timeout_height, pos7)) => {
                                                            match sp_read_opt_u64(d, pos7) {
                                                                None => None,
                                                                Some((x_timeout_sec_offset, pos8)) => {
                                                                    match sp_read_opt_string(d, pos8) {
                                                                        None => None,
                                                                        Some((x_memo, pos9)) => {
                                                                            match sp_read_opt_bytes(d, pos9) {
                                                                                None => None,
                                                                                Some((x_shielding_data, pos10)) => {
                                                                                    Some(
                                                                                        (IbcTransferMsgV { source: x_source, receiver: x_receiver, token: x_token, amount: x_amount, port_id: x_port_id, channel_id: x_channel_id, timeout_height: x_timeout_height, timeout_sec_offset: x_timeout_sec_offset, memo: x_memo, shielding_data: x_shielding_data }, pos10),
                                                                                    )
                                                                                },
                                                                            }
                                                                        },
                                                                    }
                                                                },
                                                            }
                                                        },
                                                    }
                                                },
                                            }
                                        },
                                    }
                                },
                            }
                        },
                    }
                },
            }
        },
    }
}

pub open spec fn sp_ibc_transfer_msg(d: Seq<u8>) -> Option<IbcTransferMsgV> {
    match sp_read_ibc_transfer_msg(d, 0) {
        Some((m, p)) => if p == d.len() {
            Some(m)
        } else {
            None
        },
        None => None,
    }
}

#[verifier::rlimit(100)]
#[verifier::spinoff_prover]
proof fn lemma_peel_ibc_tail(d: Seq<u8>, pos: int, m: IbcTransferMsgV)
    requires
        0 <= pos,
        ibc_transfer_msg_fits(m),
        pos + enc_ibc_transfer_msg(m).len() <= d.len(),
        d.subrange(pos, pos + enc_ibc_transfer_msg(m).len()) == enc_ibc_transfer_msg(m),
    ensures
        d.subrange(pos + enc_string(m.source).len() + enc_string(m.receiver).len() + enc_string(m.token).len() + enc_string(m.amount).len() + enc_string(m.port_id).len() + enc_string(m.channel_id).len() + enc_opt_u64(m.timeout_height).len(), pos + enc_string(m.source).len() + enc_string(m.receiver).len() + enc_string(m.token).len() + enc_string(m.amount).len() + enc_string(m.port_id).len() + enc_string(m.channel_id).len() + enc_opt_u64(m.timeout_height).len() + enc_opt_u64(m.timeout_sec_offset).len()) == enc_opt_u64(m.timeout_sec_offset),
        d.subrange(pos + enc_string(m.source).len() + enc_string(m.receiver).len() + enc_string(m.token).len() + enc_string(m.amount).len() + enc_string(m.port_id).len() + enc_string(m.channel_id).len() + enc_opt_u64(m.timeout_height).len() + enc_opt_u64(m.timeout_sec_offset).len(), pos + enc_string(m.source).len() + enc_string(m.receiver).len() + enc_string(m.token).len() + enc_string(m.amount).len() + enc_string(m.port_id).len() + enc_string(m.channel_id).len() + enc_opt_u64(m.timeout_height).len() + enc_opt_u64(m.timeout_sec_offset).len() + enc_opt_string(m.memo).len()) == enc_opt_string(m.memo),
        d.subrange(pos + enc_string(m.source).len() + enc_string(m.receiver).len() + enc_string(m.token).len() + enc_string(m.amount).len() + enc_string(m.port_id).len() + enc_string(m.channel_id).len() + enc_opt_u64(m.timeout_height).len() + enc_opt_u64(m.timeout_sec_offset).len() + enc_opt_string(m.memo).len(), pos + enc_string(m.source).len() + enc_string(m.receiver).len() + enc_string(m.token).len() + enc_string(m.amount).len() + enc_string(m.port_id).len() + enc_string(m.channel_id).len() + enc_opt_u64(m.timeout_height).len() + enc_opt_u64(m.timeout_sec_offset).len() + enc_opt_string(m.memo).len() + enc_opt_bytes(m.shielding_data).len()) == enc_opt_bytes(m.shielding_data),
        d.subrange(pos, pos + enc_string(m.source).len() + enc_string(m.receiver).len() + enc_string(m.token).len() + enc_string(m.amount).len() + enc_string(m.port_id).len() + enc_string(m.channel_id).len() + enc_opt_u64(m.timeout_height).len()) == (enc_string(m.source) + enc_string(m.receiver) + enc_string(m.token) + enc_string(m.amount) + enc_string(m.port_id) + enc_string(m.channel_id) + enc_opt_u64(m.timeout_height)),
{
    let e1 = enc_string(m.source);
    let e2 = enc_string(m.receiver);
    let e3 = enc_string(m.token);
    let e4 = enc_string(m.amount);
    let e5 = enc_string(m.port_id);
    let e6 = enc_string(m.channel_id);
    let e7 = enc_opt_u64(m.timeout_height);
    let e8 = enc_opt_u64(m.timeout_sec_offset);
    let e9 = enc_opt_string(m.memo);
    let e10 = enc_opt_bytes(m.shielding_data);
    let p0 = pos;
    let p1 = p0 + e1.len();
    let p2 = p1 + e2.len();
    let p3 = p2 + e3.len();
    let p4 = p3 + e4.len();
    let p5 = p4 + e5.len();
    let p6 = p5 + e6.len();
    let p7 = p6 + e7.len();
    let p8 = p7 + e8.len();
    let p9 = p8 + e9.len();
    let p10 = p9 + e10.len();
    assert(d.subrange(p9, p10) =~= e10) by {
        assert forall|j: int| 0 <= j < e10.len() implies d.subrange(p9, p10)[j] == e10[j] by {
            assert(d.subrange(p0, p10)[p9 - p0 + j] == ((e1 + e2 + e3 + e4 + e5 + e6 + e7 + e8 + e9) + e10)[p9 - p0 + j]);
        }
    }
    assert(d.subrange(p0, p9) =~= (e1 + e2 + e3 + e4 + e5 + e6 + e7 + e8 + e9)) by {
        assert forall|j: int| 0 <= j < p9 - p0 implies d.subrange(p0, p9)[j] == (e1 + e2 + e3 + e4 + e5 + e6 + e7 + e8 + e9)[j] by {
            assert(d.subrange(p0, p10)[j] == ((e1 + e2 + e3 + e4 + e5 + e6 + e7 + e8 + e9) + e10)[j]);
        }
    }
    assert(d.subrange(p8, p9) =~= e9) by {
        assert forall|j: int| 0 <= j < e9.len() implies d.subrange(p8, p9)[j] == e9[j] by {
            assert(d.subrange(p0, p9)[p8 - p0 + j] == ((e1 + e2 + e3 + e4 + e5 + e6 + e7 + e8) + e9)[p8 - p0 + j]);
        }
    }
    assert(d.subrange(p0, p8) =~= (e1 + e2 + e3 + e4 + e5 + e6 + e7 + e8)) by {
        assert forall|j: int| 0 <= j < p8 - p0 implies d.subrange(p0, p8)[j] == (e1 + e2 + e3 + e4 + e5 + e6 + e7 + e8)[j] by {
            assert(d.subrange(p0, p9)[j] == ((e1 + e2 + e3 + e4 + e5 + e6 + e7 + e8) + e9)[j]);
        }
    }
    assert(d.subrange(p7, p8) =~= e8) by {
        assert forall|j: int| 0 <= j < e8.len() implies d.subrange(p7, p8)[j] == e8[j] by {
            assert(d.subrange(p0, p8)[p7 - p0 + j] == ((e1 + e2 + e3 + e4 + e5 + e6 + e7) + e8)[p7 - p0 + j]);
        }
    }
    assert(d.subrange(p0, p7) =~= (e1 + e2 + e3 + e4 + e5 + e6 + e7)) by {
        assert forall|j: int| 0 <= j < p7 - p0 implies d.subrange(p0, p7)[j] == (e1 + e2 + e3 + e4 + e5 + e6 + e7)[j] by {
            assert(d.subrange(p0, p8)[j] == ((e1 + e2 + e3 + e4 + e5 + e6 + e7) + e8)[j]);
        }
    }
}

#[verifier::rlimit(100)]
#[verifier::spinoff_prover]
proof fn lemma_peel_ibc_head(d: Seq<u8>, pos: int, m: IbcTransferMsgV)
    requires
        0 <= pos,
        ibc_transfer_msg_fits(m),
        pos + enc_string(m.source).len() + enc_string(m.receiver).len() + enc_string(m.token).len() + enc_string(m.amount).len() + enc_string(m.port_id).len() + enc_string(m.channel_id).len() + enc_opt_u64(m.timeout_height).len() <= d.len(),
        d.subrange(pos, pos + enc_string(m.source).len() + enc_string(m.receiver).len() + enc_string(m.token).len() + enc_string(m.amount).len() + enc_string(m.port_id).len() + enc_string(m.channel_id).len() + enc_opt_u64(m.timeout_height).len()) == (enc_string(m.source) + enc_string(m.receiver) + enc_string(m.token) + enc_string(m.amount) + enc_string(m.port_id) + enc_string(m.channel_id) + enc_opt_u64(m.timeout_height)),
    ensures
        d.subrange(pos, pos + enc_string(m.source).len()) == enc_string(m.source),
        d.subrange(pos + enc_string(m.source).len(), pos + enc_string(m.source).len() + enc_string(m.receiver).len()) == enc_string(m.receiver),
        d.subrange(pos + enc_string(m.source).len() + enc_string(m.receiver).len(), pos + enc_string(m.source).len() + enc_string(m.receiver).len() + enc_string(m.token).len()) == enc_string(m.token),
        d.subrange(pos + enc_string(m.source).len() + enc_string(m.receiver).len() + enc_string(m.token).len(), pos + enc_string(m.source).len() + enc_string(m.receiver).len() + enc_string(m.token).len() + enc_string(m.amount).len()) == enc_string(m.amount),
        d.subrange(pos + enc_string(m.source).len() + enc_string(m.receiver).len() + enc_string(m.token).len() + enc_string(m.amount).len(), pos + enc_string(m.source).len() + enc_string(m.receiver).len() + enc_string(m.token).len() + enc_string(m.amount).len() + enc_string(m.port_id).len()) == enc_string(m.port_id),
        d.subrange(pos + enc_string(m.source).len() + enc_string(m.receiver).len() + enc_string(m.token).len() + enc_string(m.amount).len() + enc_string(m.port_id).len(), pos + enc_string(m.source).len() + enc_string(m.receiver).len() + enc_string(m.token).len() + enc_string(m.amount).len() + enc_string(m.port_id).len() + enc_string(m.channel_id).len()) == enc_string(m.channel_id),
        d.subrange(pos + enc_string(m.source).len() + enc_string(m.receiver).len() + enc_string(m.token).len() + enc_string(m.amount).len() + enc_string(m.port_id).len() + enc_string(m.channel_id).len(), pos + enc_string(m.source).len() + enc_string(m.receiver).len() + enc_string(m.token).len() + enc_string(m.amount).len() + enc_string(m.port_id).len() + enc_string(m.channel_id).len() + enc_opt_u64(m.timeout_height).len()) == enc_opt_u64(m.timeout_height),
{
    let e1 = enc_string(m.source);
    let e2 = enc_string(m.receiver);
    let e3 = enc_string(m.token);
    let e4 = enc_string(m.amount);
    let e5 = enc_string(m.port_id);
    let e6 = enc_string(m.channel_id);
    let e7 = enc_opt_u64(m.timeout_height);
    let p0 = pos;
    let p1 = p0 + e1.len();
    let p2 = p1 + e2.len();
    let p3 = p2 + e3.len();
    let p4 = p3 + e4.len();
    let p5 = p4 + e5.len();
    let p6 = p5 + e6.len();
    let p7 = p6 + e7.len();
    assert(d.subrange(p6, p7) =~= e7) by {
        assert forall|j: int| 0 <= j < e7.len() implies d.subrange(p6, p7)[j] == e7[j] by {
            assert(d.subrange(p0, p7)[p6 - p0 + j] == ((e1 + e2 + e3 + e4 + e5 + e6) + e7)[p6 - p0 + j]);
        }
    }
    assert(d.subrange(p0, p6) =~= (e1 + e2 + e3 + e4 + e5 + e6)) by {
        assert forall|j: int| 0 <= j < p6 - p0 implies d.subrange(p0, p6)[j] == (e1 + e2 + e3 + e4 + e5 + e6)[j] by {
            assert(d.subrange(p0, p7)[j] == ((e1 + e2 + e3 + e4 + e5 + e6) + e7)[j]);
        }
    }
    assert(d.subrange(p5, p6) =~= e6) by {
        assert forall|j: int| 0 <= j < e6.len() implies d.subrange(p5, p6)[j] == e6[j] by {
            assert(d.subrange(p0, p6)[p5 - p0 + j] == ((e1 + e2 + e3 + e4 + e5) + e6)[p5 - p0 + j]);
        }
    }
    assert(d.subrange(p0, p5) =~= (e1 + e2 + e3 + e4 + e5)) by {
        assert forall|j: int| 0 <= j < p5 - p0 implies d.subrange(p0, p5)[j] == (e1 + e2 + e3 + e4 + e5)[j] by {
            assert(d.subrange(p0, p6)[j] == ((e1 + e2 + e3 + e4 + e5) + e6)[j]);
        }
    }
    assert(d.subrange(p4, p5) =~= e5) by {
        assert forall|j: int| 0 <= j < e5.len() implies d.subrange(p4, p5)[j] == e5[j] by {
            assert(d.subrange(p0, p5)[p4 - p0 + j] == ((e1 + e2 + e3 + e4) + e5)[p4 - p0 + j]);
        }
    }
    assert(d.subrange(p0, p4) =~= (e1 + e2 + e3 + e4)) by {
        assert forall|j: int| 0 <= j < p4 - p0 implies d.subrange(p0, p4)[j] == (e1 + e2 + e3 + e4)[j] by {
            assert(d.subrange(p0, p5)[j] == ((e1 + e2 + e3 + e4) + e5)[j]);
        }
    }
    assert(d.subrange(p3, p4) =~= e4) by {
        assert forall|j: int| 0 <= j < e4.len() implies d.subrange(p3, p4)[j] == e4[j] by {
            assert(d.subrange(p0, p4)[p3 - p0 + j] == ((e1 + e2 + e3) + e4)[p3 - p0 + j]);
        }
    }
    assert(d.subrange(p0, p3) =~= (e1 + e2 + e3)) by {
        assert forall|j: int| 0 <= j < p3 - p0 implies d.subrange(p0, p3)[j] == (e1 + e2 + e3)[j] by {
            assert(d.subrange(p0, p4)[j] == ((e1 + e2 + e3) + e4)[j]);
        }
    }
    assert(d.subrange(p2, p3) =~= e3) by {
        assert forall|j: int| 0 <= j < e3.len() implies d.subrange(p2, p3)[j] == e3[j] by {
            assert(d.subrange(p0, p3)[p2 - p0 + j] == ((e1 + e2) + e3)[p2 - p0 + j]);
        }
    }
    assert(d.subrange(p0, p2) =~= (e1 + e2)) by {
        assert forall|j: int| 0 <= j < p2 - p0 implies d.subrange(p0, p2)[j] == (e1 + e2)[j] by {
            assert(d.subrange(p0, p3)[j] == ((e1 + e2) + e3)[j]);
        }
    }
    assert(d.subrange(p1, p2) =~= e2) by {
        assert forall|j: int| 0 <= j < e2.len() implies d.subrange(p1, p2)[j] == e2[j] by {
            assert(d.subrange(p0, p2)[p1 - p0 + j] == ((e1) + e2)[p1 - p0 + j]);
        }
    }
    assert(d.subrange(p0, p1) =~= (e1)) by {
        assert forall|j: int| 0 <= j < p1 - p0 implies d.subrange(p0, p1)[j] == (e1)[j] by {
            assert(d.subrange(p0, p2)[j] == ((e1) + e2)[j]);
        }
    }
}

#[verifier::rlimit(100)]
#[verifier::spinoff_prover]
pub proof fn lemma_read_enc_ibc_transfer_msg(d: Seq<u8>, pos: int, m: IbcTransferMsgV)
    requires
        0 <= pos,
        ibc_transfer_msg_fits(m),
        pos + enc_ibc_transfer_msg(m).len() <= d.len(),
        d.subrange(pos, pos + enc_ibc_transfer_msg(m).len()) == enc_ibc_transfer_msg(m),
    ensures
        sp_read_ibc_transfer_msg(d, pos) == Some((m, pos + enc_ibc_transfer_msg(m).len())),
{
    lemma_peel_ibc_tail(d, pos, m);
    lemma_peel_ibc_head(d, pos, m);
    lemma_read_enc_string(d, pos, m.source);
    lemma_read_enc_string(d, pos + enc_string(m.source).len(), m.receiver);
    lemma_read_enc_string(d, pos + enc_string(m.source).len() + enc_string(m.receiver).len(), m.token);
    lemma_read_enc_string(d, pos + enc_string(m.source).len() + enc_string(m.receiver).len() + enc_string(m.token).len(), m.amount);
    lemma_read_enc_string(d, pos + enc_string(m.source).len() + enc_string(m.receiver).len() + enc_string(m.token).len() + enc_string(m.amount).len(), m.port_id);
    lemma_read_enc_string(d, pos + enc_string(m.source).len() + enc_string(m.receiver).len() + enc_string(m.token).len() + enc_string(m.amount).len() + enc_string(m.port_id).len(), m.channel_id);
    lemma_read_enc_opt_u64(d, pos + enc_string(m.source).len() + enc_string(m.receiver).len() + enc_string(m.token).len() + enc_string(m.amount).len() + enc_string(m.port_id).len() + enc_string(m.channel_id).len(), m.timeout_height);
    lemma_read_enc_opt_u64(d, pos + enc_string(m.source).len() + enc_string(m.receiver).len() + enc_string(m.token).len() + enc_string(m.amount).len() + enc_string(m.port_id).len() + enc_string(m.channel_id).len() + enc_opt_u64(m.timeout_height).len(), m.timeout_sec_offset);
    lemma_read_enc_opt_string(d, pos + enc_string(m.source).len() + enc_string(m.receiver).len() + enc_string(m.token).len() + enc_string(m.amount).len() + enc_string(m.port_id).len() + enc_string(m.channel_id).len() + enc_opt_u64(m.timeout_height).len() + enc_opt_u64(m.timeout_sec_offset).len(), m.memo);
    lemma_read_enc_opt_bytes(d, pos + enc_string(m.source).len() + enc_string(m.receiver).len() + enc_string(m.token).len() + enc_string(m.amount).len() + enc_string(m.port_id).len() + enc_string(m.channel_id).len() + enc_opt_u64(m.timeout_height).len() + enc_opt_u64(m.timeout_sec_offset).len() + enc_opt_string(m.memo).len(), m.shielding_data);
    assert((IbcTransferMsgV { source: m.source, receiver: m.receiver, token: m.token, amount: m.amount, port_id: m.port_id, channel_id: m.channel_id, timeout_height: m.timeout_height, timeout_sec_offset: m.timeout_sec_offset, memo: m.memo, shielding_data: m.shielding_data }) =~= m);
}

/// Decoding an encoded `IbcTransferMsg` yields the message back, exactly.
#[verifier::rlimit(80)]
pub proof fn lemma_ibc_transfer_msg_round_trip(m: IbcTransferMsgV)
    requires
        ibc_transfer_msg_fits(m),
    ensures
        sp_ibc_transfer_msg(enc_ibc_transfer_msg(m)) == Some(m),
{
    let d = enc_ibc_transfer_msg(m);
    assert(d.subrange(0, d.len() as int) =~= d);
    lemma_read_enc_ibc_transfer_msg(d, 0, m);
}

pub fn read_ibc_transfer_msg(d: &[u8], pos: usize) -> (r: Option<(IbcTransferMsg, usize)>)
    requires
        pos <= d@.len(),
    ensures
        match r {
            Some((m, p)) => sp_read_ibc_transfer_msg(d@, pos as int) == Some((m@, p as int)) && p
                <= d@.len(),
            None => sp_read_ibc_transfer_msg(d@, pos as int) is None,
        },
{
    let (x_source, pos1) = match read_text(d, pos) {
        Some(x) => x,
        None => {
            return None;
        },
    };
    let (x_receiver, pos2) = match read_text(d, pos1) {
        Some(x) => x,
        None => {
            return None;
        },
    };
    let (x_token, pos3) = match read_text(d, pos2) {
        Some(x) => x,
        None => {
            return None;
        },
    };
    let (x_amount, pos4) = match read_text(d, pos3) {
        Some(x) => x,
        None => {
            return None;
        },
    };
    let (x_port_id, pos5) = match read_text(d, pos4) {
        Some(x) => x,
        None => {
            return None;
        },
    };
    let (x_channel_id, pos6) = match read_text(d, pos5) {
        Some(x) => x,
        None => {
            return None;
        },
    };
    let (x_timeout_height, pos7) = match read_opt_u64(d, pos6) {
        Some(x) => x,
        None => {
            return None;
        },
    };
    let (x_timeout_sec_offset, pos8) = match read_opt_u64(d, pos7) {
        Some(x) => x,
        None => {
            return None;
        },
    };
    let (x_memo, pos9) = match read_opt_text(d, pos8) {
        Some(x) => x,
        None => {
            return None;
        },
    };
    let (x_shielding_data, pos10) = match read_opt_byte_string(d, pos9) {
        Some(x) => x,
        None => {
            return None;
        },
    };
    Some((IbcTransferMsg { source: x_source, receiver: x_receiver, token: x_token, amount: x_amount, port_id: x_port_id, channel_id: x_channel_id, timeout_height: x_timeout_height, timeout_sec_offset: x_timeout_sec_offset, memo: x_memo, shielding_data: x_shielding_data }, pos10))
}

#[verifier::rlimit(100)]
#[verifier::spinoff_prover]
pub fn write_ibc_transfer_msg(out: &mut Vec<u8>, m: &IbcTransferMsg)
    requires
        ibc_transfer_msg_fits(m@),
    ensures
        final(out)@ == old(out)@ + enc_ibc_transfer_msg(m@),
{
    write_text(out, m.source.as_str());
    proof {
        assert(out@ =~= old(out)@ + (enc_string(m@.source)));
    }
    write_text(out, m.receiver.as_str());
    proof {
        assert(out@ =~= old(out)@ + (enc_string(m@.source) + enc_string(m@.receiver)));
    }
    write_text(out, m.token.as_str());
    proof {
        assert(out@ =~= old(out)@ + (enc_string(m@.source) + enc_string(m@.receiver) + enc_string(m@.token)));
    }
    write_text(out, m.amount.as_str());
    proof {
        assert(out@ =~= old(out)@ + (enc_string(m@.source) + enc_string(m@.receiver) + enc_string(m@.token) + enc_string(m@.amount)));
    }
    write_text(out, m.port_id.as_str());
    proof {
        assert(out@ =~= old(out)@ + (enc_string(m@.source) + enc_string(m@.receiver) + enc_string(m@.token) + enc_string(m@.amount) + enc_string(m@.port_id)));
    }
    write_text(out, m.channel_id.as_str());
    proof {
        assert(out@ =~= old(out)@ + (enc_string(m@.source) + enc_string(m@.receiver) + enc_string(m@.token) + enc_string(m@.amount) + enc_string(m@.port_id) + enc_string(m@.channel_id)));
    }
    write_opt_u64(out, &m.timeout_height);
    proof {
        assert(out@ =~= old(out)@ + (enc_string(m@.source) + enc_string(m@.receiver) + enc_string(m@.token) + enc_string(m@.amount) + enc_string(m@.port_id) + enc_string(m@.channel_id) + enc_opt_u64(m@.timeout_height)));
    }
    write_opt_u64(out, &m.timeout_sec_offset);
    proof {
        assert(out@ =~= old(out)@ + (enc_string(m@.source) + enc_string(m@.receiver) + enc_string(m@.token) + enc_string(m@.amount) + enc_string(m@.port_id) + enc_string(m@.channel_id) + enc_opt_u64(m@.timeout_height) + enc_opt_u64(m@.timeout_sec_offset)));
    }
    write_opt_text(out, &m.memo);
    proof {
        assert(out@ =~= old(out)@ + (enc_string(m@.source) + enc_string(m@.receiver) + enc_string(m@.token) + enc_string(m@.amount) + enc_string(m@.port_id) + enc_string(m@.channel_id) + enc_opt_u64(m@.timeout_height) + enc_opt_u64(m@.timeout_sec_offset) + enc_opt_string(m@.memo)));
    }
    write_opt_byte_string(out, &m.shielding_data);
    proof {
        assert(out@ =~= old(out)@ + (enc_string(m@.source) + enc_string(m@.receiver) + enc_string(m@.token) + enc_string(m@.amount) + enc_string(m@.port_id) + enc_string(m@.channel_id) + enc_opt_u64(m@.timeout_height) + enc_opt_u64(m@.timeout_sec_offset) + enc_opt_string(m@.memo) + enc_opt_bytes(m@.shielding_data)));
    }
}

#[derive(Debug)]
pub struct EthBridgeTransferMsg {
    pub nut: bool,
    pub asset: String,
    pub recipient: String,
    pub sender: String,
    pub amount: String,
    pub fee_amount: String,
    pub fee_payer: Option<String>,
    pub fee_token: String,
}

#[verifier::ext_equal]
pub struct EthBridgeTransferMsgV {
    pub nut: bool,
    pub asset: Seq<char>,
    pub recipient: Seq<char>,
    pub sender: Seq<char>,
    pub amount: Seq<char>,
    pub fee_amount: Seq<char>,
    pub fee_payer: Option<Seq<char>>,
    pub fee_token: Seq<char>,
}

impl View for EthBridgeTransferMsg {
    type V = EthBridgeTransferMsgV;

    open spec fn view(&self) -> EthBridgeTransferMsgV {
        EthBridgeTransferMsgV {
            nut: self.nut,
            asset: self.asset@,
            recipient: self.recipient@,
            sender: self.sender@,
            amount: self.amount@,
            fee_amount: self.fee_amount@,
            fee_payer: view_opt_string(self.fee_payer),
            fee_token: self.fee_token@,
        }
    }
}

impl EthBridgeTransferMsg {
    pub fn new(nut: bool, asset: String, recipient: String, sender: String, amount: String, fee_amount: String, fee_payer: Option<String>, fee_token: String) -> (r: EthBridgeTransferMsg)
        ensures
            r@ == (EthBridgeTransferMsgV {
                nut: nut,
                asset: asset@,
                recipient: recipient@,
                sender: sender@,
                amount: amount@,
                fee_amount: fee_amount@,
                fee_payer: view_opt_string(fee_payer),
                fee_token: fee_token@,
            }),
    {
        EthBridgeTransferMsg { nut, asset, recipient, sender, amount, fee_amount, fee_payer, fee_token }
    }

    /// Decodes one whole payload; trailing bytes are a decode failure.
    pub fn try_from_slice(d: &[u8]) -> (r: Result<EthBridgeTransferMsg, ArgError>)
        ensures
            r is Ok <==> sp_eth_bridge_transfer_msg(d@) is Some,
            r matches Ok(m) ==> sp_eth_bridge_transfer_msg(d@) == Some(m@),
            r matches Err(e) ==> e == ArgError::DecodeError,
    {
        match read_eth_bridge_transfer_msg(d, 0) {
            Some((m, p)) => {
                if p == d.len() {
                    Ok(m)
                } else {
                    Err(ArgError::DecodeError)
                }
            },
            None => Err(ArgError::DecodeError),
        }
    }

    pub fn to_bytes(&self) -> (r: Vec<u8>)
        requires
            eth_bridge_transfer_msg_fits(self@),
        ensures
            r@ == enc_eth_bridge_transfer_msg(self@),
    {
        let mut out: Vec<u8> = Vec::new();
        write_eth_bridge_transfer_msg(&mut out, self);
        proof {
            assert(out@ =~= enc_eth_bridge_transfer_msg(self@));
        }
        out
    }
}

pub open spec fn enc_eth_bridge_transfer_msg(m: EthBridgeTransferMsgV) -> Seq<u8> {
    enc_bool(m.nut) + enc_string(m.asset) + enc_string(m.recipient) + enc_string(m.sender) + enc_string(m.amount) + enc_string(m.fee_amount) + enc_opt_string(m.fee_payer) + enc_string(m.fee_token)
}

pub open spec fn eth_bridge_transfer_msg_fits(m: EthBridgeTransferMsgV) -> bool {
    fits_u32(encode_utf8(m.asset).len()) && fits_u32(encode_utf8(m.recipient).len()) && fits_u32(encode_utf8(m.sender).len()) && fits_u32(encode_utf8(m.amount).len()) && fits_u32(encode_utf8(m.fee_amount).len()) && opt_string_fits(m.fee_payer) && fits_u32(encode_utf8(m.fee_token).len())
}

pub open spec fn sp_read_eth_bridge_transfer_msg(d: Seq<u8>, pos: int) -> Option<(EthBridgeTransferMsgV, int)> {
    match sp_read_bool(d, pos) {
        None => None,
        Some((x_nut, pos1)) => {
            match sp_read_string(d, pos1) {
                None => None,
                Some((x_asset, pos2)) => {
                    match sp_read_string(d, pos2) {
                        None => None,
                        Some((x_recipient, pos3)) => {
                            match sp_read_string(d, pos3) {
                                None => None,
                                Some((x_sender, pos4)) => {
                                    match sp_read_string(d, pos4) {
                                        None => None,
                                        Some((x_amount, pos5)) => {
                                            match sp_read_string(d, pos5) {
                                                None => None,
                                                Some((x_fee_amount, pos6)) => {
                                                    match sp_read_opt_string(d, pos6) {
                                                        None => None,
                                                        Some((x_fee_payer, pos7)) => {
                                                            match sp_read_string(d, pos7) {
                                                                None => None,
                                                                Some((x_fee_token, pos8)) => {
                                                                    Some(
                                                                        (EthBridgeTransferMsgV { nut: x_nut, asset: x_asset, recipient: x_recipient, sender: x_sender, amount: x_amount, fee_amount: x_fee_amount, fee_payer: x_fee_payer, fee_token: x_fee_token }, pos8),
                                                                    )
                                                                },
                                                            }
                                                        },
                                                    }
                                                },
                                            }
                                        },
                                    }
                                },
                            }
                        },
                    }
                },
            }
        },
    }
}

pub open spec fn sp_eth_bridge_transfer_msg(d: Seq<u8>) -> Option<EthBridgeTransferMsgV> {
    match sp_read_eth_bridge_transfer_msg(d, 0) {
        Some((m, p)) => if p == d.len() {
            Some(m)
        } else {
            None
        },
        None => None,
    }
}

#[verifier::rlimit(100)]
#[verifier::spinoff_prover]
pub proof fn lemma_read_enc_eth_bridge_transfer_msg(d: Seq<u8>, pos: int, m: EthBridgeTransferMsgV)
    requires
        0 <= pos,
        eth_bridge_transfer_msg_fits(m),
        pos + enc_eth_bridge_transfer_msg(m).len() <= d.len(),
        d.subrange(pos, pos + enc_eth_bridge_transfer_msg(m).len()) == enc_eth_bridge_transfer_msg(m),
    ensures
        sp_read_eth_bridge_transfer_msg(d, pos) == Some((m, pos + enc_eth_bridge_transfer_msg(m).len())),
{
    let e1 = enc_bool(m.nut);
    let e2 = enc_string(m.asset);
    let e3 = enc_string(m.recipient);
    let e4 = enc_string(m.sender);
    let e5 = enc_string(m.amount);
    let e6 = enc_string(m.fee_amount);
    let e7 = enc_opt_string(m.fee_payer);
    let e8 = enc_string(m.fee_token);
    let p0 = pos;
    let p1 = p0 + e1.len();
    let p2 = p1 + e2.len();
    let p3 = p2 + e3.len();
    let p4 = p3 + e4.len();
    let p5 = p4 + e5.len();
    let p6 = p5 + e6.len();
    let p7 = p6 + e7.len();
    let p8 = p7 + e8.len();
    assert(d.subrange(p7, p8) =~= e8) by {
        assert forall|j: int| 0 <= j < e8.len() implies d.subrange(p7, p8)[j] == e8[j] by {
            assert(d.subrange(p0, p8)[p7 - p0 + j] == ((e1 + e2 + e3 + e4 + e5 + e6 + e7) + e8)[p7 - p0 + j]);
        }
    }
    assert(d.subrange(p0, p7) =~= (e1 + e2 + e3 + e4 + e5 + e6 + e7)) by {
        assert forall|j: int| 0 <= j < p7 - p0 implies d.subrange(p0, p7)[j] == (e1 + e2 + e3 + e4 + e5 + e6 + e7)[j] by {
            assert(d.subrange(p0, p8)[j] == ((e1 + e2 + e3 + e4 + e5 + e6 + e7) + e8)[j]);
        }
    }
    assert(d.subrange(p6, p7) =~= e7) by {
        assert forall|j: int| 0 <= j < e7.len() implies d.subrange(p6, p7)[j] == e7[j] by {
            assert(d.subrange(p0, p7)[p6 - p0 + j] == ((e1 + e2 + e3 + e4 + e5 + e6) + e7)[p6 - p0 + j]);
        }
    }
    assert(d.subrange(p0, p6) =~= (e1 + e2 + e3 + e4 + e5 + e6)) by {
        assert forall|j: int| 0 <= j < p6 - p0 implies d.subrange(p0, p6)[j] == (e1 + e2 + e3 + e4 + e5 + e6)[j] by {
            assert(d.subrange(p0, p7)[j] == ((e1 + e2 + e3 + e4 + e5 + e6) + e7)[j]);
        }
    }
    assert(d.subrange(p5, p6) =~= e6) by {
        assert forall|j: int| 0 <= j < e6.len() implies d.subrange(p5, p6)[j] == e6[j] by {
            assert(d.subrange(p0, p6)[p5 - p0 + j] == ((e1 + e2 + e3 + e4 + e5) + e6)[p5 - p0 + j]);
        }
    }
    assert(d.subrange(p0, p5) =~= (e1 + e2 + e3 + e4 + e5)) by {
        assert forall|j: int| 0 <= j < p5 - p0 implies d.subrange(p0, p5)[j] == (e1 + e2 + e3 + e4 + e5)[j] by {
            assert(d.subrange(p0, p6)[j] == ((e1 + e2 + e3 + e4 + e5) + e6)[j]);
        }
    }
    assert(d.subrange(p4, p5) =~= e5) by {
        assert forall|j: int| 0 <= j < e5.len() implies d.subrange(p4, p5)[j] == e5[j] by {
            assert(d.subrange(p0, p5)[p4 - p0 + j] == ((e1 + e2 + e3 + e4) + e5)[p4 - p0 + j]);
        }
    }
    assert(d.subrange(p0, p4) =~= (e1 + e2 + e3 + e4)) by {
        assert forall|j: int| 0 <= j < p4 - p0 implies d.subrange(p0, p4)[j] == (e1 + e2 + e3 + e4)[j] by {
            assert(d.subrange(p0, p5)[j] == ((e1 + e2 + e3 + e4) + e5)[j]);
        }
    }
    assert(d.subrange(p3, p4) =~= e4) by {
        assert forall|j: int| 0 <= j < e4.len() implies d.subrange(p3, p4)[j] == e4[j] by {
            assert(d.subrange(p0, p4)[p3 - p0 + j] == ((e1 + e2 + e3) + e4)[p3 - p0 + j]);
        }
    }
    assert(d.subrange(p0, p3) =~= (e1 + e2 + e3)) by {
        assert forall|j: int| 0 <= j < p3 - p0 implies d.subrange(p0, p3)[j] == (e1 + e2 + e3)[j] by {
            assert(d.subrange(p0, p4)[j] == ((e1 + e2 + e3) + e4)[j]);
        }
    }
    assert(d.subrange(p2, p3) =~= e3) by {
        assert forall|j: int| 0 <= j < e3.len() implies d.subrange(p2, p3)[j] == e3[j] by {
            assert(d.subrange(p0, p3)[p2 - p0 + j] == ((e1 + e2) + e3)[p2 - p0 + j]);
        }
    }
    assert(d.subrange(p0, p2) =~= (e1 + e2)) by {
        assert forall|j: int| 0 <= j < p2 - p0 implies d.subrange(p0, p2)[j] == (e1 + e2)[j] by {
            assert(d.subrange(p0, p3)[j] == ((e1 + e2) + e3)[j]);
        }
    }
    assert(d.subrange(p1, p2) =~= e2) by {
        assert forall|j: int| 0 <= j < e2.len() implies d.subrange(p1, p2)[j] == e2[j] by {
            assert(d.subrange(p0, p2)[p1 - p0 + j] == ((e1) + e2)[p1 - p0 + j]);
        }
    }
    assert(d.subrange(p0, p1) =~= (e1)) by {
        assert forall|j: int| 0 <= j < p1 - p0 implies d.subrange(p0, p1)[j] == (e1)[j] by {
            assert(d.subrange(p0, p2)[j] == ((e1) + e2)[j]);
        }
    }
    lemma_read_enc_bool(d, p0, m.nut);
    lemma_read_enc_string(d, p1, m.asset);
    lemma_read_enc_string(d, p2, m.recipient);
    lemma_read_enc_string(d, p3, m.sender);
    lemma_read_enc_string(d, p4, m.amount);
    lemma_read_enc_string(d, p5, m.fee_amount);
    lemma_read_enc_opt_string(d, p6, m.fee_payer);
    lemma_read_enc_string(d, p7, m.fee_token);
    assert((EthBridgeTransferMsgV { nut: m.nut, asset: m.asset, recipient: m.recipient, sender: m.sender, amount: m.amount, fee_amount: m.fee_amount, fee_payer: m.fee_payer, fee_token: m.fee_token }) =~= m);
}

/// Decoding an encoded `EthBridgeTransferMsg` yields the message back, exactly.
#[verifier::rlimit(80)]
pub proof fn lemma_eth_bridge_transfer_msg_round_trip(m: EthBridgeTransferMsgV)
    requires
        eth_bridge_transfer_msg_fits(m),
    ensures
        sp_eth_bridge_transfer_msg(enc_eth_bridge_transfer_msg(m)) == Some(m),
{
    let d = enc_eth_bridge_transfer_msg(m);
    assert(d.subrange(0, d.len() as int) =~= d);
    lemma_read_enc_eth_bridge_transfer_msg(d, 0, m);
}

pub fn read_eth_bridge_transfer_msg(d: &[u8], pos: usize) -> (r: Option<(EthBridgeTransferMsg, usize)>)
    requires
        pos <= d@.len(),
    ensures
        match r {
            Some((m, p)) => sp_read_eth_bridge_transfer_msg(d@, pos as int) == Some((m@, p as int)) && p
                <= d@.len(),
            None => sp_read_eth_bridge_transfer_msg(d@, pos as int) is None,
        },
{
    let (x_nut, pos1) = match read_bool(d, pos) {
        Some(x) => x,
        None => {
            return None;
        },
    };
    let (x_asset, pos2) = match read_text(d, pos1) {
        Some(x) => x,
        None => {
            return None;
        },
    };
    let (x_recipient, pos3) = match read_text(d, pos2) {
        Some(x) => x,
        None => {
            return None;
        },
    };
    let (x_sender, pos4) = match read_text(d, pos3) {
        Some(x) => x,
        None => {
            return None;
        },
    };
    let (x_amount, pos5) = match read_text(d, pos4) {
        Some(x) => x,
        None => {
            return None;
        },
    };
    let (x_fee_amount, pos6) = match read_text(d, pos5) {
        Some(x) => x,
        None => {
            return None;
        },
    };
    let (x_fee_payer, pos7) = match read_opt_text(d, pos6) {
        Some(x) => x,
        None => {
            return None;
        },
    };
    let (x_fee_token, pos8) = match read_text(d, pos7) {
        Some(x) => x,
        None => {
            return None;
        },
    };
    Some((EthBridgeTransferMsg { nut: x_nut, asset: x_asset, recipient: x_recipient, sender: x_sender, amount: x_amount, fee_amount: x_fee_amount, fee_payer: x_fee_payer, fee_token: x_fee_token }, pos8))
}

#[verifier::rlimit(80)]
pub fn write_eth_bridge_transfer_msg(out: &mut Vec<u8>, m: &EthBridgeTransferMsg)
    requires
        eth_bridge_transfer_msg_fits(m@),
    ensures
        final(out)@ == old(out)@ + enc_eth_bridge_transfer_msg(m@),
{
    write_bool(out, m.nut);
    proof {
        assert(out@ =~= old(out)@ + (enc_bool(m@.nut)));
    }
    write_text(out, m.asset.as_str());
    proof {
        assert(out@ =~= old(out)@ + (enc_bool(m@.nut) + enc_string(m@.asset)));
    }
    write_text(out, m.recipient.as_str());
    proof {
        assert(out@ =~= old(out)@ + (enc_bool(m@.nut) + enc_string(m@.asset) + enc_string(m@.recipient)));
    }
    write_text(out, m.sender.as_str());
    proof {
        assert(out@ =~= old(out)@ + (enc_bool(m@.nut) + enc_string(m@.asset) + enc_string(m@.recipient) + enc_string(m@.sender)));
    }
    write_text(out, m.amount.as_str());
    proof {
        assert(out@ =~= old(out)@ + (enc_bool(m@.nut) + enc_string(m@.asset) + enc_string(m@.recipient) + enc_string(m@.sender) + enc_string(m@.amount)));
    }
    write_text(out, m.fee_amount.as_str());
    proof {
        assert(out@ =~= old(out)@ + (enc_bool(m@.nut) + enc_string(m@.asset) + enc_string(m@.recipient) + enc_string(m@.sender) + enc_string(m@.amount) + enc_string(m@.fee_amount)));
    }
    write_opt_text(out, &m.fee_payer);
    proof {
        assert(out@ =~= old(out)@ + (enc_bool(m@.nut) + enc_string(m@.asset) + enc_string(m@.recipient) + enc_string(m@.sender) + enc_string(m@.amount) + enc_string(m@.fee_amount) + enc_opt_string(m@.fee_payer)));
    }
    write_text(out, m.fee_token.as_str());
    proof {
        assert(out@ =~= old(out)@ + (enc_bool(m@.nut) + enc_string(m@.asset) + enc_string(m@.recipient) + enc_string(m@.sender) + enc_string(m@.amount) + enc_string(m@.fee_amount) + enc_opt_string(m@.fee_payer) + enc_string(m@.fee_token)));
    }
}

} // verus!
