use vstd::prelude::*;

verus! {

use vstd::utf8::{valid_utf8, decode_utf8, encode_utf8};
use vstd::utf8::{encode_utf8_valid_utf8, encode_utf8_decode_utf8};
use vstd::slice::{slice_subrange, slice_to_vec};
use vstd::string::StrSliceExecFns;

/// The wire format of every payload this layer accepts: a fixed,
/// versionless, field-order-significant binary encoding.
///
/// Numbers are little endian; a byte string is a `u32` byte count followed
/// by the bytes; a text string is a byte string holding UTF-8; an optional
/// field is a tag byte `0` or `1` followed, when `1`, by the field; a
/// sequence is a `u32` element count followed by the elements. A payload
/// decodes only when it is consumed exactly, with no trailing bytes.
///
/// `enc_*` are the encoding functions; `sp_read_*` are the (total)
/// specification-level readers that every executable reader is proved
/// equal to.

// ---------------------------------------------------------------------------
// encoding specification
// ---------------------------------------------------------------------------


pub open spec fn enc_bool(v: bool) -> Seq<u8> {
    if v {
        seq![1u8]
    } else {
        seq![0u8]
    }
}

pub open spec fn enc_u32(v: u32) -> Seq<u8> {
    seq![
        (v % 256) as u8,
        ((v / 256) % 256) as u8,
        ((v / 0x10000) % 256) as u8,
        ((v / 0x1000000) % 256) as u8,
    ]
}

pub open spec fn enc_u64(v: u64) -> Seq<u8> {
    seq![
        (v % 256) as u8,
        ((v / 256) % 256) as u8,
        ((v / 0x10000) % 256) as u8,
        ((v / 0x1000000) % 256) as u8,
        ((v / 0x100000000) % 256) as u8,
        ((v / 0x10000000000) % 256) as u8,
        ((v / 0x1000000000000) % 256) as u8,
        ((v / 0x100000000000000) % 256) as u8,
    ]
}

/// A byte string fits the wire only when its length fits the `u32` prefix.
pub open spec fn fits_u32(n: nat) -> bool {
    n < 0x100000000
}

pub open spec fn enc_bytes(b: Seq<u8>) -> Seq<u8> {
    enc_u32(b.len() as u32) + b
}

pub open spec fn enc_string(s: Seq<char>) -> Seq<u8> {
    enc_bytes(encode_utf8(s))
}




// ---------------------------------------------------------------------------
// decoding specification
// ---------------------------------------------------------------------------

pub open spec fn dec_u32(b: Seq<u8>) -> u32
    recommends
        b.len() == 4,
{
    (b[0] + 256 * (b[1] as int) + 0x10000 * (b[2] as int) + 0x1000000 * (b[3] as int)) as u32
}

pub open spec fn dec_u64(b: Seq<u8>) -> u64
    recommends
        b.len() == 8,
{
    (b[0] + 256 * (b[1] as int) + 0x10000 * (b[2] as int) + 0x1000000 * (b[3] as int) + 0x100000000
        * (b[4] as int) + 0x10000000000 * (b[5] as int) + 0x1000000000000 * (b[6] as int)
        + 0x100000000000000 * (b[7] as int)) as u64
}

pub open spec fn sp_read_u8(d: Seq<u8>, pos: int) -> Option<(u8, int)> {
    if 0 <= pos && pos + 1 <= d.len() {
        Some((d[pos], pos + 1))
    } else {
        None
    }
}

pub open spec fn sp_read_bool(d: Seq<u8>, pos: int) -> Option<(bool, int)> {
    match sp_read_u8(d, pos) {
        Some((t, p)) => if t == 0 {
            Some((false, p))
        } else if t == 1 {
            Some((true, p))
        } else {
            None
        },
        None => None,
    }
}

pub open spec fn sp_read_u32(d: Seq<u8>, pos: int) -> Option<(u32, int)> {
    if 0 <= pos && pos + 4 <= d.len() {
        Some((dec_u32(d.subrange(pos, pos + 4)), pos + 4))
    } else {
        None
    }
}

pub open spec fn sp_read_u64(d: Seq<u8>, pos: int) -> Option<(u64, int)> {
    if 0 <= pos && pos + 8 <= d.len() {
        Some((dec_u64(d.subrange(pos, pos + 8)), pos + 8))
    } else {
        None
    }
}

pub open spec fn sp_read_bytes(d: Seq<u8>, pos: int) -> Option<(Seq<u8>, int)> {
    match sp_read_u32(d, pos) {
        Some((n, p)) => if p + n <= d.len() {
            Some((d.subrange(p, p + n), p + n))
        } else {
            None
        },
        None => None,
    }
}

pub open spec fn sp_read_string(d: Seq<u8>, pos: int) -> Option<(Seq<char>, int)> {
    match sp_read_bytes(d, pos) {
        Some((b, p)) => if valid_utf8(b) {
            Some((decode_utf8(b), p))
        } else {
            None
        },
        None => None,
    }
}




// ---------------------------------------------------------------------------
// primitive round trips
// ---------------------------------------------------------------------------

pub proof fn lemma_dec_enc_u32(v: u32)
    ensures
        enc_u32(v).len() == 4,
        dec_u32(enc_u32(v)) == v,
{
    assert(v == v % 256 + 256 * ((v / 256) % 256) + 0x10000 * ((v / 0x10000) % 256) + 0x1000000 * (
    (v / 0x1000000) % 256)) by (bit_vector);
}

pub proof fn lemma_dec_enc_u64(v: u64)
    ensures
        enc_u64(v).len() == 8,
        dec_u64(enc_u64(v)) == v,
{
    assert(v == v % 256 + 256 * ((v / 256) % 256) + 0x10000 * ((v / 0x10000) % 256) + 0x1000000 * (
    (v / 0x1000000) % 256) + 0x100000000 * ((v / 0x100000000) % 256) + 0x10000000000 * ((v
        / 0x10000000000) % 256) + 0x1000000000000 * ((v / 0x1000000000000) % 256)
        + 0x100000000000000 * ((v / 0x100000000000000) % 256)) by (bit_vector);
}

/// Reading at the start of an encoded `u32` yields the encoded value,
/// whatever follows it.
pub proof fn lemma_read_enc_u32(d: Seq<u8>, pos: int, v: u32)
    requires
        0 <= pos,
        pos + 4 <= d.len(),
        d.subrange(pos, pos + 4) == enc_u32(v),
    ensures
        sp_read_u32(d, pos) == Some((v, pos + 4)),
{
    lemma_dec_enc_u32(v);
}

pub proof fn lemma_read_enc_u64(d: Seq<u8>, pos: int, v: u64)
    requires
        0 <= pos,
        pos + 8 <= d.len(),
        d.subrange(pos, pos + 8) == enc_u64(v),
    ensures
        sp_read_u64(d, pos) == Some((v, pos + 8)),
{
    lemma_dec_enc_u64(v);
}

pub proof fn lemma_read_enc_bool(d: Seq<u8>, pos: int, v: bool)
    requires
        0 <= pos,
        pos + enc_bool(v).len() <= d.len(),
        d.subrange(pos, pos + enc_bool(v).len()) == enc_bool(v),
    ensures
        sp_read_bool(d, pos) == Some((v, pos + enc_bool(v).len())),
{
    assert(d[pos] == enc_bool(v)[0]);
}

pub proof fn lemma_read_enc_bytes(d: Seq<u8>, pos: int, b: Seq<u8>)
    requires
        0 <= pos,
        fits_u32(b.len()),
        pos + enc_bytes(b).len() <= d.len(),
        d.subrange(pos, pos + enc_bytes(b).len()) == enc_bytes(b),
    ensures
        sp_read_bytes(d, pos) == Some((b, pos + enc_bytes(b).len())),
{
    let n = b.len() as u32;
    let len = enc_bytes(b).len() as int;
    assert(d.subrange(pos, pos + 4) =~= enc_u32(n)) by {
        assert forall|i: int| 0 <= i < 4 implies d.subrange(pos, pos + 4)[i] == enc_u32(n)[i] by {
            assert(d.subrange(pos, pos + len)[i] == enc_bytes(b)[i]);
        }
    }
    lemma_read_enc_u32(d, pos, n);
    assert(d.subrange(pos + 4, pos + 4 + n) =~= b) by {
        assert forall|i: int| 0 <= i < b.len() implies d.subrange(pos + 4, pos + 4 + n)[i] == b[i] by {
            assert(d.subrange(pos, pos + len)[4 + i] == enc_bytes(b)[4 + i]);
            assert(enc_bytes(b)[4 + i] == b[i]);
        }
    }
}

pub proof fn lemma_read_enc_string(d: Seq<u8>, pos: int, s: Seq<char>)
    requires
        0 <= pos,
        fits_u32(encode_utf8(s).len()),
        pos + enc_string(s).len() <= d.len(),
        d.subrange(pos, pos + enc_string(s).len()) == enc_string(s),
    ensures
        sp_read_string(d, pos) == Some((s, pos + enc_string(s).len())),
{
    lemma_read_enc_bytes(d, pos, encode_utf8(s));
    encode_utf8_valid_utf8(s);
    encode_utf8_decode_utf8(s);
}

// ---------------------------------------------------------------------------
// executable readers
// ---------------------------------------------------------------------------

pub fn read_u8(d: &[u8], pos: usize) -> (r: Option<(u8, usize)>)
    requires
        pos <= d@.len(),
    ensures
        match r {
            Some((v, p)) => sp_read_u8(d@, pos as int) == Some((v, p as int)),
            None => sp_read_u8(d@, pos as int) is None,
        },
{
    if d.len() - pos >= 1 {
        Some((d[pos], pos + 1))
    } else {
        None
    }
}

pub fn read_bool(d: &[u8], pos: usize) -> (r: Option<(bool, usize)>)
    requires
        pos <= d@.len(),
    ensures
        match r {
            Some((v, p)) => sp_read_bool(d@, pos as int) == Some((v, p as int)),
            None => sp_read_bool(d@, pos as int) is None,
        },
{
    match read_u8(d, pos) {
        Some((t, p)) => {
            if t == 0 {
                Some((false, p))
            } else if t == 1 {
                Some((true, p))
            } else {
                None
            }
        },
        None => None,
    }
}

pub fn read_u32(d: &[u8], pos: usize) -> (r: Option<(u32, usize)>)
    requires
        pos <= d@.len(),
    ensures
        match r {
            Some((v, p)) => sp_read_u32(d@, pos as int) == Some((v, p as int)),
            None => sp_read_u32(d@, pos as int) is None,
        },
{
    if d.len() - pos >= 4 {
        let v = (d[pos] as u32) + 256 * (d[pos + 1] as u32) + 0x10000 * (d[pos + 2] as u32)
            + 0x1000000 * (d[pos + 3] as u32);
        proof {
            let b = d@.subrange(pos as int, pos as int + 4);
            assert(b[0] == d@[pos as int] && b[1] == d@[pos as int + 1] && b[2] == d@[pos as int
                + 2] && b[3] == d@[pos as int + 3]);
        }
        Some((v, pos + 4))
    } else {
        None
    }
}

pub fn read_u64(d: &[u8], pos: usize) -> (r: Option<(u64, usize)>)
    requires
        pos <= d@.len(),
    ensures
        match r {
            Some((v, p)) => sp_read_u64(d@, pos as int) == Some((v, p as int)),
            None => sp_read_u64(d@, pos as int) is None,
        },
{
    if d.len() - pos >= 8 {
        let v = (d[pos] as u64) + 256 * (d[pos + 1] as u64) + 0x10000 * (d[pos + 2] as u64)
            + 0x1000000 * (d[pos + 3] as u64) + 0x100000000 * (d[pos + 4] as u64) + 0x10000000000
            * (d[pos + 5] as u64) + 0x1000000000000 * (d[pos + 6] as u64) + 0x100000000000000 * (d[pos
            + 7] as u64);
        proof {
            let b = d@.subrange(pos as int, pos as int + 8);
            assert(b[0] == d@[pos as int] && b[1] == d@[pos as int + 1] && b[2] == d@[pos as int
                + 2] && b[3] == d@[pos as int + 3] && b[4] == d@[pos as int + 4] && b[5] == d@[pos as int
                + 5] && b[6] == d@[pos as int + 6] && b[7] == d@[pos as int + 7]);
        }
        Some((v, pos + 8))
    } else {
        None
    }
}

pub fn read_byte_string(d: &[u8], pos: usize) -> (r: Option<(Vec<u8>, usize)>)
    requires
        pos <= d@.len(),
    ensures
        match r {
            Some((v, p)) => sp_read_bytes(d@, pos as int) == Some((v@, p as int)),
            None => sp_read_bytes(d@, pos as int) is None,
        },
{
    match read_u32(d, pos) {
        Some((n, p)) => {
            let n = n as usize;
            if d.len() - p >= n {
                let sub = slice_subrange(d, p, p + n);
                let v = slice_to_vec(sub);
                Some((v, p + n))
            } else {
                None
            }
        },
        None => None,
    }
}

/// Relies on `String::from_utf8`: it returns `Ok` exactly when the bytes
/// are valid UTF-8, and the returned string's byte content is the input.
#[verifier::external_body]
fn bytes_into_string(v: Vec<u8>) -> (r: Option<String>)
    ensures
        r is Some <==> valid_utf8(v@),
        r matches Some(s) ==> encode_utf8(s@) == v@,
{
    String::from_utf8(v).ok()
}

pub fn read_text(d: &[u8], pos: usize) -> (r: Option<(String, usize)>)
    requires
        pos <= d@.len(),
    ensures
        match r {
            Some((s, p)) => sp_read_string(d@, pos as int) == Some((s@, p as int)),
            None => sp_read_string(d@, pos as int) is None,
        },
{
    match read_byte_string(d, pos) {
        Some((v, p)) => {
            let ghost bytes = v@;
            match bytes_into_string(v) {
                Some(s) => {
                    proof {
                        encode_utf8_decode_utf8(s@);
                    }
                    Some((s, p))
                },
                None => None,
            }
        },
        None => None,
    }
}

// ---------------------------------------------------------------------------
// executable writers
// ---------------------------------------------------------------------------


pub fn write_bool(out: &mut Vec<u8>, v: bool)
    ensures
        final(out)@ == old(out)@ + enc_bool(v),
{
    if v {
        out.push(1u8);
    } else {
        out.push(0u8);
    }
}

pub fn write_u32(out: &mut Vec<u8>, v: u32)
    ensures
        final(out)@ == old(out)@ + enc_u32(v),
{
    out.push((v % 256) as u8);
    out.push(((v / 256) % 256) as u8);
    out.push(((v / 0x10000) % 256) as u8);
    out.push(((v / 0x1000000) % 256) as u8);
}

pub fn write_u64(out: &mut Vec<u8>, v: u64)
    ensures
        final(out)@ == old(out)@ + enc_u64(v),
{
    out.push((v % 256) as u8);
    out.push(((v / 256) % 256) as u8);
    out.push(((v / 0x10000) % 256) as u8);
    out.push(((v / 0x1000000) % 256) as u8);
    out.push(((v / 0x100000000) % 256) as u8);
    out.push(((v / 0x10000000000) % 256) as u8);
    out.push(((v / 0x1000000000000) % 256) as u8);
    out.push(((v / 0x100000000000000) % 256) as u8);
}

pub fn write_byte_string(out: &mut Vec<u8>, b: &Vec<u8>)
    requires
        fits_u32(b@.len()),
    ensures
        final(out)@ == old(out)@ + enc_bytes(b@),
{
    write_u32(out, b.len() as u32);
    let mut i: usize = 0;
    while i < b.len()
        invariant
            i <= b@.len(),
            out@ == old(out)@ + enc_u32(b@.len() as u32) + b@.subrange(0, i as int),
        decreases b@.len() - i,
    {
        out.push(b[i]);
        i = i + 1;
        proof {
            assert(b@.subrange(0, i as int) =~= b@.subrange(0, i as int - 1) + seq![b@[i as int - 1]]);
        }
    }
    proof {
        assert(b@.subrange(0, b@.len() as int) =~= b@);
    }
}

pub fn write_text(out: &mut Vec<u8>, s: &str)
    requires
        fits_u32(encode_utf8(s@).len()),
    ensures
        final(out)@ == old(out)@ + enc_string(s@),
{
    let bytes = s.as_bytes_vec();
    write_byte_string(out, &bytes);
}

// ---------------------------------------------------------------------------
// optional fields
// ---------------------------------------------------------------------------

pub open spec fn enc_opt_string(o: Option<Seq<char>>) -> Seq<u8> {
    match o {
        Option::None => seq![0u8],
        Option::Some(s) => seq![1u8] + enc_string(s),
    }
}

pub open spec fn enc_opt_u64(o: Option<u64>) -> Seq<u8> {
    match o {
        Option::None => seq![0u8],
        Option::Some(v) => seq![1u8] + enc_u64(v),
    }
}

pub open spec fn enc_opt_bytes(o: Option<Seq<u8>>) -> Seq<u8> {
    match o {
        Option::None => seq![0u8],
        Option::Some(b) => seq![1u8] + enc_bytes(b),
    }
}

pub open spec fn opt_string_fits(o: Option<Seq<char>>) -> bool {
    match o {
        Option::None => true,
        Option::Some(s) => fits_u32(encode_utf8(s).len()),
    }
}

pub open spec fn opt_bytes_fits(o: Option<Seq<u8>>) -> bool {
    match o {
        Option::None => true,
        Option::Some(b) => fits_u32(b.len()),
    }
}

pub open spec fn sp_read_opt_string(d: Seq<u8>, pos: int) -> Option<(Option<Seq<char>>, int)> {
    match sp_read_u8(d, pos) {
        Some((t, p)) => if t == 0 {
            Some((Option::None, p))
        } else if t == 1 {
            match sp_read_string(d, p) {
                Some((s, p2)) => Some((Option::Some(s), p2)),
                None => None,
            }
        } else {
            None
        },
        None => None,
    }
}

pub open spec fn sp_read_opt_u64(d: Seq<u8>, pos: int) -> Option<(Option<u64>, int)> {
    match sp_read_u8(d, pos) {
        Some((t, p)) => if t == 0 {
            Some((Option::None, p))
        } else if t == 1 {
            match sp_read_u64(d, p) {
                Some((v, p2)) => Some((Option::Some(v), p2)),
                None => None,
            }
        } else {
            None
        },
        None => None,
    }
}

pub open spec fn sp_read_opt_bytes(d: Seq<u8>, pos: int) -> Option<(Option<Seq<u8>>, int)> {
    match sp_read_u8(d, pos) {
        Some((t, p)) => if t == 0 {
            Some((Option::None, p))
        } else if t == 1 {
            match sp_read_bytes(d, p) {
                Some((b, p2)) => Some((Option::Some(b), p2)),
                None => None,
            }
        } else {
            None
        },
        None => None,
    }
}

pub proof fn lemma_read_enc_opt_string(d: Seq<u8>, pos: int, o: Option<Seq<char>>)
    requires
        0 <= pos,
        opt_string_fits(o),
        pos + enc_opt_string(o).len() <= d.len(),
        d.subrange(pos, pos + enc_opt_string(o).len()) == enc_opt_string(o),
    ensures
        sp_read_opt_string(d, pos) == Some((o, pos + enc_opt_string(o).len())),
{
    let len = enc_opt_string(o).len() as int;
    assert(d[pos] == d.subrange(pos, pos + len)[0]);
    match o {
        Option::None => {},
        Option::Some(s) => {
            let e = enc_string(s);
            assert(d.subrange(pos + 1, pos + 1 + e.len()) =~= e) by {
                assert forall|j: int| 0 <= j < e.len() implies d.subrange(
                    pos + 1,
                    pos + 1 + e.len() as int,
                )[j] == e[j] by {
                    assert(d.subrange(pos, pos + len)[1 + j] == enc_opt_string(o)[1 + j]);
                }
            }
            lemma_read_enc_string(d, pos + 1, s);
        },
    }
}

pub proof fn lemma_read_enc_opt_u64(d: Seq<u8>, pos: int, o: Option<u64>)
    requires
        0 <= pos,
        pos + enc_opt_u64(o).len() <= d.len(),
        d.subrange(pos, pos + enc_opt_u64(o).len()) == enc_opt_u64(o),
    ensures
        sp_read_opt_u64(d, pos) == Some((o, pos + enc_opt_u64(o).len())),
{
    let len = enc_opt_u64(o).len() as int;
    assert(d[pos] == d.subrange(pos, pos + len)[0]);
    match o {
        Option::None => {},
        Option::Some(v) => {
            let e = enc_u64(v);
            assert(d.subrange(pos + 1, pos + 1 + e.len()) =~= e) by {
                assert forall|j: int| 0 <= j < e.len() implies d.subrange(
                    pos + 1,
                    pos + 1 + e.len() as int,
                )[j] == e[j] by {
                    assert(d.subrange(pos, pos + len)[1 + j] == enc_opt_u64(o)[1 + j]);
                }
            }
            lemma_read_enc_u64(d, pos + 1, v);
        },
    }
}

pub proof fn lemma_read_enc_opt_bytes(d: Seq<u8>, pos: int, o: Option<Seq<u8>>)
    requires
        0 <= pos,
        opt_bytes_fits(o),
        pos + enc_opt_bytes(o).len() <= d.len(),
        d.subrange(pos, pos + enc_opt_bytes(o).len()) == enc_opt_bytes(o),
    ensures
        sp_read_opt_bytes(d, pos) == Some((o, pos + enc_opt_bytes(o).len())),
{
    let len = enc_opt_bytes(o).len() as int;
    assert(d[pos] == d.subrange(pos, pos + len)[0]);
    match o {
        Option::None => {},
        Option::Some(b) => {
            let e = enc_bytes(b);
            assert(d.subrange(pos + 1, pos + 1 + e.len()) =~= e) by {
                assert forall|j: int| 0 <= j < e.len() implies d.subrange(
                    pos + 1,
                    pos + 1 + e.len() as int,
                )[j] == e[j] by {
                    assert(d.subrange(pos, pos + len)[1 + j] == enc_opt_bytes(o)[1 + j]);
                }
            }
            lemma_read_enc_bytes(d, pos + 1, b);
        },
    }
}

pub open spec fn view_opt_string(o: Option<String>) -> Option<Seq<char>> {
    match o {
        Option::None => Option::None,
        Option::Some(s) => Option::Some(s@),
    }
}

pub open spec fn view_opt_bytes(o: Option<Vec<u8>>) -> Option<Seq<u8>> {
    match o {
        Option::None => Option::None,
        Option::Some(b) => Option::Some(b@),
    }
}

pub fn read_opt_text(d: &[u8], pos: usize) -> (r: Option<(Option<String>, usize)>)
    requires
        pos <= d@.len(),
    ensures
        match r {
            Some((o, p)) => sp_read_opt_string(d@, pos as int) == Some((view_opt_string(o), p as int))
                && p <= d@.len(),
            None => sp_read_opt_string(d@, pos as int) is None,
        },
{
    match read_u8(d, pos) {
        Some((t, p)) => {
            if t == 0 {
                Some((None, p))
            } else if t == 1 {
                match read_text(d, p) {
                    Some((s, p2)) => Some((Some(s), p2)),
                    None => None,
                }
            } else {
                None
            }
        },
        None => None,
    }
}

pub fn read_opt_u64(d: &[u8], pos: usize) -> (r: Option<(Option<u64>, usize)>)
    requires
        pos <= d@.len(),
    ensures
        match r {
            Some((o, p)) => sp_read_opt_u64(d@, pos as int) == Some((o, p as int)) && p <= d@.len(),
            None => sp_read_opt_u64(d@, pos as int) is None,
        },
{
    match read_u8(d, pos) {
        Some((t, p)) => {
            if t == 0 {
                Some((None, p))
            } else if t == 1 {
                match read_u64(d, p) {
                    Some((v, p2)) => Some((Some(v), p2)),
                    None => None,
                }
            } else {
                None
            }
        },
        None => None,
    }
}

pub fn read_opt_byte_string(d: &[u8], pos: usize) -> (r: Option<(Option<Vec<u8>>, usize)>)
    requires
        pos <= d@.len(),
    ensures
        match r {
            Some((o, p)) => sp_read_opt_bytes(d@, pos as int) == Some((view_opt_bytes(o), p as int))
                && p <= d@.len(),
            None => sp_read_opt_bytes(d@, pos as int) is None,
        },
{
    match read_u8(d, pos) {
        Some((t, p)) => {
            if t == 0 {
                Some((None, p))
            } else if t == 1 {
                match read_byte_string(d, p) {
                    Some((b, p2)) => Some((Some(b), p2)),
                    None => None,
                }
            } else {
                None
            }
        },
        None => None,
    }
}

pub fn write_opt_text(out: &mut Vec<u8>, o: &Option<String>)
    requires
        opt_string_fits(view_opt_string(*o)),
    ensures
        final(out)@ == old(out)@ + enc_opt_string(view_opt_string(*o)),
{
    match o {
        None => {
            out.push(0u8);
        },
        Some(s) => {
            out.push(1u8);
            write_text(out, s.as_str());
        },
    }
}

pub fn write_opt_u64(out: &mut Vec<u8>, o: &Option<u64>)
    ensures
        final(out)@ == old(out)@ + enc_opt_u64(*o),
{
    match o {
        None => {
            out.push(0u8);
        },
        Some(v) => {
            out.push(1u8);
            write_u64(out, *v);
        },
    }
}

pub fn write_opt_byte_string(out: &mut Vec<u8>, o: &Option<Vec<u8>>)
    requires
        opt_bytes_fits(view_opt_bytes(*o)),
    ensures
        final(out)@ == old(out)@ + enc_opt_bytes(view_opt_bytes(*o)),
{
    match o {
        None => {
            out.push(0u8);
        },
        Some(b) => {
            out.push(1u8);
            write_byte_string(out, b);
        },
    }
}

// ---------------------------------------------------------------------------
// sequences of byte strings
// ---------------------------------------------------------------------------

pub open spec fn byte_string_views(s: Seq<Vec<u8>>) -> Seq<Seq<u8>> {
    s.map_values(|x: Vec<u8>| x@)
}

pub open spec fn enc_byte_string_items(xs: Seq<Seq<u8>>) -> Seq<u8>
    decreases xs.len(),
{
    if xs.len() == 0 {
        Seq::empty()
    } else {
        enc_bytes(xs[0]) + enc_byte_string_items(xs.drop_first())
    }
}

pub open spec fn enc_byte_string_seq(xs: Seq<Seq<u8>>) -> Seq<u8> {
    enc_u32(xs.len() as u32) + enc_byte_string_items(xs)
}

pub open spec fn byte_string_seq_fits(xs: Seq<Seq<u8>>) -> bool {
    fits_u32(xs.len()) && (forall|i: int| 0 <= i < xs.len() ==> fits_u32(#[trigger] xs[i].len()))
}

pub open spec fn sp_read_byte_string_n(d: Seq<u8>, pos: int, n: nat) -> Option<(Seq<Seq<u8>>, int)>
    decreases n,
{
    if n == 0 {
        Some((Seq::empty(), pos))
    } else {
        match sp_read_bytes(d, pos) {
            Some((x, p)) => match sp_read_byte_string_n(d, p, (n - 1) as nat) {
                Some((xs, p2)) => Some((seq![x] + xs, p2)),
                None => None,
            },
            None => None,
        }
    }
}

pub open spec fn sp_read_byte_string_seq(d: Seq<u8>, pos: int) -> Option<(Seq<Seq<u8>>, int)> {
    match sp_read_u32(d, pos) {
        Some((n, p)) => sp_read_byte_string_n(d, p, n as nat),
        None => None,
    }
}

pub proof fn lemma_enc_byte_string_items_push(xs: Seq<Seq<u8>>, x: Seq<u8>)
    ensures
        enc_byte_string_items(xs.push(x)) == enc_byte_string_items(xs) + enc_bytes(x),
    decreases xs.len(),
{
    let s1 = xs.push(x);
    if xs.len() == 0 {
        assert(s1[0] == x);
        assert(s1.drop_first() =~= Seq::<Seq<u8>>::empty());
        assert(enc_byte_string_items(s1.drop_first()) == Seq::<u8>::empty());
        assert(enc_byte_string_items(s1) == enc_bytes(s1[0]) + enc_byte_string_items(
            s1.drop_first(),
        ));
        assert(enc_byte_string_items(xs) == Seq::<u8>::empty());
        assert(enc_byte_string_items(s1) =~= enc_byte_string_items(xs) + enc_bytes(x));
    } else {
        assert(s1[0] == xs[0]);
        assert(s1.drop_first() =~= xs.drop_first().push(x));
        lemma_enc_byte_string_items_push(xs.drop_first(), x);
        assert(enc_byte_string_items(s1) == enc_bytes(s1[0]) + enc_byte_string_items(
            s1.drop_first(),
        ));
        assert(enc_byte_string_items(s1) =~= enc_byte_string_items(xs) + enc_bytes(x));
    }
}

#[verifier::rlimit(100)]
#[verifier::spinoff_prover]
pub proof fn lemma_read_enc_byte_string_items(d: Seq<u8>, pos: int, xs: Seq<Seq<u8>>)
    requires
        0 <= pos,
        forall|i: int| 0 <= i < xs.len() ==> fits_u32(#[trigger] xs[i].len()),
        pos + enc_byte_string_items(xs).len() <= d.len(),
        d.subrange(pos, pos + enc_byte_string_items(xs).len()) == enc_byte_string_items(xs),
    ensures
        sp_read_byte_string_n(d, pos, xs.len()) == Some(
            (xs, pos + enc_byte_string_items(xs).len()),
        ),
    decreases xs.len(),
{
    if xs.len() == 0 {
        assert(xs =~= Seq::<Seq<u8>>::empty());
    } else {
        let all = enc_byte_string_items(xs);
        let e0 = enc_bytes(xs[0]);
        let rest = enc_byte_string_items(xs.drop_first());
        assert(d.subrange(pos, pos + e0.len()) =~= e0) by {
            assert forall|j: int| 0 <= j < e0.len() implies d.subrange(pos, pos + e0.len() as int)[j]
                == e0[j] by {
                assert(d.subrange(pos, pos + all.len() as int)[j] == all[j]);
            }
        }
        lemma_read_enc_bytes(d, pos, xs[0]);
        assert(d.subrange(pos + e0.len(), pos + e0.len() + rest.len()) =~= rest) by {
            assert forall|j: int| 0 <= j < rest.len() implies d.subrange(
                pos + e0.len() as int,
                pos + e0.len() + rest.len(),
            )[j] == rest[j] by {
                assert(d.subrange(pos, pos + all.len() as int)[e0.len() + j] == all[e0.len() + j]);
            }
        }
        lemma_read_enc_byte_string_items(d, pos + e0.len() as int, xs.drop_first());
        assert(seq![xs[0]] + xs.drop_first() =~= xs);
    }
}

pub proof fn lemma_read_enc_byte_string_seq(d: Seq<u8>, pos: int, xs: Seq<Seq<u8>>)
    requires
        0 <= pos,
        byte_string_seq_fits(xs),
        pos + enc_byte_string_seq(xs).len() <= d.len(),
        d.subrange(pos, pos + enc_byte_string_seq(xs).len()) == enc_byte_string_seq(xs),
    ensures
        sp_read_byte_string_seq(d, pos) == Some((xs, pos + enc_byte_string_seq(xs).len())),
{
    let all = enc_byte_string_seq(xs);
    let n = xs.len() as u32;
    let items = enc_byte_string_items(xs);
    assert(d.subrange(pos, pos + 4) =~= enc_u32(n)) by {
        assert forall|j: int| 0 <= j < 4 implies d.subrange(pos, pos + 4)[j] == enc_u32(n)[j] by {
            assert(d.subrange(pos, pos + all.len() as int)[j] == all[j]);
        }
    }
    lemma_read_enc_u32(d, pos, n);
    assert(d.subrange(pos + 4, pos + 4 + items.len()) =~= items) by {
        assert forall|j: int| 0 <= j < items.len() implies d.subrange(
            pos + 4,
            pos + 4 + items.len(),
        )[j] == items[j] by {
            assert(d.subrange(pos, pos + all.len() as int)[4 + j] == all[4 + j]);
        }
    }
    lemma_read_enc_byte_string_items(d, pos + 4, xs);
}

pub fn read_byte_string_vec(d: &[u8], pos: usize) -> (r: Option<(Vec<Vec<u8>>, usize)>)
    requires
        pos <= d@.len(),
    ensures
        match r {
            Some((v, p)) => sp_read_byte_string_seq(d@, pos as int) == Some(
                (byte_string_views(v@), p as int),
            ) && p <= d@.len(),
            None => sp_read_byte_string_seq(d@, pos as int) is None,
        },
{
    match read_u32(d, pos) {
        None => None,
        Some((n, p0)) => {
            let mut acc: Vec<Vec<u8>> = Vec::new();
            let mut cur: usize = p0;
            let mut i: u32 = 0;
            while i < n
                invariant
                    i <= n,
                    pos <= d@.len(),
                    cur <= d@.len(),
                    acc@.len() == i,
                    sp_read_u32(d@, pos as int) == Some((n, p0 as int)),
                    match sp_read_byte_string_n(d@, cur as int, (n - i) as nat) {
                        Some((xs, pe)) => sp_read_byte_string_n(d@, p0 as int, n as nat) == Some(
                            (byte_string_views(acc@) + xs, pe),
                        ),
                        None => sp_read_byte_string_n(d@, p0 as int, n as nat) is None,
                    },
                decreases n - i,
            {
                match read_byte_string(d, cur) {
                    None => {
                        return None;
                    },
                    Some((x, p2)) => {
                        let ghost pre = byte_string_views(acc@);
                        acc.push(x);
                        proof {
                            assert(byte_string_views(acc@) =~= pre.push(x@));
                            match sp_read_byte_string_n(d@, p2 as int, (n - i - 1) as nat) {
                                Some((xs2, pe)) => {
                                    assert(pre + (seq![x@] + xs2) =~= pre.push(x@) + xs2);
                                },
                                None => {},
                            }
                        }
                        cur = p2;
                        i = i + 1;
                    },
                }
            }
            proof {
                assert(byte_string_views(acc@) + Seq::<Seq<u8>>::empty() =~= byte_string_views(
                    acc@,
                ));
            }
            Some((acc, cur))
        },
    }
}

pub fn write_byte_string_vec(out: &mut Vec<u8>, v: &Vec<Vec<u8>>)
    requires
        byte_string_seq_fits(byte_string_views(v@)),
    ensures
        final(out)@ == old(out)@ + enc_byte_string_seq(byte_string_views(v@)),
{
    let ghost views = byte_string_views(v@);
    assert(v@.len() == views.len());
    write_u32(out, v.len() as u32);
    let mut i: usize = 0;
    while i < v.len()
        invariant
            i <= v@.len(),
            views == byte_string_views(v@),
            byte_string_seq_fits(views),
            out@ == old(out)@ + enc_u32(views.len() as u32) + enc_byte_string_items(
                views.subrange(0, i as int),
            ),
        decreases v@.len() - i,
    {
        assert(views[i as int] == v@[i as int]@);
        write_byte_string(out, &v[i]);
        proof {
            assert(views.subrange(0, i + 1) =~= views.subrange(0, i as int).push(views[i as int]));
            lemma_enc_byte_string_items_push(views.subrange(0, i as int), views[i as int]);
        }
        i = i + 1;
    }
    proof {
        assert(views.subrange(0, views.len() as int) =~= views);
    }
}

} // verus!
