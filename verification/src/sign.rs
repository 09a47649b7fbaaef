use vstd::prelude::*;

verus! {

use crate::errors::ArgError;

/// The shielded-transaction authorization engine.
///
/// A transaction is a list of sections. At most one confidential section
/// carries the shielded value transfer: spend descriptors holding proof
/// material and a signature slot. A metadata section pairs with it,
/// recording, for each spend descriptor in construction order, the final
/// position it received in the serialized transaction.
///
/// Authorizing splits into decisions, all verified here, and outside
/// work, which the host performs between them. One signing call runs:
///
/// 1. `plan_authorization(&tx, &signing_data)` — locate the confidential
///    section named by the context (`Ok(None)`: no shielded component,
///    nothing to do) and invert the position metadata into a plan.
/// 2. `derive_signing_key(&key_material)` — obtain the spend-authorizing
///    secret; view-only material is refused here, before any signing.
/// 3. Outside work, with the external cryptography: strip the placeholder
///    authorizations, compute the transaction digest and the shielded
///    signing hash over the canonical unauthorized form, and, for each
///    serialized position of the plan's descriptor map, produce one
///    signature from the secret, the hash, and a blinding factor drawn
///    from `crate::params::BuildParams::spend_alpha` for that position.
/// 4. `authorize(&mut tx, &signing_data, &signatures)` — check that the
///    signature set covers the spends exactly, re-author the section
///    through the mapper, and swap it in, leaving proofs and every other
///    section untouched. On any failure the transaction is unchanged.
/// A spend signature: the bytes the external signature scheme produced.
#[derive(Debug)]
pub struct SpendSig {
    pub bytes: Vec<u8>,
}

/// One input of the confidential transfer: proof material plus the
/// signature slot, empty until authorization.
#[derive(Debug)]
pub struct SpendDescriptor {
    pub proof_data: Vec<u8>,
    pub sig: Option<SpendSig>,
}

/// The confidential section: its identifier, its spend descriptors, and
/// the rest of its serialized content, carried through opaquely.
#[derive(Debug)]
pub struct ShieldedPart {
    pub id: u64,
    pub spends: Vec<SpendDescriptor>,
    pub body: Vec<u8>,
}

/// Construction metadata: `spend_positions[i]` is the serialized position
/// assigned to the spend descriptor added `i`-th during construction.
#[derive(Debug)]
pub struct BuilderInfo {
    pub id: u64,
    pub spend_positions: Vec<usize>,
}

#[derive(Debug)]
pub enum Section {
    Confidential(ShieldedPart),
    Metadata(BuilderInfo),
    Other(Vec<u8>),
}

#[derive(Debug)]
pub struct Tx {
    pub sections: Vec<Section>,
}

/// The signing context: the confidential section's identifier, when the
/// transaction has one.
#[derive(Debug)]
pub struct SigningTxData {
    pub shielded_hash: Option<u64>,
}

/// Caller-supplied key material for one signing call. It may be view-only;
/// only material with spend authority can yield a signing secret.
#[derive(Debug)]
pub struct SpendingKeyMaterial {
    pub has_spend_authority: bool,
    pub secret: Vec<u8>,
}

/// A spend-authorizing secret, derived from key material that carries
/// spend authority; decoded key references never hold one.
#[derive(Debug)]
pub struct SigningKey {
    pub secret: Vec<u8>,
}

// ---------------------------------------------------------------------------
// views
// ---------------------------------------------------------------------------

#[verifier::ext_equal]
pub struct SpendDescriptorV {
    pub proof_data: Seq<u8>,
    pub sig: Option<Seq<u8>>,
}

#[verifier::ext_equal]
pub struct ShieldedPartV {
    pub id: u64,
    pub spends: Seq<SpendDescriptorV>,
    pub body: Seq<u8>,
}

#[verifier::ext_equal]
pub struct BuilderInfoV {
    pub id: u64,
    pub spend_positions: Seq<usize>,
}

#[verifier::ext_equal]
pub enum SectionV {
    Confidential(ShieldedPartV),
    Metadata(BuilderInfoV),
    Other(Seq<u8>),
}

impl View for SpendDescriptor {
    type V = SpendDescriptorV;

    open spec fn view(&self) -> SpendDescriptorV {
        SpendDescriptorV {
            proof_data: self.proof_data@,
            sig: match self.sig {
                Option::Some(s) => Option::Some(s.bytes@),
                Option::None => Option::None,
            },
        }
    }
}

pub open spec fn spend_views(s: Seq<SpendDescriptor>) -> Seq<SpendDescriptorV> {
    s.map_values(|x: SpendDescriptor| x@)
}

impl View for ShieldedPart {
    type V = ShieldedPartV;

    open spec fn view(&self) -> ShieldedPartV {
        ShieldedPartV { id: self.id, spends: spend_views(self.spends@), body: self.body@ }
    }
}

impl View for BuilderInfo {
    type V = BuilderInfoV;

    open spec fn view(&self) -> BuilderInfoV {
        BuilderInfoV { id: self.id, spend_positions: self.spend_positions@ }
    }
}

impl View for Section {
    type V = SectionV;

    open spec fn view(&self) -> SectionV {
        match self {
            Section::Confidential(p) => SectionV::Confidential(p@),
            Section::Metadata(b) => SectionV::Metadata(b@),
            Section::Other(d) => SectionV::Other(d@),
        }
    }
}

pub open spec fn section_views(s: Seq<Section>) -> Seq<SectionV> {
    s.map_values(|x: Section| x@)
}

impl View for Tx {
    type V = Seq<SectionV>;

    open spec fn view(&self) -> Seq<SectionV> {
        section_views(self.sections@)
    }
}

// ---------------------------------------------------------------------------
// locating sections
// ---------------------------------------------------------------------------

pub open spec fn is_masp_section(s: SectionV, id: u64) -> bool {
    s matches SectionV::Confidential(p) && p.id == id
}

pub open spec fn is_meta_section(s: SectionV, id: u64) -> bool {
    s matches SectionV::Metadata(b) && b.id == id
}

/// The first index holding the confidential section with this identifier.
pub open spec fn first_masp(t: Seq<SectionV>, id: u64) -> Option<int>
    decreases t.len(),
{
    if t.len() == 0 {
        None
    } else if is_masp_section(t[0], id) {
        Some(0int)
    } else {
        match first_masp(t.drop_first(), id) {
            Some(i) => Some(i + 1),
            None => None,
        }
    }
}

/// The first index holding the metadata section with this identifier.
pub open spec fn first_meta(t: Seq<SectionV>, id: u64) -> Option<int>
    decreases t.len(),
{
    if t.len() == 0 {
        None
    } else if is_meta_section(t[0], id) {
        Some(0int)
    } else {
        match first_meta(t.drop_first(), id) {
            Some(i) => Some(i + 1),
            None => None,
        }
    }
}

pub proof fn lemma_first_masp(t: Seq<SectionV>, id: u64)
    ensures
        match first_masp(t, id) {
            Some(i) => 0 <= i < t.len() && is_masp_section(t[i], id) && (forall|j: int|
                0 <= j < i ==> !is_masp_section(#[trigger] t[j], id)),
            None => forall|j: int| 0 <= j < t.len() ==> !is_masp_section(#[trigger] t[j], id),
        },
    decreases t.len(),
{
    if t.len() == 0 {
    } else if is_masp_section(t[0], id) {
    } else {
        let r = t.drop_first();
        lemma_first_masp(r, id);
        match first_masp(r, id) {
            Some(i) => {
                assert(t[i + 1] == r[i]);
                assert forall|j: int| 0 <= j < i + 1 implies !is_masp_section(
                    #[trigger] t[j],
                    id,
                ) by {
                    if j > 0 {
                        assert(t[j] == r[j - 1]);
                    }
                }
            },
            None => {
                assert forall|j: int| 0 <= j < t.len() implies !is_masp_section(
                    #[trigger] t[j],
                    id,
                ) by {
                    if j > 0 {
                        assert(t[j] == r[j - 1]);
                    }
                }
            },
        }
    }
}

pub proof fn lemma_first_meta(t: Seq<SectionV>, id: u64)
    ensures
        match first_meta(t, id) {
            Some(i) => 0 <= i < t.len() && is_meta_section(t[i], id) && (forall|j: int|
                0 <= j < i ==> !is_meta_section(#[trigger] t[j], id)),
            None => forall|j: int| 0 <= j < t.len() ==> !is_meta_section(#[trigger] t[j], id),
        },
    decreases t.len(),
{
    if t.len() == 0 {
    } else if is_meta_section(t[0], id) {
    } else {
        let r = t.drop_first();
        lemma_first_meta(r, id);
        match first_meta(r, id) {
            Some(i) => {
                assert(t[i + 1] == r[i]);
                assert forall|j: int| 0 <= j < i + 1 implies !is_meta_section(
                    #[trigger] t[j],
                    id,
                ) by {
                    if j > 0 {
                        assert(t[j] == r[j - 1]);
                    }
                }
            },
            None => {
                assert forall|j: int| 0 <= j < t.len() implies !is_meta_section(
                    #[trigger] t[j],
                    id,
                ) by {
                    if j > 0 {
                        assert(t[j] == r[j - 1]);
                    }
                }
            },
        }
    }
}

fn find_masp(tx: &Tx, id: u64) -> (r: Option<usize>)
    ensures
        match r {
            Some(i) => first_masp(tx@, id) == Some(i as int) && i < tx.sections@.len(),
            None => first_masp(tx@, id) is None,
        },
{
    proof {
        lemma_first_masp(tx@, id);
    }
    let n = tx.sections.len();
    let mut i: usize = 0;
    while i < n
        invariant
            n == tx.sections@.len() == tx@.len(),
            i <= n,
            forall|j: int| 0 <= j < i ==> !is_masp_section(#[trigger] tx@[j], id),
        decreases n - i,
    {
        proof {
            lemma_first_masp(tx@, id);
            assert(tx@[i as int] == tx.sections@[i as int]@);
        }
        let hit = match &tx.sections[i] {
            Section::Confidential(p) => p.id == id,
            _ => false,
        };
        if hit {
            proof {
                assert(is_masp_section(tx@[i as int], id));
                match first_masp(tx@, id) {
                    Some(fi) => {
                        assert(fi >= i) by {
                            if fi < i {
                                assert(!is_masp_section(tx@[fi], id));
                            }
                        }
                        assert(fi <= i) by {
                            if fi > i {
                                assert(!is_masp_section(tx@[i as int], id));
                            }
                        }
                    },
                    None => {
                        assert(!is_masp_section(tx@[i as int], id));
                    },
                }
            }
            return Some(i);
        }
        i = i + 1;
    }
    proof {
        if first_masp(tx@, id) is Some {
            let fi = first_masp(tx@, id)->Some_0;
            assert(!is_masp_section(tx@[fi], id));
        }
    }
    None
}

fn find_meta(tx: &Tx, id: u64) -> (r: Option<usize>)
    ensures
        match r {
            Some(i) => first_meta(tx@, id) == Some(i as int) && i < tx.sections@.len(),
            None => first_meta(tx@, id) is None,
        },
{
    proof {
        lemma_first_meta(tx@, id);
    }
    let n = tx.sections.len();
    let mut i: usize = 0;
    while i < n
        invariant
            n == tx.sections@.len() == tx@.len(),
            i <= n,
            forall|j: int| 0 <= j < i ==> !is_meta_section(#[trigger] tx@[j], id),
        decreases n - i,
    {
        proof {
            lemma_first_meta(tx@, id);
            assert(tx@[i as int] == tx.sections@[i as int]@);
        }
        let hit = match &tx.sections[i] {
            Section::Metadata(b) => b.id == id,
            _ => false,
        };
        if hit {
            proof {
                assert(is_meta_section(tx@[i as int], id));
                match first_meta(tx@, id) {
                    Some(fi) => {
                        assert(fi >= i) by {
                            if fi < i {
                                assert(!is_meta_section(tx@[fi], id));
                            }
                        }
                        assert(fi <= i) by {
                            if fi > i {
                                assert(!is_meta_section(tx@[i as int], id));
                            }
                        }
                    },
                    None => {
                        assert(!is_meta_section(tx@[i as int], id));
                    },
                }
            }
            return Some(i);
        }
        i = i + 1;
    }
    proof {
        if first_meta(tx@, id) is Some {
            let fi = first_meta(tx@, id)->Some_0;
            assert(!is_meta_section(tx@[fi], id));
        }
    }
    None
}

// ---------------------------------------------------------------------------
// planning: inverting the position metadata
// ---------------------------------------------------------------------------

/// The metadata assigns each construction index a distinct serialized
/// position among the section's `n` spends, covering all of them.
pub open spec fn positions_bijective(ps: Seq<usize>, n: nat) -> bool {
    &&& ps.len() == n
    &&& (forall|i: int| 0 <= i < ps.len() ==> (#[trigger] ps[i]) < n)
    &&& (forall|i: int, j: int| 0 <= i < j < ps.len() ==> ps[i] != ps[j])
}

/// A signing plan: for each serialized position, the construction index of
/// the spend descriptor that sits there.
#[derive(Debug)]
pub struct AuthPlan {
    pub section_id: u64,
    pub descriptor_map: Vec<usize>,
}

/// Locates the confidential section named by the signing context and
/// inverts its construction metadata.
///
/// Without a confidential-section identifier the transaction has no
/// shielded component and there is nothing to plan. A named but absent
/// section or metadata is a construction-layer fault; metadata that is not
/// a bijection onto the spend positions is an inconsistency and is never
/// silently truncated.
#[verifier::loop_isolation(false)]
pub fn plan_authorization(tx: &Tx, signing_data: &SigningTxData) -> (r: Result<
    Option<AuthPlan>,
    ArgError,
>)
    ensures
        signing_data.shielded_hash is None <==> r == Ok::<Option<AuthPlan>, ArgError>(
            Option::<AuthPlan>::None,
        ),
        (match signing_data.shielded_hash {
            Option::Some(id) => first_masp(tx@, id) is None || first_meta(tx@, id) is None,
            Option::None => false,
        }) <==> r == Err::<Option<AuthPlan>, ArgError>(ArgError::MissingSectionError),
        r matches Ok(Some(plan)) ==> {
            let id = signing_data.shielded_hash->Some_0;
            let part = tx@[first_masp(tx@, id)->Some_0]->Confidential_0;
            let meta = tx@[first_meta(tx@, id)->Some_0]->Metadata_0;
            &&& plan.section_id == id
            &&& positions_bijective(meta.spend_positions, part.spends.len())
            &&& plan.descriptor_map@.len() == part.spends.len()
            &&& forall|i: int|
                0 <= i < meta.spend_positions.len() ==> plan.descriptor_map@[meta.spend_positions[i] as int]
                    == i
        },
        r matches Err(e) ==> e == ArgError::MissingSectionError || e
            == ArgError::ConsistencyError,
        (match signing_data.shielded_hash {
            Option::Some(id) => {
                match (first_masp(tx@, id), first_meta(tx@, id)) {
                    (Option::Some(mi), Option::Some(bi)) => !positions_bijective(
                        tx@[bi]->Metadata_0.spend_positions,
                        tx@[mi]->Confidential_0.spends.len(),
                    ),
                    _ => false,
                }
            },
            Option::None => false,
        }) <==> r == Err::<Option<AuthPlan>, ArgError>(ArgError::ConsistencyError),
{
    let id = match signing_data.shielded_hash {
        Some(id) => id,
        None => {
            return Ok(None);
        },
    };
    let mi = match find_masp(tx, id) {
        Some(i) => i,
        None => {
            return Err(ArgError::MissingSectionError);
        },
    };
    let bi = match find_meta(tx, id) {
        Some(i) => i,
        None => {
            return Err(ArgError::MissingSectionError);
        },
    };
    proof {
        lemma_first_masp(tx@, id);
        lemma_first_meta(tx@, id);
        assert(is_masp_section(tx@[mi as int], id));
        assert(is_meta_section(tx@[bi as int], id));
        assert(tx@[mi as int] == tx.sections@[mi as int]@);
        assert(tx@[bi as int] == tx.sections@[bi as int]@);
    }
    let n = match &tx.sections[mi] {
        Section::Confidential(p) => p.spends.len(),
        _ => {
            proof {
                assert(false);
            }
            0
        },
    };
    let positions = match &tx.sections[bi] {
        Section::Metadata(b) => &b.spend_positions,
        _ => {
            proof {
                assert(false);
            }
            return Err(ArgError::ConsistencyError);
        },
    };
    let ghost ps = positions@;
    proof {
        assert(spend_views(tx.sections@[mi as int]->Confidential_0.spends@).len()
            == tx.sections@[mi as int]->Confidential_0.spends@.len());
    }
    if positions.len() != n {
        return Err(ArgError::ConsistencyError);
    }
    let mut map: Vec<usize> = Vec::new();
    let mut filled: Vec<bool> = Vec::new();
    let mut k: usize = 0;
    while k < n
        invariant
            k <= n,
            map@.len() == k,
            filled@.len() == k,
            forall|p: int| 0 <= p < k ==> !(#[trigger] filled@[p]),
        decreases n - k,
    {
        map.push(0);
        filled.push(false);
        k = k + 1;
    }
    let mut i: usize = 0;
    while i < n
        invariant
            n == ps.len(),
            ps == positions@,
            i <= n,
            map@.len() == n,
            filled@.len() == n,
            forall|j: int| 0 <= j < i ==> (#[trigger] ps[j]) < n,
            forall|j: int| 0 <= j < i ==> map@[ps[j] as int] == j,
            forall|p: int|
                0 <= p < n ==> (filled@[p] <==> (exists|j: int|
                    0 <= j < i && (#[trigger] ps[j]) as int == p)),
        decreases n - i,
    {
        let pos = positions[i];
        if pos >= n {
            return Err(ArgError::ConsistencyError);
        }
        if filled[pos] {
            proof {
                let j = choose|j: int| 0 <= j < i && (#[trigger] ps[j]) as int == pos as int;
                assert(ps[j] == ps[i as int]);
                assert(!positions_bijective(ps, n as nat));
            }
            return Err(ArgError::ConsistencyError);
        }
        let ghost old_map = map@;
        let ghost old_filled = filled@;
        map = vec_set_usize(map, pos, i);
        filled = vec_set_bool(filled, pos, true);
        proof {
            assert forall|j: int| 0 <= j < i + 1 implies map@[ps[j] as int] == j by {
                if j < i {
                    assert(ps[j] as int != pos as int) by {
                        if ps[j] as int == pos as int {
                            assert(old_filled[ps[j] as int]);
                        }
                    }
                    assert(map@[ps[j] as int] == old_map[ps[j] as int]);
                }
            }
            assert forall|p: int| 0 <= p < n implies (filled@[p] <==> (exists|j: int|
                0 <= j < i + 1 && (#[trigger] ps[j]) as int == p)) by {
                if p == pos as int {
                    assert(ps[i as int] as int == p);
                } else {
                    assert(filled@[p] == old_filled[p]);
                    if exists|j: int| 0 <= j < i + 1 && (#[trigger] ps[j]) as int == p {
                        let j = choose|j: int| 0 <= j < i + 1 && (#[trigger] ps[j]) as int == p;
                        assert(j < i);
                    }
                }
            }
        }
        i = i + 1;
    }
    proof {
        assert forall|a: int, b: int| 0 <= a < b < ps.len() implies ps[a] != ps[b] by {
            assert(map@[ps[a] as int] == a);
            assert(map@[ps[b] as int] == b);
        }
        assert(positions_bijective(ps, n as nat));
    }
    Ok(Some(AuthPlan { section_id: id, descriptor_map: map }))
}

/// Replaces one element of a `usize` vector, returning the vector.
fn vec_set_usize(v: Vec<usize>, i: usize, x: usize) -> (r: Vec<usize>)
    requires
        i < v@.len(),
    ensures
        r@ == v@.update(i as int, x),
{
    let mut v = v;
    let ghost old_v = v@;
    let mut out: Vec<usize> = Vec::new();
    let n = v.len();
    let mut k: usize = 0;
    while k < n
        invariant
            n == old_v.len(),
            v@ == old_v,
            i < n,
            k <= n,
            out@.len() == k,
            forall|j: int| 0 <= j < k ==> out@[j] == (if j == i as int {
                x
            } else {
                old_v[j]
            }),
        decreases n - k,
    {
        if k == i {
            out.push(x);
        } else {
            out.push(v[k]);
        }
        k = k + 1;
    }
    proof {
        assert(out@ =~= old_v.update(i as int, x));
    }
    out
}

/// Replaces one element of a `bool` vector, returning the vector.
fn vec_set_bool(v: Vec<bool>, i: usize, x: bool) -> (r: Vec<bool>)
    requires
        i < v@.len(),
    ensures
        r@ == v@.update(i as int, x),
{
    let mut v = v;
    let ghost old_v = v@;
    let mut out: Vec<bool> = Vec::new();
    let n = v.len();
    let mut k: usize = 0;
    while k < n
        invariant
            n == old_v.len(),
            v@ == old_v,
            i < n,
            k <= n,
            out@.len() == k,
            forall|j: int| 0 <= j < k ==> out@[j] == (if j == i as int {
                x
            } else {
                old_v[j]
            }),
        decreases n - k,
    {
        if k == i {
            out.push(x);
        } else {
            out.push(v[k]);
        }
        k = k + 1;
    }
    proof {
        assert(out@ =~= old_v.update(i as int, x));
    }
    out
}

// ---------------------------------------------------------------------------
// key derivation
// ---------------------------------------------------------------------------

/// Derives the spend-authorizing secret from the caller's key material.
/// View-only material cannot sign.
pub fn derive_signing_key(k: &SpendingKeyMaterial) -> (r: Result<SigningKey, ArgError>)
    ensures
        r is Ok <==> k.has_spend_authority,
        r matches Ok(sk) ==> sk.secret@ == k.secret@,
        r matches Err(e) ==> e == ArgError::KeyDerivationError,
{
    if k.has_spend_authority {
        let mut secret: Vec<u8> = Vec::new();
        let mut i: usize = 0;
        let n = k.secret.len();
        while i < n
            invariant
                n == k.secret@.len(),
                i <= n,
                secret@ == k.secret@.subrange(0, i as int),
            decreases n - i,
        {
            secret.push(k.secret[i]);
            proof {
                assert(k.secret@.subrange(0, i + 1) =~= k.secret@.subrange(0, i as int).push(
                    k.secret@[i as int],
                ));
            }
            i = i + 1;
        }
        proof {
            assert(k.secret@.subrange(0, n as int) =~= k.secret@);
        }
        Ok(SigningKey { secret })
    } else {
        Err(ArgError::KeyDerivationError)
    }
}

// ---------------------------------------------------------------------------
// applying an authorization
// ---------------------------------------------------------------------------

/// The views of a produced signature set, by serialized position.
pub open spec fn sig_views(a: Seq<SpendSig>) -> Seq<Seq<u8>> {
    a.map_values(|s: SpendSig| s.bytes@)
}

/// How an authorized confidential section relates to its unauthorized
/// form: same identifier, same opaque body, and, spend by spend, the same
/// proof material with the produced signature in the signature slot.
pub open spec fn authorized_section(old_p: ShieldedPartV, new_p: ShieldedPartV, auth: Seq<Seq<u8>>) -> bool {
    &&& new_p.id == old_p.id
    &&& new_p.body == old_p.body
    &&& new_p.spends.len() == old_p.spends.len()
    &&& forall|p: int|
        0 <= p < old_p.spends.len() ==> (#[trigger] new_p.spends[p]).proof_data
            == old_p.spends[p].proof_data && new_p.spends[p].sig == Some(auth[p])
}

/// How an authorized transaction relates to its unauthorized form: only
/// the named confidential section changed, and it changed as
/// `authorized_section` says.
pub open spec fn authorized_tx(t0: Seq<SectionV>, t1: Seq<SectionV>, id: u64, auth: Seq<Seq<u8>>) -> bool {
    let mi = first_masp(t0, id)->Some_0;
    &&& first_masp(t0, id) is Some
    &&& t1.len() == t0.len()
    &&& forall|j: int| 0 <= j < t0.len() && j != mi ==> t1[j] == t0[j]
    &&& t1[mi] matches SectionV::Confidential(np) && authorized_section(
        t0[mi]->Confidential_0,
        np,
        auth,
    )
}

fn clone_bytes(v: &Vec<u8>) -> (r: Vec<u8>)
    ensures
        r@ == v@,
{
    let mut out: Vec<u8> = Vec::new();
    let n = v.len();
    let mut i: usize = 0;
    while i < n
        invariant
            n == v@.len(),
            i <= n,
            out@ == v@.subrange(0, i as int),
        decreases n - i,
    {
        out.push(v[i]);
        proof {
            assert(v@.subrange(0, i + 1) =~= v@.subrange(0, i as int).push(v@[i as int]));
        }
        i = i + 1;
    }
    proof {
        assert(v@.subrange(0, n as int) =~= v@);
    }
    out
}

/// The signature authorization mapper: a pure structural transform that
/// puts each produced signature into the spend descriptor at its position
/// and passes every proof and all other content through unchanged. It
/// performs no cryptographic computation.
pub fn map_sapling_sig_auth(part: &ShieldedPart, auth: &Vec<SpendSig>) -> (r: ShieldedPart)
    requires
        auth@.len() == part.spends@.len(),
    ensures
        authorized_section(part@, r@, sig_views(auth@)),
{
    let n = part.spends.len();
    let mut spends: Vec<SpendDescriptor> = Vec::new();
    let mut p: usize = 0;
    while p < n
        invariant
            n == part.spends@.len() == auth@.len(),
            p <= n,
            spends@.len() == p,
            forall|q: int|
                0 <= q < p ==> (#[trigger] spend_views(spends@)[q]).proof_data == spend_views(
                    part.spends@,
                )[q].proof_data && spend_views(spends@)[q].sig == Some(sig_views(auth@)[q]),
        decreases n - p,
    {
        let proof_data = clone_bytes(&part.spends[p].proof_data);
        let bytes = clone_bytes(&auth[p].bytes);
        let ghost pre = spends@;
        let d = SpendDescriptor { proof_data, sig: Some(SpendSig { bytes }) };
        let ghost dv = d@;
        spends.push(d);
        proof {
            assert(spend_views(spends@) =~= spend_views(pre).push(dv));
            assert(dv.proof_data == spend_views(part.spends@)[p as int].proof_data);
            assert(dv.sig == Some(sig_views(auth@)[p as int]));
        }
        p = p + 1;
    }
    let body = clone_bytes(&part.body);
    ShieldedPart { id: part.id, spends, body }
}

/// Authorizes the transaction's confidential section in place with the
/// produced signature set, one signature per serialized spend position.
///
/// Without a confidential-section identifier in the signing context this
/// is a no-op and the transaction is returned unchanged; that is not an
/// error. A signature set that does not cover the spends exactly is an
/// inconsistency and nothing is dropped silently. On any failure the
/// transaction is left exactly as it was.
#[verifier::loop_isolation(false)]
pub fn authorize(tx: &mut Tx, signing_data: &SigningTxData, auth: &Vec<SpendSig>) -> (r: Result<
    (),
    ArgError,
>)
    ensures
        signing_data.shielded_hash is None ==> r is Ok && final(tx)@ == old(tx)@,
        r is Err ==> final(tx)@ == old(tx)@,
        r matches Err(e) ==> e == ArgError::MissingSectionError || e
            == ArgError::ConsistencyError,
        match signing_data.shielded_hash {
            Option::Some(id) => {
                &&& (first_masp(old(tx)@, id) is None <==> r == Err::<(), ArgError>(
                    ArgError::MissingSectionError,
                ))
                &&& ((match first_masp(old(tx)@, id) {
                    Option::Some(mi) => auth@.len() != old(
                        tx,
                    )@[mi]->Confidential_0.spends.len(),
                    Option::None => false,
                }) <==> r == Err::<(), ArgError>(ArgError::ConsistencyError))
                &&& (r is Ok ==> authorized_tx(old(tx)@, final(tx)@, id, sig_views(auth@)))
            },
            Option::None => r is Ok,
        },
{
    let id = match signing_data.shielded_hash {
        Some(id) => id,
        None => {
            return Ok(());
        },
    };
    let mi = match find_masp(tx, id) {
        Some(i) => i,
        None => {
            return Err(ArgError::MissingSectionError);
        },
    };
    proof {
        lemma_first_masp(tx@, id);
        assert(is_masp_section(tx@[mi as int], id));
        assert(tx@[mi as int] == tx.sections@[mi as int]@);
    }
    let new_part = match &tx.sections[mi] {
        Section::Confidential(part) => {
            if auth.len() != part.spends.len() {
                return Err(ArgError::ConsistencyError);
            }
            map_sapling_sig_auth(part, auth)
        },
        _ => {
            proof {
                assert(false);
            }
            return Err(ArgError::ConsistencyError);
        },
    };
    let ghost old_sections = tx.sections@;
    let old_section = tx.sections.remove(mi);
    tx.sections.insert(mi, Section::Confidential(new_part));
    proof {
        assert(tx.sections@.len() == old_sections.len());
        assert forall|j: int| 0 <= j < old_sections.len() && j != mi as int implies tx@[j]
            == section_views(old_sections)[j] by {
            if j < mi as int {
                assert(tx.sections@[j] == old_sections[j]);
            } else {
                assert(tx.sections@[j] == old_sections.remove(mi as int)[j - 1]);
                assert(old_sections.remove(mi as int)[j - 1] == old_sections[j]);
            }
        }
        assert(tx.sections@[mi as int]@ == tx@[mi as int]);
    }
    Ok(())
}

// ---------------------------------------------------------------------------
// content idempotence
// ---------------------------------------------------------------------------

pub open spec fn strip_sig_spend(s: SpendDescriptorV) -> SpendDescriptorV {
    SpendDescriptorV { proof_data: s.proof_data, sig: Option::None }
}

/// The section with every signature slot cleared; everything else kept.
pub open spec fn strip_sigs_section(s: SectionV) -> SectionV {
    match s {
        SectionV::Confidential(p) => SectionV::Confidential(
            ShieldedPartV {
                id: p.id,
                spends: p.spends.map_values(|x: SpendDescriptorV| strip_sig_spend(x)),
                body: p.body,
            },
        ),
        SectionV::Metadata(b) => SectionV::Metadata(b),
        SectionV::Other(d) => SectionV::Other(d),
    }
}

/// The transaction with every signature slot cleared: its non-signature
/// content.
pub open spec fn strip_sigs(t: Seq<SectionV>) -> Seq<SectionV> {
    t.map_values(|s: SectionV| strip_sigs_section(s))
}

/// Authorization is idempotent in content, not in bytes: two independent
/// authorizations of one transaction, with whatever signature sets, agree
/// on everything except the signatures themselves — proofs, amounts and
/// every other section are identical.
pub proof fn lemma_authorization_content(
    t0: Seq<SectionV>,
    t1: Seq<SectionV>,
    t2: Seq<SectionV>,
    id: u64,
    a1: Seq<Seq<u8>>,
    a2: Seq<Seq<u8>>,
)
    requires
        authorized_tx(t0, t1, id, a1),
        authorized_tx(t0, t2, id, a2),
    ensures
        strip_sigs(t1) == strip_sigs(t2),
{
    let mi = first_masp(t0, id)->Some_0;
    lemma_first_masp(t0, id);
    let p0 = t0[mi]->Confidential_0;
    let p1 = t1[mi]->Confidential_0;
    let p2 = t2[mi]->Confidential_0;
    assert(strip_sigs_section(t1[mi])->Confidential_0.spends =~= strip_sigs_section(
        t2[mi],
    )->Confidential_0.spends) by {
        assert forall|q: int| 0 <= q < p0.spends.len() implies strip_sig_spend(#[trigger] p1.spends[q])
            == strip_sig_spend(p2.spends[q]) by {
            assert(p1.spends[q].proof_data == p0.spends[q].proof_data);
            assert(p2.spends[q].proof_data == p0.spends[q].proof_data);
        }
    }
    assert(strip_sigs_section(t1[mi]) =~= strip_sigs_section(t2[mi]));
    assert(strip_sigs(t1) =~= strip_sigs(t2)) by {
        assert forall|j: int| 0 <= j < t0.len() implies strip_sigs_section(#[trigger] t1[j])
            == strip_sigs_section(t2[j]) by {
            if j != mi {
                assert(t1[j] == t0[j]);
                assert(t2[j] == t0[j]);
            }
        }
    }
}

/// Authorizing a transaction never disturbs its non-signature content:
/// the authorized form strips back to the unauthorized form's content.
pub proof fn lemma_authorization_preserves_content(
    t0: Seq<SectionV>,
    t1: Seq<SectionV>,
    id: u64,
    a: Seq<Seq<u8>>,
)
    requires
        authorized_tx(t0, t1, id, a),
    ensures
        strip_sigs(t1) == strip_sigs(t0),
{
    let mi = first_masp(t0, id)->Some_0;
    lemma_first_masp(t0, id);
    let p0 = t0[mi]->Confidential_0;
    let p1 = t1[mi]->Confidential_0;
    assert(strip_sigs_section(t1[mi])->Confidential_0.spends =~= strip_sigs_section(
        t0[mi],
    )->Confidential_0.spends) by {
        assert forall|q: int| 0 <= q < p0.spends.len() implies strip_sig_spend(#[trigger] p1.spends[q])
            == strip_sig_spend(p0.spends[q]) by {
            assert(p1.spends[q].proof_data == p0.spends[q].proof_data);
        }
    }
    assert(strip_sigs_section(t1[mi]) =~= strip_sigs_section(t0[mi]));
    assert(strip_sigs(t1) =~= strip_sigs(t0)) by {
        assert forall|j: int| 0 <= j < t0.len() implies strip_sigs_section(#[trigger] t1[j])
            == strip_sigs_section(t0[j]) by {
            if j != mi {
                assert(t1[j] == t0[j]);
            }
        }
    }
}

} // verus!
