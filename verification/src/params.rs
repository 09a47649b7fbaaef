use vstd::prelude::*;

verus! {

use crate::errors::ArgError;
use crate::envelope::TxArgs;

/// The build-parameter provider: the per-spend signature blinding factors.
///
/// Each signature must be blinded with a factor of its own, even when two
/// spends share a signing secret; the provider enforces that by
/// construction, drawing a fresh factor for each spend index once and
/// never changing a factor it has handed out. Factors come from the
/// operating system's secure random source; nothing about their values is
/// assumed, only that each index gets exactly one.

/// One signature blinding factor, 256 bits wide.
#[derive(Clone, Copy, Debug, PartialEq, Eq, Structural)]
pub struct Alpha {
    pub w0: u64,
    pub w1: u64,
    pub w2: u64,
    pub w3: u64,
}

/// Relies on `rand::rngs::OsRng` through `rand::RngCore::next_u64`: eight
/// bytes from the operating system's secure random source. Nothing is
/// assumed about the value.
#[verifier::external_body]
fn os_random_u64() -> u64 {
    <rand::rngs::OsRng as rand::RngCore>::next_u64(&mut rand::rngs::OsRng)
}

#[derive(Debug)]
pub struct BuildParams {
    alphas: Vec<Alpha>,
}

impl BuildParams {
    /// The factors handed out so far, by spend index.
    pub closed spec fn issued(&self) -> Seq<Alpha> {
        self.alphas@
    }

    /// The blinding factor for the spend at this index: drawn once, then
    /// fixed. Factors already handed out never change.
    pub fn spend_alpha(&mut self, i: usize) -> (r: Alpha)
        ensures
            i < final(self).issued().len(),
            final(self).issued().len() as int == (if i < old(self).issued().len() {
                old(self).issued().len() as int
            } else {
                i + 1
            }),
            forall|j: int|
                0 <= j < old(self).issued().len() ==> final(self).issued()[j] == old(
                    self,
                ).issued()[j],
            r == final(self).issued()[i as int],
    {
        if self.alphas.len() <= i {
            while self.alphas.len() <= i
                invariant
                    forall|j: int|
                        0 <= j < old(self).alphas@.len() ==> self.alphas@[j] == old(
                            self,
                        ).alphas@[j],
                    old(self).alphas@.len() <= self.alphas@.len() <= i + 1,
                    old(self).alphas@.len() <= i + 1,
                decreases i + 1 - self.alphas@.len(),
            {
                let a = Alpha {
                    w0: os_random_u64(),
                    w1: os_random_u64(),
                    w2: os_random_u64(),
                    w3: os_random_u64(),
                };
                self.alphas.push(a);
            }
        }
        self.alphas[i]
    }
}

/// Returns the randomness provider that will parameterize the transaction
/// authorizations. The spend, conversion and output counts are reserved
/// for key-derivation-path support and are unused. Device-backed signing
/// is a stub: requesting it is an unsupported-path error, and no provider
/// is returned.
pub fn generate_masp_build_params(
    _spend_len: usize,
    _convert_len: usize,
    _output_len: usize,
    args: &TxArgs,
) -> (r: Result<BuildParams, ArgError>)
    ensures
        r is Ok <==> !args.use_device,
        r matches Ok(b) ==> b.issued().len() == 0,
        r matches Err(e) ==> e == ArgError::UnsupportedError,
{
    if args.use_device {
        Err(ArgError::UnsupportedError)
    } else {
        Ok(BuildParams { alphas: Vec::new() })
    }
}

} // verus!
