use vstd::prelude::*;

verus! {

/// The payload field that failed domain validation: the context a caller
/// needs to diagnose a value error without retrying blindly.
#[derive(Clone, Copy, Debug, PartialEq, Eq, Structural)]
pub enum Field {
    Token,
    FeeAmount,
    GasLimit,
    PublicKey,
    Source,
    Target,
    Validator,
    Amount,
    Owner,
    SourceValidator,
    DestinationValidator,
    Signer,
    PortId,
    ChannelId,
    Asset,
    Recipient,
    Sender,
    FeePayer,
    FeeToken,
}

/// The error taxonomy of the marshalling and authorization layer.
///
/// Every fallible operation of this crate reports exactly one of these
/// conditions; no partial result is ever returned alongside an error. A
/// value error names the field that failed; a decode error concerns a
/// payload's structure as a whole.
#[derive(Clone, Copy, Debug, PartialEq, Eq, Structural)]
pub enum ArgError {
    /// The binary payload cannot be structurally decoded.
    DecodeError,
    /// The named field decoded structurally but fails domain validation
    /// (bad address, unparsable amount, bad identifier).
    InvalidValueError(Field),
    /// The signing context references a confidential section or its
    /// construction metadata, but the transaction does not carry it.
    MissingSectionError,
    /// The supplied key material cannot yield a spend-authorizing secret.
    KeyDerivationError,
    /// The position map recovered from construction metadata is not a
    /// bijection, or the authorization map does not cover every spend.
    ConsistencyError,
    /// Device-backed signing was requested; that path is not implemented.
    UnsupportedError,
}

impl ArgError {
    /// A short diagnostic label for hosts that render errors as text.
    pub fn describe(&self) -> (r: &'static str)
        ensures
            r@.len() > 0,
    {
        proof {
            reveal_strlit("payload cannot be decoded");
            reveal_strlit("field fails domain validation");
            reveal_strlit("referenced section is missing");
            reveal_strlit("key material cannot sign");
            reveal_strlit("spend position map is inconsistent");
            reveal_strlit("device-backed signing is unsupported");
        }
        match self {
            ArgError::DecodeError => "payload cannot be decoded",
            ArgError::InvalidValueError(_) => "field fails domain validation",
            ArgError::MissingSectionError => "referenced section is missing",
            ArgError::KeyDerivationError => "key material cannot sign",
            ArgError::ConsistencyError => "spend position map is inconsistent",
            ArgError::UnsupportedError => "device-backed signing is unsupported",
        }
    }
}

} // verus!
