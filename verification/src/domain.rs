use vstd::prelude::*;

verus! {

use vstd::utf8::is_ascii_chars;
use vstd::string::StrSliceExecFns;
use crate::errors::{ArgError, Field};

/// Validated domain identifiers.
///
/// Full syntactic validation of addresses, payment addresses, public keys
/// and channel identifiers belongs to the chain's own parsers, outside
/// this layer; here each identifier is held once it has passed the
/// structural shape this layer relies on: non-empty ASCII text. An
/// Ethereum address has a fixed local grammar and is checked in full:
/// `0x` followed by exactly forty hexadecimal digits.

/// The structural shape every identifier must have.
pub open spec fn valid_ident(s: Seq<char>) -> bool {
    s.len() > 0 && is_ascii_chars(s)
}

fn ident_ok(s: &str) -> (r: bool)
    ensures
        r == valid_ident(s@),
{
    !s.is_empty() && s.is_ascii()
}

/// A transparent account or validator address.
#[derive(Debug)]
pub struct Address {
    text: String,
}

impl View for Address {
    type V = Seq<char>;

    closed spec fn view(&self) -> Seq<char> {
        self.text@
    }
}

impl Address {
    /// Validates and records an address string.
    pub fn parse(s: String, field: Field) -> (r: Result<Address, ArgError>)
        ensures
            r is Ok <==> valid_ident(s@),
            r matches Ok(a) ==> a@ == s@,
            r matches Err(e) ==> e == ArgError::InvalidValueError(field),
    {
        if ident_ok(s.as_str()) {
            Ok(Address { text: s })
        } else {
            Err(ArgError::InvalidValueError(field))
        }
    }

    pub fn text(&self) -> (r: &str)
        ensures
            r@ == self@,
    {
        self.text.as_str()
    }
}

/// A shielded payment address: the target of a shielding transfer.
#[derive(Debug)]
pub struct PaymentAddress {
    text: String,
}

impl View for PaymentAddress {
    type V = Seq<char>;

    closed spec fn view(&self) -> Seq<char> {
        self.text@
    }
}

impl PaymentAddress {
    /// Validates and records a payment-address string.
    pub fn parse(s: String, field: Field) -> (r: Result<PaymentAddress, ArgError>)
        ensures
            r is Ok <==> valid_ident(s@),
            r matches Ok(a) ==> a@ == s@,
            r matches Err(e) ==> e == ArgError::InvalidValueError(field),
    {
        if ident_ok(s.as_str()) {
            Ok(PaymentAddress { text: s })
        } else {
            Err(ArgError::InvalidValueError(field))
        }
    }

    pub fn text(&self) -> (r: &str)
        ensures
            r@ == self@,
    {
        self.text.as_str()
    }
}

/// A signer's public key.
#[derive(Debug)]
pub struct PublicKey {
    text: String,
}

impl View for PublicKey {
    type V = Seq<char>;

    closed spec fn view(&self) -> Seq<char> {
        self.text@
    }
}

impl PublicKey {
    /// Validates and records a public-key string.
    pub fn parse(s: String, field: Field) -> (r: Result<PublicKey, ArgError>)
        ensures
            r is Ok <==> valid_ident(s@),
            r matches Ok(a) ==> a@ == s@,
            r matches Err(e) ==> e == ArgError::InvalidValueError(field),
    {
        if ident_ok(s.as_str()) {
            Ok(PublicKey { text: s })
        } else {
            Err(ArgError::InvalidValueError(field))
        }
    }

    pub fn text(&self) -> (r: &str)
        ensures
            r@ == self@,
    {
        self.text.as_str()
    }
}

/// An inter-blockchain transfer port identifier.
#[derive(Debug)]
pub struct PortId {
    text: String,
}

impl View for PortId {
    type V = Seq<char>;

    closed spec fn view(&self) -> Seq<char> {
        self.text@
    }
}

impl PortId {
    /// Validates and records a port identifier.
    pub fn parse(s: String, field: Field) -> (r: Result<PortId, ArgError>)
        ensures
            r is Ok <==> valid_ident(s@),
            r matches Ok(a) ==> a@ == s@,
            r matches Err(e) ==> e == ArgError::InvalidValueError(field),
    {
        if ident_ok(s.as_str()) {
            Ok(PortId { text: s })
        } else {
            Err(ArgError::InvalidValueError(field))
        }
    }

    pub fn text(&self) -> (r: &str)
        ensures
            r@ == self@,
    {
        self.text.as_str()
    }
}

/// An inter-blockchain transfer channel identifier.
#[derive(Debug)]
pub struct ChannelId {
    text: String,
}

impl View for ChannelId {
    type V = Seq<char>;

    closed spec fn view(&self) -> Seq<char> {
        self.text@
    }
}

impl ChannelId {
    /// Validates and records a channel identifier.
    pub fn parse(s: String, field: Field) -> (r: Result<ChannelId, ArgError>)
        ensures
            r is Ok <==> valid_ident(s@),
            r matches Ok(a) ==> a@ == s@,
            r matches Err(e) ==> e == ArgError::InvalidValueError(field),
    {
        if ident_ok(s.as_str()) {
            Ok(ChannelId { text: s })
        } else {
            Err(ArgError::InvalidValueError(field))
        }
    }

    pub fn text(&self) -> (r: &str)
        ensures
            r@ == self@,
    {
        self.text.as_str()
    }
}

// ---------------------------------------------------------------------------
// Ethereum addresses
// ---------------------------------------------------------------------------

pub open spec fn is_hex_digit(c: char) -> bool {
    (48 <= c as u32 <= 57) || (97 <= c as u32 <= 102) || (65 <= c as u32 <= 70)
}

/// `0x` followed by exactly forty hexadecimal digits.
pub open spec fn valid_eth_address(s: Seq<char>) -> bool {
    &&& s.len() == 42
    &&& s[0] as u32 == 48
    &&& s[1] as u32 == 120
    &&& forall|i: int| 2 <= i < 42 ==> is_hex_digit(#[trigger] s[i])
}

/// A bridge-pool asset or recipient address on the Ethereum side.
#[derive(Debug)]
pub struct EthAddress {
    text: String,
}

impl View for EthAddress {
    type V = Seq<char>;

    closed spec fn view(&self) -> Seq<char> {
        self.text@
    }
}

impl EthAddress {
    /// Validates and records an Ethereum address string.
    pub fn parse(s: String, field: Field) -> (r: Result<EthAddress, ArgError>)
        ensures
            r is Ok <==> valid_eth_address(s@),
            r matches Ok(a) ==> a@ == s@,
            r matches Err(e) ==> e == ArgError::InvalidValueError(field),
    {
        let st = s.as_str();
        let n = st.unicode_len();
        if n != 42 {
            return Err(ArgError::InvalidValueError(field));
        }
        if st.get_char(0) as u32 != 48 || st.get_char(1) as u32 != 120 {
            return Err(ArgError::InvalidValueError(field));
        }
        let mut i: usize = 2;
        while i < 42
            invariant
                s@ == st@,
                st@.len() == 42,
                2 <= i <= 42,
                forall|j: int| 2 <= j < i ==> is_hex_digit(#[trigger] st@[j]),
            decreases 42 - i,
        {
            let u = st.get_char(i) as u32;
            let ok = (48 <= u && u <= 57) || (97 <= u && u <= 102) || (65 <= u && u <= 70);
            if !ok {
                return Err(ArgError::InvalidValueError(field));
            }
            i = i + 1;
        }
        Ok(EthAddress { text: s })
    }

    pub fn text(&self) -> (r: &str)
        ensures
            r@ == self@,
    {
        self.text.as_str()
    }
}

/// A decoded extended-key reference: the serialized key material of a
/// shielded source. Its spend-authorizing secret is neutral; a decoded key
/// can never sign. Signing-capable secrets exist only as
/// `crate::sign::SigningKey`, derived at authorization time.
#[derive(Debug)]
pub struct UnauthorizedKey {
    material: Vec<u8>,
}

impl View for UnauthorizedKey {
    type V = Seq<u8>;

    closed spec fn view(&self) -> Seq<u8> {
        self.material@
    }
}

impl UnauthorizedKey {
    /// Records serialized extended-key material; empty material cannot be
    /// a key encoding and is a decode failure.
    pub fn try_from_slice(d: &[u8]) -> (r: Result<UnauthorizedKey, ArgError>)
        ensures
            r is Ok <==> d@.len() > 0,
            r matches Ok(k) ==> k@ == d@,
            r matches Err(e) ==> e == ArgError::DecodeError,
    {
        if d.len() == 0 {
            Err(ArgError::DecodeError)
        } else {
            Ok(UnauthorizedKey { material: vstd::slice::slice_to_vec(d) })
        }
    }

    pub fn material(&self) -> (r: &Vec<u8>)
        ensures
            r@ == self@,
    {
        &self.material
    }
}

} // verus!
