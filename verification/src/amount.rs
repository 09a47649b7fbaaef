use vstd::prelude::*;

verus! {

use vstd::string::StrSliceExecFns;
use crate::errors::{ArgError, Field};

/// Denominated token amounts.
///
/// An amount string is one or more decimal digits, optionally followed by
/// one dot and one or more decimal digits. The mantissa is the integer
/// written by the digits with the dot removed; the denomination is the
/// number of digits after the dot. `"10.0"` is mantissa `100` at
/// denomination `1`; `"0"` is mantissa `0` at denomination `0`. Amounts
/// beyond `u128::MAX` at their written denomination, or with more than 255
/// fractional digits, are rejected.

/// The native token's decimal precision: amounts without an explicit
/// denomination are validated against it.
pub const NATIVE_MAX_DECIMAL_PLACES: u8 = 6;

/// A validated denominated amount: `mantissa` is the value scaled by
/// `10^denom`.
#[derive(Clone, Copy, Debug, PartialEq, Eq, Structural)]
pub struct DenomAmount {
    pub mantissa: u128,
    pub denom: u8,
}

/// A validated amount of the native token, held at the native precision:
/// `micro` is the value scaled by `10^NATIVE_MAX_DECIMAL_PLACES`.
#[derive(Clone, Copy, Debug, PartialEq, Eq, Structural)]
pub struct Amount {
    pub micro: u128,
}

pub open spec fn is_digit(c: char) -> bool {
    48 <= c as u32 <= 57
}

pub open spec fn digit_val(c: char) -> int {
    if is_digit(c) {
        c as u32 - 48
    } else {
        0
    }
}

pub open spec fn all_digits(s: Seq<char>) -> bool {
    forall|i: int| 0 <= i < s.len() ==> is_digit(#[trigger] s[i])
}

/// The integer written by a digit sequence, most significant digit first.
pub open spec fn digits_val(s: Seq<char>) -> int
    decreases s.len(),
{
    if s.len() == 0 {
        0
    } else {
        digits_val(s.drop_last()) * 10 + digit_val(s.last())
    }
}

/// The position of the first dot, if any.
pub open spec fn first_dot(s: Seq<char>) -> Option<int>
    decreases s.len(),
{
    if s.len() == 0 {
        None
    } else if s[0] as u32 == 46 {
        Some(0int)
    } else {
        match first_dot(s.drop_first()) {
            Some(i) => Some(i + 1),
            None => None,
        }
    }
}

/// What a denominated amount string parses to, if anything.
pub open spec fn sp_parse_denominated(s: Seq<char>) -> Option<DenomAmount> {
    match first_dot(s) {
        None => if s.len() > 0 && all_digits(s) && digits_val(s) <= u128::MAX {
            Some(DenomAmount { mantissa: digits_val(s) as u128, denom: 0 })
        } else {
            None
        },
        Some(i) => {
            let ip = s.take(i);
            let fp = s.subrange(i + 1, s.len() as int);
            if ip.len() >= 1 && 1 <= fp.len() <= 255 && all_digits(ip) && all_digits(fp)
                && digits_val(ip + fp) <= u128::MAX {
                Some(DenomAmount { mantissa: digits_val(ip + fp) as u128, denom: fp.len() as u8 })
            } else {
                None
            }
        },
    }
}

pub open spec fn pow10(k: nat) -> int
    decreases k,
{
    if k == 0 {
        1
    } else {
        10 * pow10((k - 1) as nat)
    }
}

/// The decimal digits of `n`, most significant first, no leading zeros
/// (except for `n == 0`, written `"0"`).
pub open spec fn dec_digits(n: nat) -> Seq<char>
    decreases n,
{
    if n < 10 {
        seq![((48 + n) as u32) as char]
    } else {
        dec_digits(n / 10).push(((48 + n % 10) as u32) as char)
    }
}

pub open spec fn zero_chars(k: nat) -> Seq<char> {
    Seq::new(k, |i: int| 48u32 as char)
}

/// `dec_digits(n)` padded with leading zeros to at least `k` digits.
pub open spec fn padded_digits(n: nat, k: nat) -> Seq<char> {
    let ds = dec_digits(n);
    if ds.len() >= k {
        ds
    } else {
        zero_chars((k - ds.len()) as nat) + ds
    }
}

/// The canonical string form of a denominated amount: the mantissa's
/// digits with a dot placed `denom` digits from the right, the integer
/// part padded to at least one digit.
pub open spec fn render_chars(a: DenomAmount) -> Seq<char> {
    if a.denom == 0 {
        dec_digits(a.mantissa as nat)
    } else {
        let ds = padded_digits(a.mantissa as nat, (a.denom + 1) as nat);
        ds.take(ds.len() - a.denom) + seq!['.'] + ds.subrange(
            ds.len() - a.denom,
            ds.len() as int,
        )
    }
}

// ---------------------------------------------------------------------------
// facts about the grammar
// ---------------------------------------------------------------------------

/// `first_dot` finds the first dot and nothing earlier.
pub proof fn lemma_first_dot(s: Seq<char>)
    ensures
        match first_dot(s) {
            Some(i) => 0 <= i < s.len() && s[i] as u32 == 46 && (forall|j: int|
                0 <= j < i ==> (#[trigger] s[j]) as u32 != 46),
            None => forall|j: int| 0 <= j < s.len() ==> (#[trigger] s[j]) as u32 != 46,
        },
    decreases s.len(),
{
    if s.len() == 0 {
    } else if s[0] as u32 == 46 {
    } else {
        let t = s.drop_first();
        lemma_first_dot(t);
        match first_dot(t) {
            Some(i) => {
                assert(s[i + 1] == t[i]);
                assert forall|j: int| 0 <= j < i + 1 implies (#[trigger] s[j]) as u32 != 46 by {
                    if j > 0 {
                        assert(s[j] == t[j - 1]);
                    }
                }
            },
            None => {
                assert forall|j: int| 0 <= j < s.len() implies (#[trigger] s[j]) as u32 != 46 by {
                    if j > 0 {
                        assert(s[j] == t[j - 1]);
                    }
                }
            },
        }
    }
}

/// A digit prefix never exceeds the whole digit string in value, and the
/// value never drops as the prefix grows.
pub proof fn lemma_digits_val_take(s: Seq<char>, i: int)
    requires
        0 <= i <= s.len(),
    ensures
        digits_val(s.take(i)) <= digits_val(s),
        digits_val(s) >= 0,
    decreases s.len(),
{
    if s.len() == 0 {
        assert(s.take(i) =~= s);
    } else if i == s.len() {
        assert(s.take(i) =~= s);
        lemma_digits_val_take(s.drop_last(), s.len() - 1);
    } else {
        lemma_digits_val_take(s.drop_last(), i);
        assert(s.take(i) =~= s.drop_last().take(i));
    }
}

/// Leading zeros do not change the value written by a digit string.
pub proof fn lemma_digits_val_pad(z: Seq<char>, s: Seq<char>)
    requires
        forall|i: int| 0 <= i < z.len() ==> (#[trigger] z[i]) as u32 == 48,
    ensures
        digits_val(z + s) == digits_val(s),
    decreases s.len(),
{
    if s.len() == 0 {
        assert(z + s =~= z);
        lemma_digits_val_zeros(z);
    } else {
        assert((z + s).drop_last() =~= z + s.drop_last());
        assert((z + s).last() == s.last());
        lemma_digits_val_pad(z, s.drop_last());
    }
}

proof fn lemma_digits_val_zeros(z: Seq<char>)
    requires
        forall|i: int| 0 <= i < z.len() ==> (#[trigger] z[i]) as u32 == 48,
    ensures
        digits_val(z) == 0,
    decreases z.len(),
{
    if z.len() > 0 {
        lemma_digits_val_zeros(z.drop_last());
    }
}

/// The decimal digits of `n` are digits, spell `n`, and hold no dot.
pub proof fn lemma_dec_digits(n: nat)
    ensures
        dec_digits(n).len() >= 1,
        all_digits(dec_digits(n)),
        digits_val(dec_digits(n)) == n,
    decreases n,
{
    if n < 10 {
        let c = ((48 + n) as u32) as char;
        assert(c as u32 == 48 + n) by {
            assert(48 + n < 128);
        }
        assert(dec_digits(n) =~= seq![c]);
        assert(dec_digits(n).drop_last() =~= Seq::<char>::empty());
        assert(dec_digits(n).last() == c);
        assert(is_digit(c));
        assert(digits_val(Seq::<char>::empty()) == 0);
        assert(digits_val(dec_digits(n)) == digits_val(Seq::<char>::empty()) * 10 + digit_val(c));
    } else {
        lemma_dec_digits(n / 10);
        let c = ((48 + n % 10) as u32) as char;
        assert(c as u32 == 48 + n % 10) by {
            assert(48 + n % 10 < 128);
        }
        let ds = dec_digits(n);
        assert(ds =~= dec_digits(n / 10).push(c));
        assert(ds.drop_last() =~= dec_digits(n / 10));
        assert(ds.last() == c);
        assert(digits_val(ds) == (n / 10) * 10 + n % 10);
        assert((n / 10) * 10 + n % 10 == n) by (nonlinear_arith);
        assert forall|i: int| 0 <= i < ds.len() implies is_digit(#[trigger] ds[i]) by {
            if i < ds.len() - 1 {
                assert(ds[i] == dec_digits(n / 10)[i]);
            }
        }
    }
}

/// Parsing the canonical string form of a denominated amount yields the
/// amount back, exactly: the round trip loses nothing.
pub proof fn lemma_denominated_round_trip(a: DenomAmount)
    ensures
        sp_parse_denominated(render_chars(a)) == Some(a),
{
    let n = a.mantissa as nat;
    lemma_dec_digits(n);
    if a.denom == 0 {
        let s = render_chars(a);
        lemma_first_dot(s);
        if first_dot(s) is Some {
            let i = first_dot(s)->Some_0;
            assert(is_digit(s[i]));
            assert(false);
        }
    } else {
        let k = (a.denom + 1) as nat;
        let ds = padded_digits(n, k);
        assert(all_digits(ds) && digits_val(ds) == n && ds.len() >= k) by {
            if dec_digits(n).len() < k {
                let z = zero_chars((k - dec_digits(n).len()) as nat);
                assert(forall|i: int| 0 <= i < z.len() ==> (#[trigger] z[i]) as u32 == 48);
                lemma_digits_val_pad(z, dec_digits(n));
                assert forall|i: int| 0 <= i < ds.len() implies is_digit(#[trigger] ds[i]) by {
                    if i < z.len() {
                        assert(ds[i] == z[i]);
                    } else {
                        assert(ds[i] == dec_digits(n)[i - z.len()]);
                    }
                }
            }
        }
        let cut = ds.len() - a.denom;
        let ip = ds.take(cut);
        let fp = ds.subrange(cut, ds.len() as int);
        let s = render_chars(a);
        assert(s =~= ip + seq!['.'] + fp);
        assert('.' as u32 == 46);
        assert(s[ip.len() as int] as u32 == 46);
        lemma_first_dot(s);
        match first_dot(s) {
            None => {
                assert(false);
            },
            Some(i) => {
                assert(i <= ip.len()) by {
                    if i > ip.len() {
                        assert(s[ip.len() as int] as u32 != 46);
                    }
                }
                assert(i >= ip.len()) by {
                    if i < ip.len() {
                        assert(s[i] == ip[i]);
                        assert(is_digit(ip[i]));
                    }
                }
                assert(s.take(i) =~= ip);
                assert(s.subrange(i + 1, s.len() as int) =~= fp);
                assert(ip + fp =~= ds);
                assert(digits_val(ds) <= u128::MAX);
            },
        }
    }
}

// ---------------------------------------------------------------------------
// executable parsing
// ---------------------------------------------------------------------------

/// Parses a denominated amount string; `None` exactly on strings outside
/// the grammar or beyond the supported magnitude.
#[verifier::rlimit(100)]
pub fn parse_denominated(s: &str) -> (r: Option<DenomAmount>)
    ensures
        r == sp_parse_denominated(s@),
{
    let ghost cs = s@;
    let n = s.unicode_len();
    // locate the first dot
    let mut dot: Option<usize> = None;
    let mut i: usize = 0;
    while i < n
        invariant
            n == cs.len(),
            cs == s@,
            i <= n,
            match dot {
                Some(p) => p < i && cs[p as int] as u32 == 46 && (forall|j: int|
                    0 <= j < p ==> (#[trigger] cs[j]) as u32 != 46),
                None => forall|j: int| 0 <= j < i ==> (#[trigger] cs[j]) as u32 != 46,
            },
        decreases n - i,
    {
        if dot.is_none() {
            let u = s.get_char(i) as u32;
            if u == 46 {
                dot = Some(i);
            }
        }
        i = i + 1;
    }
    proof {
        lemma_first_dot(cs);
        match dot {
            Some(p) => {
                match first_dot(cs) {
                    None => {
                        assert(false);
                    },
                    Some(fd) => {
                        assert(fd >= p) by {
                            if fd < p {
                                assert(cs[fd] as u32 != 46);
                            }
                        }
                        assert(fd <= p) by {
                            if fd > p {
                                assert(cs[p as int] as u32 != 46);
                            }
                        }
                    },
                }
            },
            None => {
                if first_dot(cs) is Some {
                    let fd = first_dot(cs)->Some_0;
                    assert(cs[fd] as u32 != 46);
                    assert(false);
                }
            },
        }
    }
    // validate the shape
    let (ip_len, fp_len): (usize, usize) = match dot {
        Some(p) => (p, n - p - 1),
        None => (n, 0),
    };
    if ip_len == 0 || (dot.is_some() && (fp_len == 0 || fp_len > 255)) {
        return None;
    }
    // accumulate the mantissa over the digits, skipping the dot
    let ghost digits: Seq<char> = match first_dot(cs) {
        Some(fd) => cs.take(fd) + cs.subrange(fd + 1, cs.len() as int),
        None => cs,
    };
    let mut acc: u128 = 0;
    let mut k: usize = 0;
    while k < n
        invariant
            n == cs.len(),
            cs == s@,
            k <= n,
            1 <= ip_len,
            match dot {
                Some(p) => p < n && first_dot(cs) == Some(p as int) && ip_len == p && fp_len == n
                    - p - 1 && 1 <= fp_len <= 255 && digits == cs.take(p as int) + cs.subrange(
                    p as int + 1,
                    cs.len() as int,
                ),
                None => first_dot(cs) is None && ip_len == n && fp_len == 0 && digits == cs,
            },
            digits.len() == n - (if dot is Some {
                1int
            } else {
                0int
            }),
            forall|j: int|
                0 <= j < (if k > ip_len {
                    k - 1
                } else {
                    k as int
                }) ==> is_digit(#[trigger] digits[j]),
            acc == digits_val(
                digits.take(
                    if k > ip_len {
                        k - 1
                    } else {
                        k as int
                    },
                ),
            ),
        decreases n - k,
    {
        let is_the_dot = match dot {
            Some(p) => k == p,
            None => false,
        };
        if !is_the_dot {
            let u = s.get_char(k) as u32;
            let ghost jj: int = if k > ip_len {
                k - 1
            } else {
                k as int
            };
            proof {
                assert(digits[jj] == cs[k as int]);
            }
            if u < 48 || u > 57 {
                proof {
                    assert(!is_digit(digits[jj]));
                    match first_dot(cs) {
                        Some(fd) => {
                            let ip = cs.take(fd);
                            let fp = cs.subrange(fd + 1, cs.len() as int);
                            if jj < fd {
                                assert(digits[jj] == ip[jj]);
                                assert(!all_digits(ip));
                            } else {
                                assert(digits[jj] == fp[jj - fd]);
                                assert(!all_digits(fp));
                            }
                        },
                        None => {
                            assert(!all_digits(cs));
                        },
                    }
                }
                return None;
            }
            let d = (u - 48) as u128;
            proof {
                assert(is_digit(digits[jj]));
                assert(digit_val(digits[jj]) == u - 48);
                assert(digits.take(jj + 1).drop_last() =~= digits.take(jj));
                assert(digits.take(jj + 1).last() == digits[jj]);
                assert(digits_val(digits.take(jj + 1)) == acc * 10 + d);
            }
            let acc10 = match acc.checked_mul(10) {
                Some(v) => v,
                None => {
                    proof {
                        overflow_case(digits, jj, acc * 10 + d);
                        conclude_too_big(cs, digits);
                    }
                    return None;
                },
            };
            let acc2 = match acc10.checked_add(d) {
                Some(v) => v,
                None => {
                    proof {
                        overflow_case(digits, jj, acc * 10 + d);
                        conclude_too_big(cs, digits);
                    }
                    return None;
                },
            };
            acc = acc2;
        }
        k = k + 1;
    }
    proof {
        assert(digits.take(digits.len() as int) =~= digits);
        match first_dot(cs) {
            Some(fd) => {
                let ip = cs.take(fd);
                let fp = cs.subrange(fd + 1, cs.len() as int);
                assert forall|j: int| 0 <= j < ip.len() implies is_digit(#[trigger] ip[j]) by {
                    assert(ip[j] == digits[j]);
                }
                assert forall|j: int| 0 <= j < fp.len() implies is_digit(#[trigger] fp[j]) by {
                    assert(fp[j] == digits[fd + j]);
                }
                assert(ip + fp =~= digits);
            },
            None => {},
        }
    }
    let denom = fp_len as u8;
    Some(DenomAmount { mantissa: acc, denom })
}

/// A digit string whose prefix already exceeds the representable range is
/// itself beyond it.
proof fn overflow_case(digits: Seq<char>, jj: int, too_big: int)
    requires
        too_big > u128::MAX,
        0 <= jj < digits.len(),
        too_big <= digits_val(digits.take(jj + 1)),
    ensures
        digits_val(digits) > u128::MAX,
{
    lemma_digits_val_take(digits, jj + 1);
}

/// An overlarge digit string makes the whole parse fail, whichever side of
/// the dot it overflows on.
proof fn conclude_too_big(cs: Seq<char>, digits: Seq<char>)
    requires
        digits_val(digits) > u128::MAX,
        match first_dot(cs) {
            Some(fd) => digits == cs.take(fd) + cs.subrange(fd + 1, cs.len() as int),
            None => digits == cs,
        },
    ensures
        sp_parse_denominated(cs) is None,
{
    match first_dot(cs) {
        Some(fd) => {
            lemma_first_dot(cs);
            assert(cs.take(fd) + cs.subrange(fd + 1, cs.len() as int) == digits);
        },
        None => {},
    }
}

impl DenomAmount {
    /// Parses a denominated amount string.
    pub fn from_str(s: &str) -> (r: Result<DenomAmount, ArgError>)
        ensures
            r is Ok <==> sp_parse_denominated(s@) is Some,
            r matches Ok(a) ==> sp_parse_denominated(s@) == Some(a),
            r matches Err(e) ==> e == ArgError::InvalidValueError(Field::Amount),
    {
        match parse_denominated(s) {
            Some(a) => Ok(a),
            None => Err(ArgError::InvalidValueError(Field::Amount)),
        }
    }
}

/// What an amount string means at the native precision, if anything: its
/// written precision must not exceed the native one, and the scaled value
/// must be representable.
pub open spec fn sp_parse_native_amount(s: Seq<char>) -> Option<Amount> {
    match sp_parse_denominated(s) {
        Some(a) => if a.denom <= NATIVE_MAX_DECIMAL_PLACES && a.mantissa * pow10(
            (NATIVE_MAX_DECIMAL_PLACES - a.denom) as nat,
        ) <= u128::MAX {
            Some(
                Amount {
                    micro: (a.mantissa * pow10((NATIVE_MAX_DECIMAL_PLACES - a.denom) as nat)) as u128,
                },
            )
        } else {
            None
        },
        None => None,
    }
}

impl Amount {
    /// Parses an amount string and scales it to the native precision.
    pub fn from_str(s: &str) -> (r: Result<Amount, ArgError>)
        ensures
            r is Ok <==> sp_parse_native_amount(s@) is Some,
            r matches Ok(a) ==> sp_parse_native_amount(s@) == Some(a),
            r matches Err(e) ==> e == ArgError::InvalidValueError(Field::Amount),
    {
        let a = match parse_denominated(s) {
            Some(a) => a,
            None => {
                return Err(ArgError::InvalidValueError(Field::Amount));
            },
        };
        if a.denom > NATIVE_MAX_DECIMAL_PLACES {
            return Err(ArgError::InvalidValueError(Field::Amount));
        }
        let scale = pow10_u128(NATIVE_MAX_DECIMAL_PLACES - a.denom);
        match a.mantissa.checked_mul(scale) {
            Some(v) => Ok(Amount { micro: v }),
            None => Err(ArgError::InvalidValueError(Field::Amount)),
        }
    }
}

fn pow10_u128(k: u8) -> (r: u128)
    requires
        k <= 6,
    ensures
        r == pow10(k as nat),
{
    proof {
        assert(pow10(0) == 1);
        assert(pow10(1) == 10);
        assert(pow10(2) == 100);
        assert(pow10(3) == 1000);
        assert(pow10(4) == 10000);
        assert(pow10(5) == 100000);
        assert(pow10(6) == 1000000);
    }
    if k == 0 {
        1
    } else if k == 1 {
        10
    } else if k == 2 {
        100
    } else if k == 3 {
        1000
    } else if k == 4 {
        10000
    } else if k == 5 {
        100000
    } else {
        1000000
    }
}

/// What a gas limit string means, if anything: a whole number of gas units
/// that fits `u64`.
pub open spec fn sp_parse_gas_limit(s: Seq<char>) -> Option<u64> {
    match sp_parse_denominated(s) {
        Some(a) => if a.denom == 0 && a.mantissa <= u64::MAX {
            Some(a.mantissa as u64)
        } else {
            None
        },
        None => None,
    }
}

/// Parses a gas limit: a plain decimal count of gas units.
pub fn parse_gas_limit(s: &str) -> (r: Result<u64, ArgError>)
    ensures
        r is Ok <==> sp_parse_gas_limit(s@) is Some,
        r matches Ok(g) ==> sp_parse_gas_limit(s@) == Some(g),
        r matches Err(e) ==> e == ArgError::InvalidValueError(Field::GasLimit),
{
    match parse_denominated(s) {
        Some(a) => {
            if a.denom == 0 && a.mantissa <= u64::MAX as u128 {
                Ok(a.mantissa as u64)
            } else {
                Err(ArgError::InvalidValueError(Field::GasLimit))
            }
        },
        None => Err(ArgError::InvalidValueError(Field::GasLimit)),
    }
}

} // verus!
