//! Cross-chain address normalization.
//!
//! A chain-native account or contract identifier is carried into the call
//! encoding convention of the execution chain as a fixed-width, 32-byte
//! value.  Shorter native representations are left-padded with zero bytes;
//! longer ones are rejected outright, never truncated.

use vstd::prelude::*;

verus! {

/// The fixed width, in bytes, of a normalized address.
pub const ADDRESS_WIDTH: usize = 32;

/// Why a native address was rejected.
#[derive(Clone, Copy, Debug, PartialEq, Eq, Structural)]
pub enum AddressError {
    /// The native representation is wider than the fixed width.
    TooLong,
    /// The textual form is not a well-formed contract identifier.
    Malformed,
}

/// A chain-native address brought to the fixed 32-byte width.
#[derive(Clone, Debug)]
pub struct NormalizedAddress {
    bytes: Vec<u8>,
}

impl View for NormalizedAddress {
    type V = Seq<u8>;

    closed spec fn view(&self) -> Seq<u8> {
        self.bytes@
    }
}

/// The mathematical result of normalizing `native`: zero bytes up to the
/// fixed width, then the native bytes.
pub open spec fn left_padded(native: Seq<u8>) -> Seq<u8> {
    Seq::new((ADDRESS_WIDTH - native.len()) as nat, |i: int| 0u8) + native
}

impl NormalizedAddress {
    /// A normalized address always holds exactly the fixed width of bytes.
    pub open spec fn wf(&self) -> bool {
        self@.len() == ADDRESS_WIDTH
    }

    /// The underlying 32 bytes.
    pub fn as_bytes(&self) -> (r: &Vec<u8>)
        ensures
            r@ == self@,
    {
        &self.bytes
    }

    /// A fresh normalized address holding the same bytes.
    pub fn duplicate(&self) -> (r: NormalizedAddress)
        ensures
            r@ == self@,
    {
        let n = self.bytes.len();
        let mut bytes: Vec<u8> = Vec::new();
        let mut i: usize = 0;
        while i < n
            invariant
                n == self.bytes@.len(),
                i <= n,
                bytes@ == self.bytes@.take(i as int),
            decreases n - i,
        {
            bytes.push(self.bytes[i]);
            assert(bytes@ =~= self.bytes@.take(i + 1));
            i = i + 1;
        }
        assert(bytes@ =~= self.bytes@);
        NormalizedAddress { bytes }
    }

    /// Whether two normalized addresses hold the same bytes.
    pub fn same_address(&self, other: &NormalizedAddress) -> (r: bool)
        ensures
            r == (self@ == other@),
    {
        bytes_equal(&self.bytes, &other.bytes)
    }
}

/// Whether two byte vectors hold the same bytes in the same order.
pub fn bytes_equal(a: &Vec<u8>, b: &Vec<u8>) -> (r: bool)
    ensures
        r == (a@ == b@),
{
    if a.len() != b.len() {
        assert(a@ != b@) by {
            assert(a@.len() != b@.len());
        }
        return false;
    }
    let n = a.len();
    let mut i: usize = 0;
    while i < n
        invariant
            n == a@.len() == b@.len(),
            i <= n,
            forall|j: int| 0 <= j < i ==> a@[j] == b@[j],
        decreases n - i,
    {
        if a[i] != b[i] {
            return false;
        }
        i = i + 1;
    }
    assert(a@ =~= b@);
    true
}

/// Converts a chain-native address to the fixed 32-byte form.
///
/// Inputs shorter than the fixed width are left-padded with zero bytes;
/// that is the only transformation applied.  Inputs longer than the fixed
/// width are rejected, never truncated.
pub fn normalize(native: &Vec<u8>) -> (r: Result<NormalizedAddress, AddressError>)
    ensures
        native@.len() <= ADDRESS_WIDTH ==> r is Ok,
        native@.len() > ADDRESS_WIDTH ==> r == Result::<NormalizedAddress, AddressError>::Err(
            AddressError::TooLong,
        ),
        r matches Ok(a) ==> a@ == left_padded(native@) && a.wf(),
{
    if native.len() > ADDRESS_WIDTH {
        return Err(AddressError::TooLong);
    }
    let pad = ADDRESS_WIDTH - native.len();
    let mut bytes: Vec<u8> = Vec::new();
    let mut i: usize = 0;
    while i < pad
        invariant
            i <= pad,
            bytes@.len() == i,
            forall|j: int| 0 <= j < i ==> bytes@[j] == 0u8,
        decreases pad - i,
    {
        bytes.push(0u8);
        i = i + 1;
    }
    let n = native.len();
    let mut k: usize = 0;
    while k < n
        invariant
            n == native@.len(),
            k <= n,
            bytes@.len() == pad + k,
            pad == ADDRESS_WIDTH - n,
            forall|j: int| 0 <= j < pad ==> bytes@[j] == 0u8,
            forall|j: int| 0 <= j < k ==> bytes@[pad + j] == native@[j],
        decreases n - k,
    {
        bytes.push(native[k]);
        k = k + 1;
    }
    assert(bytes@ =~= left_padded(native@));
    Ok(NormalizedAddress { bytes })
}

/// Whether `c` is an ASCII hexadecimal digit.
pub open spec fn hex_digit(c: char) -> bool {
    ||| 48 <= c as u32 && c as u32 <= 57
    ||| 97 <= c as u32 && c as u32 <= 102
    ||| 65 <= c as u32 && c as u32 <= 70
}

/// The numeric value of a hexadecimal digit.
pub open spec fn hex_val(c: char) -> u8 {
    let u = c as u32;
    if 48 <= u && u <= 57 {
        (u - 48) as u8
    } else if 97 <= u && u <= 102 {
        (u - 87) as u8
    } else if 65 <= u && u <= 70 {
        (u - 55) as u8
    } else {
        0
    }
}

/// Whether `s` is a well-formed textual contract identifier: the prefix
/// `0x` followed by exactly forty hexadecimal digits.
pub open spec fn valid_contract_id(s: Seq<char>) -> bool {
    &&& s.len() == 42
    &&& s[0] == '0'
    &&& s[1] == 'x'
    &&& forall|i: int| 2 <= i < 42 ==> hex_digit(#[trigger] s[i])
}

/// Byte `j` of the account the contract identifier names.
pub open spec fn decoded_byte(s: Seq<char>, j: int) -> u8 {
    (hex_val(s[2 + 2 * j]) * 16 + hex_val(s[3 + 2 * j])) as u8
}

/// The twenty account bytes a contract identifier names.
pub open spec fn decoded_address(s: Seq<char>) -> Seq<u8> {
    Seq::new(20, |j: int| decoded_byte(s, j))
}

/// The numeric value of `c` as a hexadecimal digit, if it is one.
pub fn hex_value(c: char) -> (r: Option<u8>)
    ensures
        r is Some <==> hex_digit(c),
        r matches Some(v) ==> v == hex_val(c),
{
    let u = c as u32;
    if 48 <= u && u <= 57 {
        Some((u - 48) as u8)
    } else if 97 <= u && u <= 102 {
        Some((u - 87) as u8)
    } else if 65 <= u && u <= 70 {
        Some((u - 55) as u8)
    } else {
        None
    }
}

/// Validates a textual contract identifier and normalizes the account
/// it names to the fixed 32-byte width.
///
/// Accepts exactly the strings of the form `0x` followed by forty
/// hexadecimal digits; anything else is malformed.
#[verifier::loop_isolation(false)]
pub fn parse_contract_id(s: &str) -> (r: Result<NormalizedAddress, AddressError>)
    ensures
        r is Ok <==> valid_contract_id(s@),
        r matches Ok(a) ==> a@ == left_padded(decoded_address(s@)) && a.wf(),
        r matches Err(e) ==> e == AddressError::Malformed,
{
    let n = s.unicode_len();
    if n != 42 {
        return Err(AddressError::Malformed);
    }
    if s.get_char(0) != '0' {
        return Err(AddressError::Malformed);
    }
    if s.get_char(1) != 'x' {
        return Err(AddressError::Malformed);
    }
    let mut bytes: Vec<u8> = Vec::new();
    let mut i: usize = 0;
    while i < 20
        invariant
            i <= 20,
            bytes@.len() == i,
            forall|j: int| 0 <= j < 2 * i ==> hex_digit(#[trigger] s@[2 + j]),
            forall|j: int| 0 <= j < i ==> bytes@[j] == decoded_byte(s@, j),
        decreases 20 - i,
    {
        let hi = s.get_char(2 + 2 * i);
        let lo = s.get_char(3 + 2 * i);
        let h = match hex_value(hi) {
            Some(v) => v,
            None => {
                return Err(AddressError::Malformed);
            },
        };
        let l = match hex_value(lo) {
            Some(v) => v,
            None => {
                return Err(AddressError::Malformed);
            },
        };
        bytes.push(h * 16 + l);
        proof {
            assert forall|j: int| 0 <= j < 2 * (i + 1) implies hex_digit(#[trigger] s@[2 + j]) by {
                if j == 2 * i {
                    assert(s@[2 + j] == hi);
                } else if j == 2 * i + 1 {
                    assert(s@[2 + j] == lo);
                }
            }
        }
        i = i + 1;
    }
    proof {
        assert forall|k: int| 2 <= k < 42 implies hex_digit(#[trigger] s@[k]) by {
            assert(hex_digit(s@[2 + (k - 2)]));
        }
        assert(valid_contract_id(s@));
        assert(bytes@ =~= decoded_address(s@));
    }
    match normalize(&bytes) {
        Ok(a) => Ok(a),
        Err(_) => {
            proof {
                assert(false);
            }
            Err(AddressError::Malformed)
        },
    }
}

/// Normalization is injective on native addresses of equal length: two
/// distinct native addresses of the same valid length never normalize to
/// the same 32-byte value.
///
/// (Across different lengths the zero padding is not injective: a native
/// address and the same address with an extra leading zero byte normalize
/// alike.  Equal width is therefore required here.)
pub proof fn lemma_normalize_injective(a: Seq<u8>, b: Seq<u8>)
    requires
        a.len() == b.len() <= ADDRESS_WIDTH,
        left_padded(a) == left_padded(b),
    ensures
        a == b,
{
    let pad = ADDRESS_WIDTH - a.len();
    assert forall|j: int| 0 <= j < a.len() implies a[j] == b[j] by {
        assert(left_padded(a)[pad + j] == a[j]);
        assert(left_padded(b)[pad + j] == b[j]);
    }
    assert(a =~= b);
}

} // verus!
