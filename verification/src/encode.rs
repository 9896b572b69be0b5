//! Deterministic construction of the binary call payload.
//!
//! A call against the target contract is one of a closed set of typed
//! variants.  Encoding lays the call out as a four-byte tag naming the
//! variant followed by the call's arguments, each brought to a 32-byte
//! word: unsigned values big-endian and left-padded with zeros, signed
//! values in two's complement sign-extended to the word, addresses as
//! their 32 normalized bytes, and a dynamic list as an offset word, a
//! length word, and the items in order.  Arguments outside their declared
//! ranges make encoding fail; nothing is silently coerced.

use vstd::prelude::*;

use crate::address::ADDRESS_WIDTH;
use crate::address::NormalizedAddress;

verus! {

/// The largest number of tick records one rebalance call may carry.
pub const MAX_REBALANCE_TICKS: usize = 64;

/// Why a call could not be encoded.
#[derive(Clone, Copy, Debug, PartialEq, Eq, Structural)]
pub enum EncodeError {
    /// An address argument does not hold the fixed width of bytes.
    BadAddress,
    /// A numeric argument lies outside its declared range.
    ValueOutOfRange,
    /// A list argument exceeds its declared maximum length.
    TooManyItems,
}

/// One liquidity range of a rebalance call.
#[derive(Clone, Copy, Debug, PartialEq, Eq, Structural)]
pub struct TickInfo {
    /// Position token identifier; any value fits the declared width.
    pub token_id: u64,
    /// Upper tick bound; must fit a signed 24-bit value.
    pub tick_upper: i32,
    /// Lower tick bound; must fit a signed 24-bit value.
    pub tick_lower: i32,
    /// Relative weight of the range; must fit an unsigned 24-bit value.
    pub weight: u32,
}

/// The closed set of permitted contract operations.
#[derive(Clone, Debug)]
pub enum CallVariant {
    /// Point the contract's fee bridge at a new distributor account.
    SetFeesDistributor { new_fees_distributor: NormalizedAddress },
    /// Change the contract's fee, in basis points.
    SetFee { new_fee: u16 },
    /// Grant or revoke a validator flag on the contract.
    SetValidator { validator: NormalizedAddress, approved: bool },
    /// Move the contract's liquidity to a new set of tick ranges.
    Rebalance { ticks: Vec<TickInfo> },
}

/// The opaque binary payload an encoded call produces.
#[derive(Clone, Debug)]
pub struct EncodedPayload {
    bytes: Vec<u8>,
}

impl View for EncodedPayload {
    type V = Seq<u8>;

    closed spec fn view(&self) -> Seq<u8> {
        self.bytes@
    }
}

impl EncodedPayload {
    /// Wraps raw payload bytes.
    pub fn from_bytes(bytes: Vec<u8>) -> (r: EncodedPayload)
        ensures
            r@ == bytes@,
    {
        EncodedPayload { bytes }
    }

    /// The payload bytes.
    pub fn as_bytes(&self) -> (r: &Vec<u8>)
        ensures
            r@ == self@,
    {
        &self.bytes
    }

    /// A fresh payload holding the same bytes.
    pub fn duplicate(&self) -> (r: EncodedPayload)
        ensures
            r@ == self@,
    {
        let mut bytes: Vec<u8> = Vec::new();
        push_bytes(&mut bytes, &self.bytes);
        assert(bytes@ =~= self@);
        EncodedPayload { bytes }
    }
}

/// The big-endian bytes of a 64-bit unsigned value.
pub open spec fn u64_be_bytes(x: u64) -> Seq<u8> {
    seq![
        ((x >> 56) & 0xff) as u8,
        ((x >> 48) & 0xff) as u8,
        ((x >> 40) & 0xff) as u8,
        ((x >> 32) & 0xff) as u8,
        ((x >> 24) & 0xff) as u8,
        ((x >> 16) & 0xff) as u8,
        ((x >> 8) & 0xff) as u8,
        (x & 0xff) as u8,
    ]
}

/// The big-endian bytes of a 32-bit unsigned value.
pub open spec fn u32_be_bytes(x: u32) -> Seq<u8> {
    seq![
        ((x >> 24) & 0xff) as u8,
        ((x >> 16) & 0xff) as u8,
        ((x >> 8) & 0xff) as u8,
        (x & 0xff) as u8,
    ]
}

/// An unsigned value as a 32-byte word: zeros, then the value big-endian.
pub open spec fn uint_word(x: u64) -> Seq<u8> {
    Seq::new(24, |i: int| 0u8) + u64_be_bytes(x)
}

/// A signed value as a 32-byte word in two's complement, sign-extended.
pub open spec fn signed_word(x: i32) -> Seq<u8> {
    if x >= 0 {
        uint_word(x as u64)
    } else {
        Seq::new(28, |i: int| 0xffu8) + u32_be_bytes((x + 0x1_0000_0000) as u32)
    }
}

/// The four-byte tag that opens the payload of each variant.
pub open spec fn selector(call: CallVariant) -> Seq<u8> {
    match call {
        CallVariant::SetFeesDistributor { .. } => seq![0x8fu8, 0x31u8, 0xa2u8, 0x4bu8],
        CallVariant::SetFee { .. } => seq![0x4cu8, 0x0bu8, 0x90u8, 0xf1u8],
        CallVariant::SetValidator { .. } => seq![0x9au8, 0xf1u8, 0x6eu8, 0x22u8],
        CallVariant::Rebalance { .. } => seq![0x72u8, 0xc9u8, 0x8cu8, 0x05u8],
    }
}

/// Whether one tick record lies within its declared ranges.
pub open spec fn tick_valid(t: TickInfo) -> bool {
    &&& -0x80_0000 <= t.tick_upper < 0x80_0000
    &&& -0x80_0000 <= t.tick_lower < 0x80_0000
    &&& t.weight < 0x100_0000
}

/// Whether a call's arguments all satisfy the variant's schema, so that
/// encoding succeeds.
pub open spec fn args_valid(call: CallVariant) -> bool {
    match call {
        CallVariant::SetFeesDistributor { new_fees_distributor } => new_fees_distributor.wf(),
        CallVariant::SetFee { .. } => true,
        CallVariant::SetValidator { validator, .. } => validator.wf(),
        CallVariant::Rebalance { ticks } => {
            &&& ticks@.len() <= MAX_REBALANCE_TICKS
            &&& forall|i: int| 0 <= i < ticks@.len() ==> tick_valid(#[trigger] ticks@[i])
        },
    }
}

/// The four words of one encoded tick record.
pub open spec fn tick_words(t: TickInfo) -> Seq<u8> {
    uint_word(t.token_id) + signed_word(t.tick_upper) + signed_word(t.tick_lower) + uint_word(
        t.weight as u64,
    )
}

/// The encoded tick records of a rebalance call, in order.
pub open spec fn ticks_encoded(ticks: Seq<TickInfo>) -> Seq<u8>
    decreases ticks.len(),
{
    if ticks.len() == 0 {
        Seq::empty()
    } else {
        ticks_encoded(ticks.drop_last()) + tick_words(ticks.last())
    }
}

/// The payload bytes of a call: the variant's tag, then its arguments as
/// 32-byte words.  Encoding is a function of the call value alone.
pub open spec fn encoded(call: CallVariant) -> Seq<u8> {
    match call {
        CallVariant::SetFeesDistributor { new_fees_distributor } => selector(call)
            + new_fees_distributor@,
        CallVariant::SetFee { new_fee } => selector(call) + uint_word(new_fee as u64),
        CallVariant::SetValidator { validator, approved } => selector(call) + validator@
            + uint_word(if approved { 1u64 } else { 0u64 }),
        CallVariant::Rebalance { ticks } => selector(call) + uint_word(0x20) + uint_word(
            ticks@.len() as u64,
        ) + ticks_encoded(ticks@),
    }
}

/// The error [`encode`] reports for a call whose arguments are invalid.
pub open spec fn encode_error(call: CallVariant) -> EncodeError {
    match call {
        CallVariant::SetFeesDistributor { .. } => EncodeError::BadAddress,
        CallVariant::SetFee { .. } => EncodeError::ValueOutOfRange,
        CallVariant::SetValidator { .. } => EncodeError::BadAddress,
        CallVariant::Rebalance { ticks } => if ticks@.len() > MAX_REBALANCE_TICKS {
            EncodeError::TooManyItems
        } else {
            EncodeError::ValueOutOfRange
        },
    }
}

/// Appends every byte of `b` to `out`.
pub fn push_bytes(out: &mut Vec<u8>, b: &Vec<u8>)
    ensures
        final(out)@ == old(out)@ + b@,
{
    let n = b.len();
    let mut i: usize = 0;
    while i < n
        invariant
            n == b@.len(),
            i <= n,
            out@ == old(out)@ + b@.take(i as int),
        decreases n - i,
    {
        out.push(b[i]);
        assert(out@ =~= old(out)@ + b@.take(i + 1));
        i = i + 1;
    }
    assert(out@ =~= old(out)@ + b@);
}

/// Appends `n` copies of `b` to `out`.
fn push_repeat(out: &mut Vec<u8>, b: u8, n: usize)
    ensures
        final(out)@ == old(out)@ + Seq::new(n as nat, |i: int| b),
{
    let mut i: usize = 0;
    while i < n
        invariant
            i <= n,
            out@ == old(out)@ + Seq::new(i as nat, |j: int| b),
        decreases n - i,
    {
        out.push(b);
        assert(out@ =~= old(out)@ + Seq::new((i + 1) as nat, |j: int| b));
        i = i + 1;
    }
}

/// Appends the eight big-endian bytes of `x` to `out`.
fn push_u64_be(out: &mut Vec<u8>, x: u64)
    ensures
        final(out)@ == old(out)@ + u64_be_bytes(x),
{
    out.push(#[verifier::truncate] (((x >> 56) & 0xff) as u8));
    out.push(#[verifier::truncate] (((x >> 48) & 0xff) as u8));
    out.push(#[verifier::truncate] (((x >> 40) & 0xff) as u8));
    out.push(#[verifier::truncate] (((x >> 32) & 0xff) as u8));
    out.push(#[verifier::truncate] (((x >> 24) & 0xff) as u8));
    out.push(#[verifier::truncate] (((x >> 16) & 0xff) as u8));
    out.push(#[verifier::truncate] (((x >> 8) & 0xff) as u8));
    out.push(#[verifier::truncate] ((x & 0xff) as u8));
    assert(final(out)@ =~= old(out)@ + u64_be_bytes(x));
}

/// Appends the four big-endian bytes of `x` to `out`.
fn push_u32_be(out: &mut Vec<u8>, x: u32)
    ensures
        final(out)@ == old(out)@ + u32_be_bytes(x),
{
    out.push(#[verifier::truncate] (((x >> 24) & 0xff) as u8));
    out.push(#[verifier::truncate] (((x >> 16) & 0xff) as u8));
    out.push(#[verifier::truncate] (((x >> 8) & 0xff) as u8));
    out.push(#[verifier::truncate] ((x & 0xff) as u8));
    assert(final(out)@ =~= old(out)@ + u32_be_bytes(x));
}

/// Appends the 32-byte word of an unsigned value to `out`.
fn push_uint_word(out: &mut Vec<u8>, x: u64)
    ensures
        final(out)@ == old(out)@ + uint_word(x),
{
    push_repeat(out, 0u8, 24);
    push_u64_be(out, x);
    assert(final(out)@ =~= old(out)@ + uint_word(x));
}

/// Appends the 32-byte two's complement word of a signed value to `out`.
fn push_signed_word(out: &mut Vec<u8>, x: i32)
    ensures
        final(out)@ == old(out)@ + signed_word(x),
{
    if x >= 0 {
        push_uint_word(out, x as u64);
    } else {
        push_repeat(out, 0xffu8, 28);
        let y: u32 = ((x as i64) + 0x1_0000_0000i64) as u32;
        push_u32_be(out, y);
        assert(final(out)@ =~= old(out)@ + signed_word(x));
    }
}

/// Serializes a call into the binary payload the contract dispatcher
/// expects.
///
/// Succeeds exactly when every argument satisfies the variant's schema;
/// the bytes returned are a pure function of the call value.  An invalid
/// argument is reported as an error, never coerced: a malformed address
/// as [`EncodeError::BadAddress`], an over-long list as
/// [`EncodeError::TooManyItems`], an out-of-range number as
/// [`EncodeError::ValueOutOfRange`].
#[verifier::loop_isolation(false)]
pub fn encode(call: &CallVariant) -> (r: Result<EncodedPayload, EncodeError>)
    ensures
        r is Ok <==> args_valid(*call),
        r matches Ok(p) ==> p@ == encoded(*call),
        r matches Err(e) ==> e == encode_error(*call),
{
    match call {
        CallVariant::SetFeesDistributor { new_fees_distributor } => {
            if new_fees_distributor.as_bytes().len() != ADDRESS_WIDTH {
                return Err(EncodeError::BadAddress);
            }
            let mut out: Vec<u8> = Vec::new();
            out.push(0x8fu8);
            out.push(0x31u8);
            out.push(0xa2u8);
            out.push(0x4bu8);
            push_bytes(&mut out, new_fees_distributor.as_bytes());
            assert(out@ =~= encoded(*call));
            Ok(EncodedPayload { bytes: out })
        },
        CallVariant::SetFee { new_fee } => {
            let mut out: Vec<u8> = Vec::new();
            out.push(0x4cu8);
            out.push(0x0bu8);
            out.push(0x90u8);
            out.push(0xf1u8);
            push_uint_word(&mut out, *new_fee as u64);
            assert(out@ =~= encoded(*call));
            Ok(EncodedPayload { bytes: out })
        },
        CallVariant::SetValidator { validator, approved } => {
            if validator.as_bytes().len() != ADDRESS_WIDTH {
                return Err(EncodeError::BadAddress);
            }
            let mut out: Vec<u8> = Vec::new();
            out.push(0x9au8);
            out.push(0xf1u8);
            out.push(0x6eu8);
            out.push(0x22u8);
            push_bytes(&mut out, validator.as_bytes());
            push_uint_word(&mut out, if *approved { 1u64 } else { 0u64 });
            assert(out@ =~= encoded(*call));
            Ok(EncodedPayload { bytes: out })
        },
        CallVariant::Rebalance { ticks } => {
            let n = ticks.len();
            if n > MAX_REBALANCE_TICKS {
                return Err(EncodeError::TooManyItems);
            }
            let mut v: usize = 0;
            while v < n
                invariant
                    n == ticks@.len(),
                    v <= n,
                    forall|i: int| 0 <= i < v ==> tick_valid(#[trigger] ticks@[i]),
                decreases n - v,
            {
                let t = ticks[v];
                if t.tick_upper < -0x80_0000 || t.tick_upper >= 0x80_0000 || t.tick_lower
                    < -0x80_0000 || t.tick_lower >= 0x80_0000 || t.weight >= 0x100_0000 {
                    return Err(EncodeError::ValueOutOfRange);
                }
                v = v + 1;
            }
            let mut out: Vec<u8> = Vec::new();
            out.push(0x72u8);
            out.push(0xc9u8);
            out.push(0x8cu8);
            out.push(0x05u8);
            push_uint_word(&mut out, 0x20u64);
            push_uint_word(&mut out, n as u64);
            let ghost head: Seq<u8> = out@;
            let mut k: usize = 0;
            while k < n
                invariant
                    n == ticks@.len(),
                    k <= n,
                    forall|i: int| 0 <= i < n ==> tick_valid(#[trigger] ticks@[i]),
                    out@ == head + ticks_encoded(ticks@.take(k as int)),
                decreases n - k,
            {
                let t = ticks[k];
                push_uint_word(&mut out, t.token_id);
                push_signed_word(&mut out, t.tick_upper);
                push_signed_word(&mut out, t.tick_lower);
                push_uint_word(&mut out, t.weight as u64);
                proof {
                    let taken = ticks@.take(k + 1);
                    assert(taken.drop_last() =~= ticks@.take(k as int));
                    assert(taken.last() == ticks@[k as int]);
                    assert(out@ =~= head + ticks_encoded(taken));
                }
                k = k + 1;
            }
            proof {
                assert(ticks@.take(n as int) =~= ticks@);
                assert(out@ =~= encoded(*call));
            }
            Ok(EncodedPayload { bytes: out })
        },
    }
}

/// Encoding is deterministic: any two payloads produced for the same call
/// value hold byte-identical contents.
pub proof fn lemma_encode_deterministic(call: CallVariant, r1: Seq<u8>, r2: Seq<u8>)
    requires
        r1 == encoded(call),
        r2 == encoded(call),
    ensures
        r1 == r2,
{
}

} // verus!
