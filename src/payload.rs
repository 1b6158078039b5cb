use vstd::prelude::*;
use vstd::arithmetic::power2::*;
use vstd::arithmetic::mul::*;
use crate::error::{NodeError, message_of};

verus! {

/// One location report as a client sends it.
///
/// Floating-point fields hold the IEEE 754 binary64 bit pattern of the
/// number (what `f64::to_bits` returns), so that every check on them is
/// exact integer reasoning.
#[derive(Debug, Clone, PartialEq)]
pub struct TelemetryPayload {
    pub user_id: String,
    pub lat: u64,
    pub lon: u64,
    pub accuracy_m: Option<u64>,
    pub unit_label: Option<String>,
}

/// Event type that tags every envelope.
pub const LOCATION_UPDATE_EVENT: &'static str = "AGENT_LOCATION_UPDATE";

/// The envelope an accepted payload is queued and published in.
#[derive(Debug, Clone, PartialEq)]
pub struct WsMessage {
    pub event: String,
    pub data: TelemetryPayload,
}

impl WsMessage {
    /// Wraps a payload as a location update.
    pub fn location_update(data: TelemetryPayload) -> (r: WsMessage)
        ensures
            r.event@ == LOCATION_UPDATE_EVENT@,
            r.data == data,
    {
        WsMessage { event: String::from_str(LOCATION_UPDATE_EVENT), data }
    }
}

/// Biased exponent field of a binary64 bit pattern.
pub open spec fn biased_exponent(bits: u64) -> nat {
    ((bits >> 52u64) & 0x7ffu64) as nat
}

/// Fraction field of a binary64 bit pattern.
pub open spec fn fraction(bits: u64) -> nat {
    (bits & 0xf_ffff_ffff_ffffu64) as nat
}

/// The number is neither infinite nor NaN.
pub open spec fn is_finite(bits: u64) -> bool {
    biased_exponent(bits) != 0x7ff
}

/// Integer significand of an exponent/fraction pair: subnormals have no
/// implicit leading bit.
pub open spec fn significand(e: nat, f: nat) -> nat {
    if e == 0 { f } else { f + pow2(52) }
}

/// Exponent that scales the significand (subnormals share that of the
/// smallest normal numbers).
pub open spec fn scale(e: nat) -> nat {
    if e == 0 { 1 } else { e }
}

/// The magnitude of a finite number is `scaled(e, f) / 2^1075`.
pub open spec fn scaled(e: nat, f: nat) -> nat {
    significand(e, f) * pow2(scale(e))
}

/// The absolute value of the number is at most `n`.
pub open spec fn magnitude_at_most(bits: u64, n: nat) -> bool {
    scaled(biased_exponent(bits), fraction(bits)) <= n * pow2(1075)
}

/// A latitude/longitude pair is accepted: both finite, the latitude in
/// [-90, 90] and the longitude in [-180, 180].
pub open spec fn coordinates_accepted(lat: u64, lon: u64) -> bool {
    &&& is_finite(lat)
    &&& is_finite(lon)
    &&& magnitude_at_most(lat, 90)
    &&& magnitude_at_most(lon, 180)
}

/// Exponent field of 90.0.
pub const LAT_LIMIT_EXP: u64 = 0x405;

/// Fraction field of 90.0.
pub const LAT_LIMIT_FRAC: u64 = 0x6_8000_0000_0000;

/// Exponent field of 180.0.
pub const LON_LIMIT_EXP: u64 = 0x406;

/// Fraction field of 180.0.
pub const LON_LIMIT_FRAC: u64 = 0x6_8000_0000_0000;

proof fn lemma_fields_bounded(bits: u64)
    ensures
        fraction(bits) < pow2(52),
        biased_exponent(bits) <= 0x7ff,
{
    lemma2_to64_rest();
    assert((bits & 0xf_ffff_ffff_ffffu64) < 0x10_0000_0000_0000u64) by (bit_vector);
    assert(((bits >> 52u64) & 0x7ffu64) <= 0x7ffu64) by (bit_vector);
}

/// Binary64 magnitudes grow with the (exponent, fraction) pair in
/// lexicographic order.
proof fn lemma_scaled_strictly_increasing(e1: nat, f1: nat, e2: nat, f2: nat)
    requires
        f1 < pow2(52),
        f2 < pow2(52),
        e1 < e2 || (e1 == e2 && f1 < f2),
    ensures
        scaled(e1, f1) < scaled(e2, f2),
{
    lemma_pow2_pos(scale(e1));
    lemma_pow2_pos(scale(e2));
    if e1 == e2 {
        lemma_mul_strict_inequality(significand(e1, f1) as int, significand(e2, f2) as int,
            pow2(scale(e1)) as int);
    } else {
        // scaled(e1, f1) < 2^52 * 2^t <= 2^52 * 2^scale(e2) <= scaled(e2, f2), where
        // t is scale(e1) for subnormals and scale(e1) + 1 otherwise.
        let s1 = scale(e1);
        lemma_pow2_pos(52);
        let t: nat = if e1 == 0 { s1 } else { s1 + 1 };
        if e1 == 0 {
            lemma_mul_strict_inequality(f1 as int, pow2(52) as int, pow2(s1) as int);
        } else {
            assert(significand(e1, f1) < 2 * pow2(52));
            lemma_mul_strict_inequality(significand(e1, f1) as int, (2 * pow2(52)) as int,
                pow2(s1) as int);
            lemma_pow2_unfold(s1 + 1);
            assert(2 * pow2(52) * pow2(s1) == pow2(52) * pow2(s1 + 1)) by {
                lemma_mul_is_associative(2, pow2(52) as int, pow2(s1) as int);
                lemma_mul_is_associative(pow2(52) as int, 2, pow2(s1) as int);
            }
        }
        if t < scale(e2) {
            lemma_pow2_strictly_increases(t, scale(e2));
        }
        lemma_mul_left_inequality(pow2(52) as int, pow2(t) as int, pow2(scale(e2)) as int);
        lemma_mul_inequality(pow2(52) as int, significand(e2, f2) as int, pow2(scale(e2)) as int);
    }
}

/// Comparing the fields against those of a limit decides the magnitude
/// against the limit's value.
proof fn lemma_fields_decide_magnitude(bits: u64, le: nat, lf: nat, n: nat)
    requires
        lf < pow2(52),
        scaled(le, lf) == n * pow2(1075),
    ensures
        (biased_exponent(bits) < le || (biased_exponent(bits) == le && fraction(bits) <= lf))
            <==> magnitude_at_most(bits, n),
{
    let e = biased_exponent(bits);
    let f = fraction(bits);
    lemma_fields_bounded(bits);
    if e < le || (e == le && f < lf) {
        lemma_scaled_strictly_increasing(e, f, le, lf);
    } else if e == le && f == lf {
    } else {
        lemma_scaled_strictly_increasing(le, lf, e, f);
    }
}

proof fn lemma_limit_values()
    ensures
        scaled(LAT_LIMIT_EXP as nat, LAT_LIMIT_FRAC as nat) == 90 * pow2(1075),
        scaled(LON_LIMIT_EXP as nat, LON_LIMIT_FRAC as nat) == 180 * pow2(1075),
        LAT_LIMIT_FRAC < pow2(52),
        LON_LIMIT_FRAC < pow2(52),
{
    lemma2_to64();
    lemma2_to64_rest();
    // 90 = 0x16_8000_0000_0000 * 2^-46 and 180 = 0x16_8000_0000_0000 * 2^-45.
    assert(significand(LAT_LIMIT_EXP as nat, LAT_LIMIT_FRAC as nat) == 90 * pow2(46));
    assert(significand(LON_LIMIT_EXP as nat, LON_LIMIT_FRAC as nat) == 180 * pow2(45));
    lemma_pow2_adds(46, 1029);
    lemma_pow2_adds(45, 1030);
    lemma_mul_is_associative(90, pow2(46) as int, pow2(1029) as int);
    lemma_mul_is_associative(180, pow2(45) as int, pow2(1030) as int);
}

/// Whether the fields of `bits` are at most the limit's, lexicographically.
fn fields_at_most(bits: u64, limit_exp: u64, limit_frac: u64) -> (r: bool)
    ensures
        r == (biased_exponent(bits) < limit_exp || (biased_exponent(bits) == limit_exp
            && fraction(bits) <= limit_frac)),
{
    let e = (bits >> 52u64) & 0x7ffu64;
    let f = bits & 0xf_ffff_ffff_ffffu64;
    e < limit_exp || (e == limit_exp && f <= limit_frac)
}

/// Checks that a coordinate pair is finite and within bounds. A NaN or an
/// infinity is reported before a range failure.
pub fn validate_coordinates(lat: u64, lon: u64) -> (r: Result<(), NodeError>)
    ensures
        r is Ok <==> coordinates_accepted(lat, lon),
        r is Err ==> r->Err_0 is InvalidPayload,
        r is Err ==> message_of(r->Err_0) == if is_finite(lat) && is_finite(lon) {
            "lat/lon out of range"@
        } else {
            "Coordinates must be finite numbers"@
        },
{
    proof {
        lemma_limit_values();
        lemma_fields_decide_magnitude(lat, LAT_LIMIT_EXP as nat, LAT_LIMIT_FRAC as nat, 90);
        lemma_fields_decide_magnitude(lon, LON_LIMIT_EXP as nat, LON_LIMIT_FRAC as nat, 180);
    }
    let lat_finite = (lat >> 52u64) & 0x7ffu64 != 0x7ffu64;
    let lon_finite = (lon >> 52u64) & 0x7ffu64 != 0x7ffu64;
    if !lat_finite || !lon_finite {
        return Err(NodeError::InvalidPayload(String::from_str("Coordinates must be finite numbers")));
    }
    if !fields_at_most(lat, LAT_LIMIT_EXP, LAT_LIMIT_FRAC)
        || !fields_at_most(lon, LON_LIMIT_EXP, LON_LIMIT_FRAC) {
        return Err(NodeError::InvalidPayload(String::from_str("lat/lon out of range")));
    }
    Ok(())
}

/// Validates a payload and hands it back unchanged. Only the coordinates
/// are checked; the other fields pass through.
pub fn validate(payload: TelemetryPayload) -> (r: Result<TelemetryPayload, NodeError>)
    ensures
        r is Ok <==> coordinates_accepted(payload.lat, payload.lon),
        r is Ok ==> r->Ok_0 == payload,
        r is Err ==> r->Err_0 is InvalidPayload,
{
    match validate_coordinates(payload.lat, payload.lon) {
        Ok(()) => Ok(payload),
        Err(e) => Err(e),
    }
}

} // verus!
