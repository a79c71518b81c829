//! Soil-moisture measurement: median filtering of raw ADC samples and the
//! two-point calibration from raw counts to percent.
use vstd::prelude::*;

verus! {

/// Raw ADC samples taken for one logical soil measurement.
pub const SOIL_SAMPLES_PER_MEASUREMENT: usize = 7;

/// Raw ADC counts measured in dry air (0 %) and in water-saturated
/// substrate (100 %).
#[derive(Debug, Clone, Copy, PartialEq, Eq, Structural)]
pub struct SoilCalibration {
    pub dry_raw: u16,
    pub wet_raw: u16,
}

/// Why a soil measurement could not be produced.
#[derive(Debug, Clone, Copy, PartialEq, Eq, Structural)]
pub enum SoilError {
    EmptySamples,
    InvalidCalibration,
}

/// Integer division rounding toward zero, as machine division does.
pub open spec fn quotient_toward_zero(a: int, b: int) -> int {
    if a >= 0 && b > 0 {
        a / b
    } else if a < 0 && b < 0 {
        (-a) / (-b)
    } else if a >= 0 {
        -(a / (-b))
    } else {
        -((-a) / b)
    }
}

/// `value` limited to `0..=100`.
pub open spec fn clamp_percent(value: int) -> int {
    if value < 0 {
        0
    } else if value > 100 {
        100
    } else {
        value
    }
}

/// Moisture in percent for a raw reading: the position of `raw` on the line
/// from `dry_raw` (0 %) to `wet_raw` (100 %), rounded toward zero and
/// clamped to `0..=100`.
pub open spec fn moisture_percent(calibration: SoilCalibration, raw: u16) -> int {
    clamp_percent(
        quotient_toward_zero(
            (raw - calibration.dry_raw) * 100,
            calibration.wet_raw - calibration.dry_raw,
        ),
    )
}

impl SoilCalibration {
    /// A calibration needs two distinct endpoints.
    pub fn validate(self) -> (result: Result<(), SoilError>)
        ensures
            result == (if self.dry_raw == self.wet_raw {
                Err(SoilError::InvalidCalibration)
            } else {
                Ok(())
            }),
    {
        if self.dry_raw == self.wet_raw {
            return Err(SoilError::InvalidCalibration);
        }
        Ok(())
    }

    /// Converts a raw ADC reading to percent moisture.
    pub fn percentage(self, raw: u16) -> (result: Result<u8, SoilError>)
        ensures
            self.dry_raw == self.wet_raw ==> result == Err::<u8, SoilError>(
                SoilError::InvalidCalibration,
            ),
            self.dry_raw != self.wet_raw ==> (result matches Ok(p) && p as int == moisture_percent(
                self,
                raw,
            )),
    {
        self.validate()?;
        let rising = self.wet_raw > self.dry_raw;
        let span: u32 = if rising {
            (self.wet_raw - self.dry_raw) as u32
        } else {
            (self.dry_raw - self.wet_raw) as u32
        };
        let toward_wet = if rising {
            raw >= self.dry_raw
        } else {
            raw <= self.dry_raw
        };
        let distance: u32 = if raw >= self.dry_raw {
            (raw - self.dry_raw) as u32
        } else {
            (self.dry_raw - raw) as u32
        };
        let magnitude: u32 = distance * 100 / span;
        proof {
            let a = (raw - self.dry_raw) * 100;
            let b = self.wet_raw - self.dry_raw;
            assert(distance * 100 == if a >= 0 { a } else { -a });
            assert(span == if b >= 0 { b } else { -b });
            if !toward_wet {
                assert(quotient_toward_zero(a, b) <= 0) by {
                    vstd::arithmetic::div_mod::lemma_div_pos_is_pos(distance * 100, span as int);
                }
            }
        }
        let clamped: u32 = if !toward_wet {
            0
        } else if magnitude > 100 {
            100
        } else {
            magnitude
        };
        Ok(clamped as u8)
    }
}

/// Every element is no larger than every later one.
pub open spec fn ascending(s: Seq<u16>) -> bool {
    forall|i: int, j: int| 0 <= i < j < s.len() ==> s[i] <= s[j]
}

/// The median of an ascending sequence: its middle element for an odd
/// length, the mean of its two middle elements rounded down otherwise.
pub open spec fn median_of_sorted(s: Seq<u16>) -> int {
    let middle = s.len() as int / 2;
    if s.len() % 2 == 1 {
        s[middle] as int
    } else {
        (s[middle - 1] + s[middle]) / 2
    }
}

/// The segment `from..to` of `s` is ascending.
spec fn ascending_between(s: Seq<u16>, from: int, to: int) -> bool {
    forall|i: int, j: int| from <= i < j < to ==> s[i] <= s[j]
}

/// Sorts the samples in place, ascending.
fn sort_ascending(samples: &mut [u16])
    ensures
        ascending(final(samples)@),
        final(samples)@.to_multiset() == old(samples)@.to_multiset(),
        final(samples)@.len() == old(samples)@.len(),
{
    broadcast use vstd::seq_lib::to_multiset_update;
    broadcast use vstd::multiset::group_multiset_axioms;
    let n = samples.len();
    let mut i: usize = 1;
    while i < n
        invariant
            1 <= i || n == 0,
            n == samples@.len(),
            samples@.to_multiset() == old(samples)@.to_multiset(),
            i <= n || n == 0,
            n > 0 ==> ascending_between(samples@, 0, i as int),
        decreases n - i,
    {
        let mut j: usize = i;
        while j > 0 && samples[j - 1] > samples[j]
            invariant
                0 <= j <= i < n,
                n == samples@.len(),
                samples@.to_multiset() == old(samples)@.to_multiset(),
                ascending_between(samples@, 0, j as int),
                ascending_between(samples@, j as int, i + 1),
                forall|a: int, b: int| 0 <= a < j < b <= i ==> samples@[a] <= samples@[b],
            decreases j,
        {
            let left = samples[j - 1];
            let right = samples[j];
            let ghost before = samples@;
            samples[j - 1] = right;
            samples[j] = left;
            proof {
                assert(samples@ == before.update(j - 1, right).update(j as int, left));
                let middle = before.update(j - 1, right);
                vstd::seq_lib::to_multiset_update(before, j - 1, right);
                vstd::seq_lib::to_multiset_update(middle, j as int, left);
                assert(middle[j as int] == right);
                assert(middle.to_multiset() == before.to_multiset().insert(right).remove(left));
                assert(samples@.to_multiset() == middle.to_multiset().insert(left).remove(right));
                assert(before.to_multiset().count(left) > 0) by {
                    vstd::seq_lib::to_multiset_contains(before, left);
                    assert(before[j - 1] == left);
                }
                assert(samples@.to_multiset() =~= before.to_multiset());
                assert forall|a: int, b: int| 0 <= a < j - 1 < b <= i implies samples@[a]
                    <= samples@[b] by {
                    if b == j {
                        assert(before[a] <= before[j - 1]);
                    } else {
                        assert(before[a] <= before[b]);
                    }
                }
                assert forall|a: int, b: int| j - 1 <= a < b < i + 1 implies samples@[a]
                    <= samples@[b] by {
                    if a == j - 1 && b > j {
                        assert(before[j - 1] <= before[b]);
                        assert(before[j as int] <= before[b]);
                    } else if a == j && b > j {
                        assert(before[j - 1] <= before[b]);
                    }
                }
            }
            j -= 1;
        }
        proof {
            assert forall|a: int, b: int| 0 <= a < b < i + 1 implies samples@[a] <= samples@[b] by {
                if a < j && b == j as int {
                    assert(samples@[a] <= samples@[j - 1]);
                }
            }
        }
        i += 1;
    }
}

/// Sorts the samples in place and returns their median; an empty slice is
/// refused and left unchanged.
pub fn median_sample(samples: &mut [u16]) -> (result: Result<u16, SoilError>)
    ensures
        old(samples)@.len() == 0 <==> result == Err::<u16, SoilError>(SoilError::EmptySamples),
        old(samples)@.len() == 0 ==> final(samples)@ == old(samples)@,
        old(samples)@.len() > 0 ==> {
            &&& ascending(final(samples)@)
            &&& final(samples)@.to_multiset() == old(samples)@.to_multiset()
            &&& (result matches Ok(m) && m as int == median_of_sorted(final(samples)@))
        },
{
    if samples.len() == 0 {
        return Err(SoilError::EmptySamples);
    }
    sort_ascending(samples);
    let middle = samples.len() / 2;
    if samples.len() % 2 == 1 {
        Ok(samples[middle])
    } else {
        let lower = samples[middle - 1] as u32;
        let upper = samples[middle] as u32;
        Ok(((lower + upper) / 2) as u16)
    }
}

/// One logical soil measurement: the median of the raw samples (which are
/// left sorted), calibrated to percent. No samples is refused first, then
/// an invalid calibration.
pub fn soil_percent(samples: &mut [u16], calibration: SoilCalibration) -> (result: Result<u8, SoilError>)
    ensures
        old(samples)@.len() == 0 ==> result == Err::<u8, SoilError>(SoilError::EmptySamples)
            && final(samples)@ == old(samples)@,
        old(samples)@.len() > 0 ==> {
            &&& ascending(final(samples)@)
            &&& final(samples)@.to_multiset() == old(samples)@.to_multiset()
            &&& calibration.dry_raw == calibration.wet_raw ==> result == Err::<u8, SoilError>(
                SoilError::InvalidCalibration,
            )
            &&& calibration.dry_raw != calibration.wet_raw ==> (result matches Ok(p) && p as int
                == moisture_percent(calibration, median_of_sorted(final(samples)@) as u16))
        },
{
    let raw = median_sample(samples)?;
    calibration.percentage(raw)
}

/// A calibration maps its dry endpoint to 0 % and its wet endpoint to 100 %.
pub proof fn lemma_calibration_endpoints(calibration: SoilCalibration)
    requires
        calibration.dry_raw != calibration.wet_raw,
    ensures
        moisture_percent(calibration, calibration.dry_raw) == 0,
        moisture_percent(calibration, calibration.wet_raw) == 100,
{
    let b = calibration.wet_raw - calibration.dry_raw;
    if b > 0 {
        assert((b * 100) / b == 100) by (nonlinear_arith)
            requires
                b > 0,
        ;
    } else {
        assert(((-b) * 100) / (-b) == 100) by (nonlinear_arith)
            requires
                b < 0,
        ;
    }
}

/// Moving a reading toward the wet endpoint never lowers the moisture.
pub proof fn lemma_moisture_monotone(calibration: SoilCalibration, raw1: u16, raw2: u16)
    requires
        calibration.dry_raw != calibration.wet_raw,
        (raw2 - raw1) * (calibration.wet_raw - calibration.dry_raw) >= 0,
    ensures
        moisture_percent(calibration, raw1) <= moisture_percent(calibration, raw2),
{
    let d = calibration.dry_raw as int;
    let b = calibration.wet_raw - calibration.dry_raw;
    let a1 = (raw1 - d) * 100;
    let a2 = (raw2 - d) * 100;
    if b > 0 {
        assert(raw1 <= raw2) by (nonlinear_arith)
            requires
                (raw2 - raw1) * b >= 0,
                b > 0,
        ;
        if a1 >= 0 {
            vstd::arithmetic::div_mod::lemma_div_is_ordered(a1, a2, b);
        } else if a2 < 0 {
            vstd::arithmetic::div_mod::lemma_div_is_ordered(-a2, -a1, b);
        } else {
            vstd::arithmetic::div_mod::lemma_div_pos_is_pos(a2, b);
        }
    } else {
        assert(raw1 >= raw2) by (nonlinear_arith)
            requires
                (raw2 - raw1) * b >= 0,
                b < 0,
        ;
        if a1 < 0 {
            vstd::arithmetic::div_mod::lemma_div_is_ordered(-a1, -a2, -b);
        } else if a2 >= 0 {
            vstd::arithmetic::div_mod::lemma_div_is_ordered(a2, a1, -b);
        } else {
            vstd::arithmetic::div_mod::lemma_div_pos_is_pos(-a2, -b);
        }
    }
}

/// The median of a sorted, non-empty set of samples lies between its
/// smallest and largest sample; for an odd count it is one of the samples.
pub proof fn lemma_median_within_samples(s: Seq<u16>)
    requires
        ascending(s),
        s.len() > 0,
    ensures
        s[0] <= median_of_sorted(s) <= s[s.len() - 1],
        s.len() % 2 == 1 ==> s.contains(median_of_sorted(s) as u16),
{
    let middle = s.len() as int / 2;
    if s.len() % 2 == 1 {
        assert(s[middle] == median_of_sorted(s) as u16);
    } else {
        assert(s[0] <= s[middle - 1]);
        assert(s[middle] <= s[s.len() - 1]);
    }
}

} // verus!
