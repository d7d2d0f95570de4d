//! The record-ingestion boundary.
//!
//! The capture tool's drop-count column is a string: usually a decimal
//! count, but sometimes an error sentinel. [`parse_drop_field`] classifies
//! the raw bytes into the tagged [`DropField`], and [`Ingest`] accumulates
//! one file's rows into the series, the dropped-frame total and the taint
//! flag.

use crate::series::{FrameTimeSeries, MAX_FRAME_TIME_US, MAX_SAMPLES};
use vstd::prelude::*;

verus! {

/// One row's drop-count field: either a parsed count, or a field that did
/// not parse as one — the capture tool's error sentinel, or any other
/// malformed text.
#[derive(Clone, Copy, Debug, PartialEq, Eq, Structural)]
pub enum DropField {
    /// The field parsed as a dropped-frame count.
    Count(u64),
    /// The field was not a parseable count; the row taints the dataset.
    Error,
}

/// `b` is a decimal digit.
pub open spec fn is_ascii_digit(b: u8) -> bool {
    48 <= b <= 57
}

/// Every byte of `s` is a decimal digit.
pub open spec fn all_digits(s: Seq<u8>) -> bool {
    forall|i: int| 0 <= i < s.len() ==> is_ascii_digit(s[i])
}

/// The value of `s` read as big-endian decimal digits.
pub open spec fn decimal_value(s: Seq<u8>) -> int
    decreases s.len(),
{
    if s.len() == 0 {
        0
    } else {
        decimal_value(s.drop_last()) * 10 + (s.last() - 48)
    }
}

/// The digit run of a count field: everything after an optional leading
/// plus sign, as the standard integer parser accepts.
pub open spec fn count_digits(s: Seq<u8>) -> Seq<u8> {
    if s.len() >= 1 && s[0] == 43 {
        s.subrange(1, s.len() as int)
    } else {
        s
    }
}

/// What a drop-count field means: a count when its digit run is non-empty,
/// all digits and within `u64`; everything else — the capture tool's error
/// sentinel included — taints the dataset.
pub open spec fn spec_drop_field(s: Seq<u8>) -> DropField {
    let digits = count_digits(s);
    if digits.len() >= 1 && all_digits(digits) && decimal_value(digits) <= u64::MAX {
        DropField::Count(decimal_value(digits) as u64)
    } else {
        DropField::Error
    }
}

/// Extending a decimal prefix by the digit at `i`.
proof fn lemma_decimal_extend(s: Seq<u8>, i: int)
    requires
        0 <= i < s.len(),
    ensures
        decimal_value(s.subrange(0, i + 1)) == decimal_value(s.subrange(0, i)) * 10 + (s[i] - 48),
{
    assert(s.subrange(0, i + 1).drop_last() =~= s.subrange(0, i));
    assert(s.subrange(0, i + 1).last() == s[i]);
}

/// A digit run has a non-negative value.
proof fn lemma_decimal_nonneg(s: Seq<u8>)
    requires
        all_digits(s),
    ensures
        decimal_value(s) >= 0,
    decreases s.len(),
{
    if s.len() > 0 {
        assert(forall|i: int| 0 <= i < s.drop_last().len() ==> is_ascii_digit(s.drop_last()[i]));
        lemma_decimal_nonneg(s.drop_last());
    }
}

/// Reading more digits never shrinks the value.
proof fn lemma_decimal_monotone(s: Seq<u8>, i: int, j: int)
    requires
        all_digits(s),
        0 <= i <= j <= s.len(),
    ensures
        decimal_value(s.subrange(0, i)) <= decimal_value(s.subrange(0, j)),
    decreases j - i,
{
    if i < j {
        lemma_decimal_monotone(s, i, j - 1);
        lemma_decimal_extend(s, j - 1);
        let prefix = s.subrange(0, j - 1);
        assert(forall|k: int| 0 <= k < prefix.len() ==> is_ascii_digit(prefix[k]));
        lemma_decimal_nonneg(prefix);
    }
}

/// A partial value past the overflow check stays past it after the next
/// digit.
proof fn lemma_decimal_overflow_step(val: int, d: int)
    requires
        0 <= d <= 9,
        val > (0xFFFF_FFFF_FFFF_FFFF - d) / 10,
    ensures
        val * 10 + d > 0xFFFF_FFFF_FFFF_FFFF,
{
    let m = 0xFFFF_FFFF_FFFF_FFFF - d;
    vstd::arithmetic::div_mod::lemma_fundamental_div_mod(m, 10);
    vstd::arithmetic::div_mod::lemma_mod_division_less_than_divisor(m, 10);
}

/// Classifies one drop-count field, given as the field's raw bytes.
pub fn parse_drop_field(field: &Vec<u8>) -> (d: DropField)
    ensures
        d == spec_drop_field(field@),
{
    let n = field.len();
    let start: usize = if n >= 1 && field[0] == 43 {
        1
    } else {
        0
    };
    let ghost digits = count_digits(field@);
    proof {
        assert(digits =~= field@.subrange(start as int, n as int));
    }
    if n == start {
        return DropField::Error;
    }
    let mut val: u64 = 0;
    let mut i: usize = start;
    while i < n
        invariant
            start <= i <= n,
            n == field@.len(),
            digits == count_digits(field@),
            digits =~= field@.subrange(start as int, n as int),
            all_digits(digits.subrange(0, i - start)),
            val == decimal_value(digits.subrange(0, i - start)),
        decreases n - i,
    {
        let b = field[i];
        if b < 48 || b > 57 {
            proof {
                assert(digits[i - start] == field@[i as int]);
                assert(!is_ascii_digit(digits[i - start]));
                assert(!all_digits(digits));
            }
            return DropField::Error;
        }
        let d = (b - 48) as u64;
        proof {
            lemma_decimal_extend(digits, i - start);
        }
        if val > (u64::MAX - d) / 10 {
            proof {
                lemma_decimal_overflow_step(val as int, d as int);
                if all_digits(digits) {
                    lemma_decimal_monotone(digits, i - start + 1, digits.len() as int);
                    assert(digits.subrange(0, digits.len() as int) =~= digits);
                }
            }
            return DropField::Error;
        }
        val = val * 10 + d;
        i = i + 1;
    }
    proof {
        assert(digits.subrange(0, digits.len() as int) =~= digits);
    }
    DropField::Count(val)
}

/// Running totals of one file's ingestion: the frame-time series in capture
/// order, the accumulated dropped-frame count, and whether any row's
/// drop-count field failed to parse.
pub struct Ingest {
    /// Frame times in original capture order.
    pub series: FrameTimeSeries,
    /// Sum of the parsed drop counts, saturating at `u64::MAX`.
    pub dropped_frames: u64,
    /// True once any row's drop-count field failed to parse as a count;
    /// never cleared, surfaced in the report as a validity warning.
    pub dataset_has_error: bool,
}

impl Ingest {
    /// The held series fits the representational caps.
    pub open spec fn wf(&self) -> bool {
        self.series.wf()
    }

    /// An ingestion with nothing read yet.
    pub fn new() -> (g: Ingest)
        ensures
            g.series@ == Seq::<u64>::empty(),
            g.dropped_frames == 0,
            !g.dataset_has_error,
            g.wf(),
    {
        Ingest { series: FrameTimeSeries::new(), dropped_frames: 0, dataset_has_error: false }
    }

    /// Ingests one row. The frame time always joins the series — also for a
    /// tainted row; a parsed count accumulates; a field that failed to parse
    /// contributes nothing to the count and sets the taint flag instead.
    /// Refuses the whole row when the series refuses the frame time.
    pub fn add_row(&mut self, frame_time_us: u64, drop_field: DropField) -> (ok: bool)
        requires
            old(self).wf(),
        ensures
            final(self).wf(),
            ok == (frame_time_us <= MAX_FRAME_TIME_US && old(self).series@.len() < MAX_SAMPLES),
            ok ==> final(self).series@ == old(self).series@.push(frame_time_us),
            !ok ==> final(self).series@ == old(self).series@ && final(self).dropped_frames == old(
                self,
            ).dropped_frames && final(self).dataset_has_error == old(self).dataset_has_error,
            ok ==> final(self).dropped_frames == (match drop_field {
                DropField::Count(c) => if old(self).dropped_frames + c <= u64::MAX {
                    old(self).dropped_frames + c
                } else {
                    u64::MAX as int
                },
                DropField::Error => old(self).dropped_frames as int,
            }),
            ok ==> final(self).dataset_has_error == (old(self).dataset_has_error || drop_field
                is Error),
    {
        if !self.series.push(frame_time_us) {
            return false;
        }
        match drop_field {
            DropField::Count(c) => {
                self.dropped_frames = self.dropped_frames.saturating_add(c);
            },
            DropField::Error => {
                self.dataset_has_error = true;
            },
        }
        true
    }
}

} // verus!
