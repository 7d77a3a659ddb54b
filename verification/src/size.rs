//! The size column: exact byte counts and sizes scaled by powers of one
//! thousand.

use vstd::prelude::*;
use crate::text::{decimal_string, decimal_text, digit_glyph, push_decimal};

verus! {

/// How many of the thresholds 1000, 1,000,000 and 1,000,000,000 a byte count
/// has reached: 0 for bytes, 1 for `K`, 2 for `M`, 3 for `G`.
pub open spec fn size_tier(size: nat) -> nat {
    if size < 1_000 {
        0
    } else if size < 1_000_000 {
        1
    } else if size < 1_000_000_000 {
        2
    } else {
        3
    }
}

/// The number of bytes that one unit of a tier stands for.
pub open spec fn tier_unit(tier: nat) -> nat {
    if tier == 0 {
        1
    } else if tier == 1 {
        1_000
    } else if tier == 2 {
        1_000_000
    } else {
        1_000_000_000
    }
}

/// The suffix letter of a tier.
pub open spec fn tier_suffix(tier: nat) -> char {
    if tier == 0 {
        'B'
    } else if tier == 1 {
        'K'
    } else if tier == 2 {
        'M'
    } else {
        'G'
    }
}

/// `size / unit` in tenths, rounded to the nearest tenth with halves going
/// up.
pub open spec fn scaled_tenths(size: nat, unit: nat) -> nat {
    (10 * size + unit / 2) / unit
}

/// The tenths shown for a byte count of tier 1 or above.
pub open spec fn human_tenths(size: nat) -> nat {
    scaled_tenths(size, tier_unit(size_tier(size)))
}

/// The human-readable size: the plain count with `B` below one thousand,
/// else the count scaled to its tier with one decimal digit and the tier's
/// suffix.
pub open spec fn human_size_text(size: nat) -> Seq<char> {
    if size_tier(size) == 0 {
        decimal_text(size).push('B')
    } else {
        decimal_text(human_tenths(size) / 10).push('.').push(
            digit_glyph((human_tenths(size) % 10) as int),
        ).push(tier_suffix(size_tier(size)))
    }
}

/// The size column of an entry: a dash for a directory, whose own size says
/// nothing of its contents; else the human-readable size where asked for, and
/// the exact decimal byte count where not.
pub open spec fn size_column_text(is_dir: bool, size: nat, human: bool) -> Seq<char> {
    if is_dir {
        seq!['-']
    } else if human {
        human_size_text(size)
    } else {
        decimal_text(size)
    }
}

fn tenths_of(size: u64, step: u64) -> (tenths: u64)
    requires
        step == 100 || step == 100_000 || step == 100_000_000,
    ensures
        tenths == scaled_tenths(size as nat, (10 * step) as nat),
{
    let whole = size / step;
    let rest = size % step;
    proof {
        if step == 100 {
            assert((10 * size + 500) / 1_000 == (if rest >= 50 { whole + 1 } else { whole + 0 }));
        } else if step == 100_000 {
            assert((10 * size + 500_000) / 1_000_000 == (if rest >= 50_000 {
                whole + 1
            } else {
                whole + 0
            }));
        } else {
            assert((10 * size + 500_000_000) / 1_000_000_000 == (if rest >= 50_000_000 {
                whole + 1
            } else {
                whole + 0
            }));
        }
    }
    if rest >= step / 2 {
        whole + 1
    } else {
        whole
    }
}

/// Formats a byte count in human-readable form.
pub fn format_size(size: u64) -> (text: String)
    ensures
        text@ == human_size_text(size as nat),
        text@.last() == tier_suffix(size_tier(size as nat)),
{
    let mut text = String::new();
    if size < 1_000 {
        push_decimal(&mut text, size);
        text.push('B');
    } else {
        let (tenths, suffix) = if size < 1_000_000 {
            (tenths_of(size, 100), 'K')
        } else if size < 1_000_000_000 {
            (tenths_of(size, 100_000), 'M')
        } else {
            (tenths_of(size, 100_000_000), 'G')
        };
        push_decimal(&mut text, tenths / 10);
        text.push('.');
        push_decimal(&mut text, tenths % 10);
        text.push(suffix);
    }
    text
}

/// Formats the size column of an entry.
pub fn size_column(is_dir: bool, size: u64, human: bool) -> (text: String)
    ensures
        text@ == size_column_text(is_dir, size as nat, human),
        is_dir ==> text@ == seq!['-'],
{
    if is_dir {
        let mut text = String::new();
        text.push('-');
        text
    } else if human {
        format_size(size)
    } else {
        decimal_string(size)
    }
}

/// The suffix tier never steps down as the byte count grows, and it steps up
/// exactly where the count reaches 1000, 1,000,000 or 1,000,000,000.
pub proof fn lemma_tier_steps_at_thresholds(a: nat, b: nat)
    ensures
        a <= b ==> size_tier(a) <= size_tier(b),
        size_tier(b + 1) > size_tier(b) <==> (b + 1 == 1_000 || b + 1 == 1_000_000 || b + 1
            == 1_000_000_000),
        size_tier(b + 1) <= size_tier(b) + 1,
{
}

/// Within the `K` and `M` tiers the scaled number runs from 1.0 up to 1000.0,
/// and it shows 1000.0 only on the last twentieth of a unit below the next
/// threshold, where rounding to one decimal carries; in the `G` tier it is at
/// least 1.0.
pub proof fn lemma_scaled_number_range(size: nat)
    requires
        size_tier(size) >= 1,
    ensures
        10 <= human_tenths(size),
        size_tier(size) <= 2 ==> human_tenths(size) <= 10_000,
        size_tier(size) <= 2 ==> (human_tenths(size) == 10_000 <==> 1_000 * tier_unit(
            size_tier(size),
        ) <= size + tier_unit(size_tier(size)) / 20),
{
    if size_tier(size) == 1 {
        assert(human_tenths(size) == (10 * size + 500) / 1_000);
    } else if size_tier(size) == 2 {
        assert(human_tenths(size) == (10 * size + 500_000) / 1_000_000);
    } else {
        assert(human_tenths(size) == (10 * size + 500_000_000) / 1_000_000_000);
    }
}

} // verus!
