//! Order generation: the generation pattern and how an order's priority is
//! drawn.

use vstd::prelude::*;
use rand::Rng;

use crate::models::{Priority, priority_label_spec};
use crate::text::str_eq;

verus! {

/// How pickup locations are spread over the city.
#[derive(Debug, Clone, Copy, PartialEq, Eq, Structural)]
pub enum Pattern {
    Uniform,
    Hotspot,
}

/// The lowercase form of a string under Unicode's case mapping, as the
/// standard library's `str::to_lowercase` computes it.
pub uninterp spec fn lowercase(s: Seq<char>) -> Seq<char>;

/// Calls the standard library's `str::to_lowercase`. Claimed: the result
/// depends on the text alone; the Unicode case mapping itself is not stated.
#[verifier::external_body]
fn to_lowercase(s: &str) -> (r: String)
    ensures
        r@ == lowercase(s@),
{
    s.to_lowercase()
}

/// The pattern a configuration value selects: `hotspot` in any letter case
/// selects the hotspot pattern, anything else the uniform one.
pub open spec fn pattern_of_setting(raw: Seq<char>) -> Pattern {
    if lowercase(raw) == "hotspot"@ {
        Pattern::Hotspot
    } else {
        Pattern::Uniform
    }
}

impl Pattern {
    /// Reads the generation pattern from its configuration value.
    pub fn from_setting(raw: &str) -> (p: Pattern)
        ensures
            p == pattern_of_setting(raw@),
    {
        let lower = to_lowercase(raw);
        if str_eq(lower.as_str(), "hotspot") {
            Pattern::Hotspot
        } else {
            Pattern::Uniform
        }
    }
}

/// The priority drawn for a roll in `0..10000` (hundredths of a percent).
/// Uniform: 3% low, 70% normal, 20% high, 7% urgent. Hotspot (busier areas
/// mean more urgency): 5% low, 50% normal, 30% high, 15% urgent.
pub open spec fn priority_for_roll_spec(pattern: Pattern, roll: int) -> Priority {
    match pattern {
        Pattern::Uniform => if roll < 300 {
            Priority::Low
        } else if roll < 7300 {
            Priority::Normal
        } else if roll < 9300 {
            Priority::High
        } else {
            Priority::Urgent
        },
        Pattern::Hotspot => if roll < 500 {
            Priority::Low
        } else if roll < 5500 {
            Priority::Normal
        } else if roll < 8500 {
            Priority::High
        } else {
            Priority::Urgent
        },
    }
}

/// The priority for a roll in `0..10000`.
pub fn priority_for_roll(pattern: Pattern, roll: u32) -> (p: Priority)
    requires
        roll < 10000,
    ensures
        p == priority_for_roll_spec(pattern, roll as int),
{
    match pattern {
        Pattern::Uniform => {
            if roll < 300 {
                Priority::Low
            } else if roll < 7300 {
                Priority::Normal
            } else if roll < 9300 {
                Priority::High
            } else {
                Priority::Urgent
            }
        },
        Pattern::Hotspot => {
            if roll < 500 {
                Priority::Low
            } else if roll < 5500 {
                Priority::Normal
            } else if roll < 8500 {
                Priority::High
            } else {
                Priority::Urgent
            }
        },
    }
}

/// How many of the rolls in `0..10000` give priority `p` under `pattern`.
pub open spec fn rolls_for(pattern: Pattern, p: Priority) -> int {
    match (pattern, p) {
        (Pattern::Uniform, Priority::Low) => 300,
        (Pattern::Uniform, Priority::Normal) => 7000,
        (Pattern::Uniform, Priority::High) => 2000,
        (Pattern::Uniform, Priority::Urgent) => 700,
        (Pattern::Hotspot, Priority::Low) => 500,
        (Pattern::Hotspot, Priority::Normal) => 5000,
        (Pattern::Hotspot, Priority::High) => 3000,
        (Pattern::Hotspot, Priority::Urgent) => 1500,
    }
}

/// The first roll in `0..10000` that gives priority `p` under `pattern`.
pub open spec fn first_roll_for(pattern: Pattern, p: Priority) -> int {
    match (pattern, p) {
        (Pattern::Uniform, Priority::Low) => 0,
        (Pattern::Uniform, Priority::Normal) => 300,
        (Pattern::Uniform, Priority::High) => 7300,
        (Pattern::Uniform, Priority::Urgent) => 9300,
        (Pattern::Hotspot, Priority::Low) => 0,
        (Pattern::Hotspot, Priority::Normal) => 500,
        (Pattern::Hotspot, Priority::High) => 5500,
        (Pattern::Hotspot, Priority::Urgent) => 8500,
    }
}

/// The rolls giving each priority form one interval of `rolls_for` rolls,
/// so a uniform roll in `0..10000` gives each priority with the pattern's
/// share, and the shares add up to the whole range.
pub proof fn lemma_priority_shares(pattern: Pattern, p: Priority)
    ensures
        0 <= first_roll_for(pattern, p),
        first_roll_for(pattern, p) + rolls_for(pattern, p) <= 10000,
        forall|roll: int|
            0 <= roll < 10000 ==> (#[trigger] priority_for_roll_spec(pattern, roll) == p <==> first_roll_for(
                pattern,
                p,
            ) <= roll < first_roll_for(pattern, p) + rolls_for(pattern, p)),
        rolls_for(pattern, Priority::Low) + rolls_for(pattern, Priority::Normal) + rolls_for(
            pattern,
            Priority::High,
        ) + rolls_for(pattern, Priority::Urgent) == 10000,
{
}

/// Calls `rand::thread_rng()` and `Rng::gen_range(0..bound)`: a random value
/// below `bound` (which must be positive: an empty range panics).
#[verifier::external_body]
fn random_below(bound: u32) -> (r: u32)
    requires
        bound > 0,
    ensures
        r < bound,
{
    rand::thread_rng().gen_range(0..bound)
}

/// Picks a priority level at random according to the pattern's shares.
pub fn pick_priority(pattern: &Pattern) -> (s: &'static str)
    ensures
        exists|roll: int|
            0 <= roll < 10000 && s@ == priority_label_spec(
                #[trigger] priority_for_roll_spec(*pattern, roll),
            ),
{
    let roll = random_below(10000);
    let p = priority_for_roll(*pattern, roll);
    p.label()
}

} // verus!
