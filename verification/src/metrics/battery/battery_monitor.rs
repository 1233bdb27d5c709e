//! The battery's charging state, as `/sys/class/power_supply/<supply>/status`
//! names it.
use vstd::prelude::*;

use crate::text::{
    char_pos, chars_of, lemma_char_pos_exact, range_eq_str, string_from_range, trim_range, trimmed,
};

verus! {

/// The states of `status`, and `Invalid` for any other text.
#[derive(Clone, Copy, Debug, PartialEq, Eq, Structural)]
pub enum ChargingState {
    Charging,
    Discharging,
    Full,
    Unknown,
    NotCharging,
    Invalid,
}

/// The state that the trimmed text `t` names.
pub open spec fn charging_state_of(t: Seq<char>) -> ChargingState {
    if t == "Charging"@ {
        ChargingState::Charging
    } else if t == "Discharging"@ {
        ChargingState::Discharging
    } else if t == "Full"@ {
        ChargingState::Full
    } else if t == "Not charging"@ {
        ChargingState::NotCharging
    } else if t == "Unknown"@ {
        ChargingState::Unknown
    } else {
        ChargingState::Invalid
    }
}

impl ChargingState {
    /// The state that `value` names, surrounding whitespace ignored.
    pub fn from(value: &str) -> (r: Self)
        ensures
            r == charging_state_of(trimmed(value@)),
    {
        let v = chars_of(value);
        let (a, b) = trim_range(&v, 0, v.len());
        assert(v@.subrange(0, v@.len() as int) =~= v@);
        if range_eq_str(&v, a, b, "Charging") {
            ChargingState::Charging
        } else if range_eq_str(&v, a, b, "Discharging") {
            ChargingState::Discharging
        } else if range_eq_str(&v, a, b, "Full") {
            ChargingState::Full
        } else if range_eq_str(&v, a, b, "Not charging") {
            ChargingState::NotCharging
        } else if range_eq_str(&v, a, b, "Unknown") {
            ChargingState::Unknown
        } else {
            ChargingState::Invalid
        }
    }
}

/// Asks the battery reading service to take a reading.
#[derive(Clone, Copy, Debug)]
pub struct BatteryReadingTick;

/// Why the output of the battery info command is not a reading.
#[derive(Clone, Debug, PartialEq, Eq)]
pub enum BatteryReadingError {
    /// The output holds no `:`.
    InvalidOutput,
    /// The text before the `:` names no charging state (it is held here).
    InvalidChargingState(String),
}

/// The output of the battery info command, `<state>:<percentage>`, trimmed
/// and split at its first `:`: the state text and the percentage text; none
/// without a `:`.
pub open spec fn battery_output_parts(s: Seq<char>) -> Option<(Seq<char>, Seq<char>)> {
    let t = trimmed(s);
    let n = char_pos(t, ':') as int;
    if n >= t.len() {
        None
    } else {
        Some((t.take(n), t.skip(n + 1)))
    }
}

/// Splits the output of the battery info command (see
/// `battery_reading_parts`); the percentage is the floating-point parse of
/// the text handed back, and must lie in `[0, 100]`.
pub fn split_battery_reading(output: &str) -> (r: Result<(ChargingState, String), BatteryReadingError>)
    ensures
        match battery_output_parts(output@) {
            None => r == Err::<(ChargingState, String), BatteryReadingError>(
                BatteryReadingError::InvalidOutput,
            ),
            Some((state_text, pct_text)) => if charging_state_of(trimmed(state_text))
                == ChargingState::Invalid {
                r matches Err(BatteryReadingError::InvalidChargingState(t)) && t@ == state_text
            } else {
                r matches Ok((state, pct)) && state == charging_state_of(trimmed(state_text)) && pct@
                    == pct_text
            },
        },
{
    let all = chars_of(output);
    let (a, b) = trim_range(&all, 0, all.len());
    assert(all@.subrange(0, all@.len() as int) =~= all@);
    let ghost t = trimmed(output@);
    let mut p = a;
    while p < b && all[p] != ':'
        invariant
            a <= p <= b <= all.len(),
            forall|k: int| a <= k < p ==> #[trigger] all@[k] != ':',
        decreases b - p,
    {
        p = p + 1;
    }
    proof {
        assert(all@.subrange(a as int, b as int) == t);
        assert forall|k: int| 0 <= k < p - a implies #[trigger] t[k] != ':' by {
            assert(t[k] == all@[a + k]);
        }
        if p < b {
            assert(t[p - a] == all@[p as int]);
        }
        lemma_char_pos_exact(t, ':', p - a);
    }
    if p == b {
        return Err(BatteryReadingError::InvalidOutput);
    }
    assert(all@.subrange(a as int, p as int) =~= t.take(p - a));
    let state_text = string_from_range(&all, a, p);
    let state = ChargingState::from(state_text.as_str());
    if state == ChargingState::Invalid {
        return Err(BatteryReadingError::InvalidChargingState(state_text));
    }
    let pct = string_from_range(&all, p + 1, b);
    assert(pct@ =~= t.skip(p - a + 1));
    Ok((state, pct))
}

/// Whether the time and the charge lost since the previous reading count as
/// discharge: only when both that reading and this one are `Discharging`.
/// Otherwise the discharge counters grow by nothing.
pub fn is_discharge_interval(previous: Option<ChargingState>, current: ChargingState) -> (r: bool)
    ensures
        r == (current == ChargingState::Discharging && previous == Some(ChargingState::Discharging)),
{
    match (current, previous) {
        (ChargingState::Discharging, Some(ChargingState::Discharging)) => true,
        _ => false,
    }
}

} // verus!
