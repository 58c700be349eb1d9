//! Whether the limits in the settings fit together.

use crate::text::{decimal, decimal_of};
use vstd::prelude::*;

verus! {

/// Limits in the settings.
#[derive(Clone, Copy, Debug, PartialEq, Eq, Structural)]
pub struct RuntimeLimits {
    /// The bits of the threshold, a double-precision number of IEEE 754.
    pub edit_fuzzy_threshold_bits: u64,
    pub max_tokens: i32,
    pub max_turns: i32,
    pub context_compact_pct: u8,
    pub context_reserve_tokens: usize,
    pub context_compact_tail_tokens: usize,
    pub context_compact_max_output_tokens: i32,
    pub max_context_tokens: usize,
}

/// The bits of the number 1.
pub const ONE_BITS: u64 = 0x3FF0_0000_0000_0000;

/// The bits of the number -0, which is no smaller than 0.
pub const MINUS_ZERO_BITS: u64 = 0x8000_0000_0000_0000;

/// Whether bits are those of a number from 0 to 1. Among numbers without a sign the greater has
/// the greater bits.
pub open spec fn in_unit_interval(bits: u64) -> bool {
    bits <= ONE_BITS || bits == MINUS_ZERO_BITS
}

/// How many tokens are kept free for the answer.
pub open spec fn response_budget(max_tokens: int, reserve: int) -> int {
    if max_tokens <= reserve {
        max_tokens
    } else {
        reserve
    }
}

/// What is wrong with a limit, where it is looked at alone.
pub open spec fn single_fault(limits: RuntimeLimits) -> Option<Seq<char>> {
    if !in_unit_interval(limits.edit_fuzzy_threshold_bits) {
        Some("edit_fuzzy_threshold must be a finite number in 0.0..=1.0"@)
    } else if limits.max_tokens <= 0 {
        Some("max_tokens must be greater than 0"@)
    } else if limits.max_turns <= 0 {
        Some("max_turns must be greater than 0"@)
    } else if !(1 <= limits.context_compact_pct <= 100) {
        Some("context_compact_pct must be between 1 and 100"@)
    } else if limits.context_reserve_tokens == 0 {
        Some("context_reserve_tokens must be greater than 0"@)
    } else if limits.context_compact_tail_tokens == 0 {
        Some("context_compact_tail_tokens must be greater than 0"@)
    } else if limits.context_compact_max_output_tokens <= 0 {
        Some("context_compact_max_output_tokens must be greater than 0"@)
    } else {
        None
    }
}

/// What is wrong with the limits, held against the context window.
pub open spec fn window_fault(limits: RuntimeLimits) -> Option<Seq<char>> {
    let window = limits.max_context_tokens as int;
    let reserve = limits.context_reserve_tokens as int;
    let tail = limits.context_compact_tail_tokens as int;
    let output = limits.context_compact_max_output_tokens as int;
    let response = response_budget(limits.max_tokens as int, reserve);
    if reserve >= window {
        Some(
            "context_reserve_tokens ("@ + decimal(reserve as nat)
                + ") must be less than max_context ("@ + decimal(window as nat) + ")"@,
        )
    } else if output >= window {
        Some(
            "context_compact_max_output_tokens ("@ + decimal(output as nat)
                + ") must be less than max_context ("@ + decimal(window as nat) + ")"@,
        )
    } else if tail >= window - response {
        Some(
            "context_compact_tail_tokens ("@ + decimal(tail as nat)
                + ") must be less than the request input budget ("@ + decimal(
                (window - response) as nat,
            ) + " = max_context "@ + decimal(window as nat) + " - response budget "@ + decimal(
                response as nat,
            ) + ")"@,
        )
    } else if output + tail + response > window {
        Some(
            "compaction budget exceeds the context window: context_compact_max_output_tokens ("@
                + decimal(output as nat) + ") + context_compact_tail_tokens ("@ + decimal(
                tail as nat,
            ) + ") + response budget ("@ + decimal(response as nat) + ") = "@ + decimal(
                (output + tail + response) as nat,
            ) + " > max_context ("@ + decimal(window as nat) + ")"@,
        )
    } else {
        None
    }
}

/// What is wrong with the limits. A window of no tokens is one that is not limited.
pub open spec fn limits_fault(limits: RuntimeLimits) -> Option<Seq<char>> {
    if single_fault(limits) is Some {
        single_fault(limits)
    } else if limits.max_context_tokens == 0 {
        None
    } else {
        window_fault(limits)
    }
}

fn check_single(limits: &RuntimeLimits) -> (r: Result<(), String>)
    ensures
        match r {
            Ok(_) => single_fault(*limits) is None,
            Err(e) => single_fault(*limits) == Some(e@),
        },
{
    let bits: u64 = limits.edit_fuzzy_threshold_bits;
    if bits > ONE_BITS && bits != MINUS_ZERO_BITS {
        return Err("edit_fuzzy_threshold must be a finite number in 0.0..=1.0".to_owned());
    }
    if limits.max_tokens <= 0 {
        return Err("max_tokens must be greater than 0".to_owned());
    }
    if limits.max_turns <= 0 {
        return Err("max_turns must be greater than 0".to_owned());
    }
    if limits.context_compact_pct < 1 || limits.context_compact_pct > 100 {
        return Err("context_compact_pct must be between 1 and 100".to_owned());
    }
    if limits.context_reserve_tokens == 0 {
        return Err("context_reserve_tokens must be greater than 0".to_owned());
    }
    if limits.context_compact_tail_tokens == 0 {
        return Err("context_compact_tail_tokens must be greater than 0".to_owned());
    }
    if limits.context_compact_max_output_tokens <= 0 {
        return Err("context_compact_max_output_tokens must be greater than 0".to_owned());
    }
    Ok(())
}

/// A number of tokens in decimal. Two sizes and an `i32` together are less than this.
fn tokens_text(n: u128) -> (r: String)
    ensures
        r@ == decimal(n as nat),
    decreases n,
{
    if n <= u64::MAX as u128 {
        decimal_of(n as u64)
    } else {
        let high: String = tokens_text(n / 10);
        let low: String = decimal_of((n % 10) as u64);
        proof {
            lemma_last_digit(n as nat);
        }
        high.concat(low.as_str())
    }
}

proof fn lemma_last_digit(n: nat)
    requires
        n >= 10,
    ensures
        decimal(n) == decimal(n / 10) + decimal(n % 10),
{
    assert(decimal(n % 10) =~= seq![crate::text::digit((n % 10) as int)]);
    assert(decimal(n) =~= decimal(n / 10) + decimal(n % 10));
}

fn check_window(limits: &RuntimeLimits) -> (r: Result<(), String>)
    requires
        single_fault(*limits) is None,
    ensures
        match r {
            Ok(_) => window_fault(*limits) is None,
            Err(e) => window_fault(*limits) == Some(e@),
        },
{
    let window: u128 = limits.max_context_tokens as u128;
    let reserve: u128 = limits.context_reserve_tokens as u128;
    let tail: u128 = limits.context_compact_tail_tokens as u128;
    let output: u128 = limits.context_compact_max_output_tokens as u128;
    let requested: u128 = limits.max_tokens as u128;
    if reserve >= window {
        return Err(
            "context_reserve_tokens (".to_owned().concat(tokens_text(reserve).as_str()).concat(
                ") must be less than max_context (",
            ).concat(tokens_text(window).as_str()).concat(")"),
        );
    }
    if output >= window {
        return Err(
            "context_compact_max_output_tokens (".to_owned().concat(
                tokens_text(output).as_str(),
            ).concat(") must be less than max_context (").concat(
                tokens_text(window).as_str(),
            ).concat(")"),
        );
    }
    let response: u128 = if requested <= reserve {
        requested
    } else {
        reserve
    };
    let input: u128 = window - response;
    if tail >= input {
        return Err(
            "context_compact_tail_tokens (".to_owned().concat(tokens_text(tail).as_str()).concat(
                ") must be less than the request input budget (",
            ).concat(tokens_text(input).as_str()).concat(" = max_context ").concat(
                tokens_text(window).as_str(),
            ).concat(" - response budget ").concat(tokens_text(response).as_str()).concat(")"),
        );
    }
    let total: u128 = output + tail + response;
    if total > window {
        return Err(
            "compaction budget exceeds the context window: context_compact_max_output_tokens (".to_owned().concat(
            tokens_text(output).as_str()).concat(") + context_compact_tail_tokens (").concat(
                tokens_text(tail).as_str(),
            ).concat(") + response budget (").concat(tokens_text(response).as_str()).concat(
                ") = ",
            ).concat(tokens_text(total).as_str()).concat(" > max_context (").concat(
                tokens_text(window).as_str(),
            ).concat(")"),
        );
    }
    Ok(())
}

/// Whether the limits fit together, or what is wrong with them.
pub fn validate_runtime_limits(limits: &RuntimeLimits) -> (r: Result<(), String>)
    ensures
        match r {
            Ok(_) => limits_fault(*limits) is None,
            Err(e) => limits_fault(*limits) == Some(e@),
        },
{
    match check_single(limits) {
        Err(e) => {
            return Err(e);
        },
        Ok(_) => {},
    }
    if limits.max_context_tokens == 0 {
        return Ok(());
    }
    check_window(limits)
}

/// With limits that were accepted, a context that was compacted fits its window: the summary, the
/// messages that stay and the answer together.
pub proof fn compacted_context_fits(limits: RuntimeLimits)
    requires
        limits_fault(limits) is None,
        limits.max_context_tokens > 0,
    ensures
        limits.context_compact_max_output_tokens + limits.context_compact_tail_tokens
            + response_budget(limits.max_tokens as int, limits.context_reserve_tokens as int)
            <= limits.max_context_tokens,
{
}

} // verus!
