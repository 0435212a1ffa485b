//! The lines the program shows and persists, built and pinned down exactly.

use vstd::prelude::*;
use vstd::string::StringExecFns;
use crate::price::render_price;
use crate::price::spec_price_text;

verus! {

/// The one line the result file holds for an average of `m` fixed-point
/// units.
pub open spec fn spec_result_line(m: int) -> Seq<char> {
    "Average USD price of BTC: "@ + spec_price_text(m)
}

/// The progress line shown for one observed price text.
pub open spec fn spec_progress_line(price: Seq<char>) -> Seq<char> {
    "Current BTC price in USD: "@ + price
}

/// The line shown when a run completes with an average of `m` fixed-point
/// units.
pub open spec fn spec_complete_line(m: int) -> Seq<char> {
    "Cache complete. The average USD price of BTC is: "@ + spec_price_text(m)
}

/// The result-file line for an average.
pub fn format_result_line(m: u64) -> (r: String)
    ensures
        r@ == spec_result_line(m as int),
{
    String::from_str("Average USD price of BTC: ").concat(render_price(m).as_str())
}

/// The progress line for one observed price text.
pub fn format_progress_line(price: &str) -> (r: String)
    ensures
        r@ == spec_progress_line(price@),
{
    String::from_str("Current BTC price in USD: ").concat(price)
}

/// The completion line for an average.
pub fn format_complete_line(m: u64) -> (r: String)
    ensures
        r@ == spec_complete_line(m as int),
{
    String::from_str("Cache complete. The average USD price of BTC is: ").concat(
        render_price(m).as_str(),
    )
}

} // verus!
