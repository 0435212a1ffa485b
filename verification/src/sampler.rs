//! The sampling run: feed it each response body as it arrives, and it keeps
//! the samples and computes their average. The caller drives the timed loop
//! and the network; every decision about a body lives here.

use vstd::prelude::*;
use vstd::arithmetic::div_mod::lemma_div_is_ordered;
use vstd::arithmetic::div_mod::lemma_div_multiples_vanish;
use crate::price::sample_value;
use crate::price::spec_sample;

verus! {

/// The textual price field of a response body, when the body is a JSON
/// object whose `price` member is a string; nothing otherwise. The outcome
/// depends on the body text alone.
pub uninterp spec fn price_field_of(body: Seq<char>) -> Option<Seq<char>>;

/// Relies on `serde_json::from_str::<serde_json::Value>`, `serde_json::Value::get`
/// and `serde_json::Value::as_str`: together they decode the body as JSON and
/// hand out its `price` field exactly when that field is a string. Each is a
/// pure function of its input, so the outcome is a function of the body text
/// alone, named `price_field_of`.
#[verifier::external_body]
fn decode_price_body(body: &str) -> (r: Option<String>)
    ensures
        r is Some <==> price_field_of(body@) is Some,
        r is Some ==> price_field_of(body@) == Some(r->0@),
{
    match serde_json::from_str::<serde_json::Value>(body) {
        Ok(v) => match v.get("price") {
            Some(p) => p.as_str().map(|s| s.to_string()),
            None => None,
        },
        Err(_) => None,
    }
}

/// The sum of a sequence of samples.
pub open spec fn spec_sum(s: Seq<u64>) -> int
    decreases s.len(),
{
    if s.len() == 0 {
        0
    } else {
        spec_sum(s.drop_last()) + s.last()
    }
}

/// A run that collected no samples has no average.
#[derive(Clone, Copy, Debug, PartialEq, Eq, Structural)]
pub struct NoSamplesError;

/// One sampling run: the samples collected so far, in arrival order. Its
/// view is that sequence of fixed-point sample values.
pub struct Sampler {
    samples: Vec<u64>,
}

impl View for Sampler {
    type V = Seq<u64>;

    closed spec fn view(&self) -> Seq<u64> {
        self.samples@
    }
}

impl Sampler {
    /// A fresh run with no samples.
    pub fn new() -> (s: Sampler)
        ensures
            s@ == Seq::<u64>::empty(),
    {
        let s = Sampler { samples: Vec::new() };
        proof {
            assert(s@ =~= Seq::<u64>::empty());
        }
        s
    }

    /// How many samples the run holds.
    pub fn count(&self) -> (n: usize)
        ensures
            n == self@.len(),
    {
        self.samples.len()
    }

    /// Take one response body. When the body carries a textual price field,
    /// the field's sample value is appended — zero when the text is not a
    /// well-formed price — and the field is handed back for display. When
    /// the body does not decode, nothing changes and nothing is returned;
    /// the run goes on.
    pub fn process_response(&mut self, body: &str) -> (r: Option<String>)
        ensures
            match price_field_of(body@) {
                Some(p) => {
                    &&& r is Some
                    &&& r->0@ == p
                    &&& final(self)@ == old(self)@.push((spec_sample(p) as u64))
                },
                None => {
                    &&& r is None
                    &&& final(self)@ == old(self)@
                },
            },
    {
        match decode_price_body(body) {
            Some(p) => {
                let v = sample_value(p.as_str());
                self.samples.push(v);
                Some(p)
            },
            None => None,
        }
    }

    /// The average of the collected samples, rounded down to a whole number
    /// of fixed-point units; a run with no samples has none.
    pub fn average(&self) -> (r: Result<u64, NoSamplesError>)
        ensures
            self@.len() == 0 ==> r == Err::<u64, NoSamplesError>(NoSamplesError),
            self@.len() > 0 ==> {
                &&& r is Ok
                &&& r->Ok_0 as int == spec_sum(self@) / (self@.len() as int)
            },
    {
        let n = self.samples.len();
        if n == 0 {
            return Err(NoSamplesError);
        }
        let mut sum: u128 = 0;
        let mut i: usize = 0;
        while i < n
            invariant
                n == self@.len(),
                0 <= i <= n,
                sum as int == spec_sum(self@.take(i as int)),
                sum as int <= (i as int) * (u64::MAX as int),
            decreases n - i,
        {
            let x = self.samples[i];
            proof {
                assert(self@.take(i as int + 1).drop_last() =~= self@.take(i as int));
                assert(self@.take(i as int + 1).last() == self@[i as int]);
                assert((i as int) * (u64::MAX as int) + u64::MAX == (i as int + 1) * (
                u64::MAX as int)) by (nonlinear_arith);
                assert((i as int + 1) * (u64::MAX as int) <= u128::MAX) by (nonlinear_arith)
                    requires
                        0 <= i as int + 1 <= 0x10000000000000000,
                ;
            }
            sum = sum + (x as u128);
            i = i + 1;
        }
        proof {
            assert(self@.take(n as int) =~= self@);
            lemma_div_is_ordered(sum as int, (n as int) * (u64::MAX as int), n as int);
            lemma_div_multiples_vanish(u64::MAX as int, n as int);
        }
        let q = sum / (n as u128);
        Ok(q as u64)
    }
}

} // verus!
