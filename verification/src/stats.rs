//! Tallies of broadcasts and queries, and the reports made of them.
use vstd::prelude::*;

use crate::amounts::{lemma_sum_take_mono, lemma_sum_take_succ, sum_u64};
use crate::text::{decimal, join, push_decimal, push_joined, push_str, push_string, string_from_chars};

verus! {

/// How a batch of random document broadcasts went.
pub struct BroadcastRandomDocumentsStats {
    /// How many documents were to be broadcast.
    pub total: u16,
    /// How many were broadcast.
    pub completed: u16,
    /// The error of the last broadcast that failed, if any.
    pub last_error: Option<String>,
}

/// The report of a batch of random document broadcasts.
pub open spec fn broadcast_report(total: u16, completed: u16, last_error: Option<String>) -> Seq<
    char,
> {
    "Broadcast random documents results:\nCompleted "@ + decimal(completed as nat) + " of "@
        + decimal(total as nat) + "\nLast error: "@ + match last_error {
        Some(e) => e@,
        None => Seq::empty(),
    }
}

/// The number of successes among outcomes.
pub open spec fn count_ok(results: Seq<Result<(), String>>) -> nat
    decreases results.len(),
{
    if results.len() == 0 {
        0
    } else {
        count_ok(results.drop_last()) + if results.last() is Ok {
            1nat
        } else {
            0nat
        }
    }
}

/// The error of the last failure among outcomes.
pub open spec fn last_failure(results: Seq<Result<(), String>>) -> Option<Seq<char>>
    decreases results.len(),
{
    if results.len() == 0 {
        None
    } else {
        match results.last() {
            Err(e) => Some(e@),
            Ok(_) => last_failure(results.drop_last()),
        }
    }
}

proof fn lemma_count_ok_bound(results: Seq<Result<(), String>>)
    ensures
        count_ok(results) <= results.len(),
    decreases results.len(),
{
    if results.len() > 0 {
        lemma_count_ok_bound(results.drop_last());
    }
}

impl BroadcastRandomDocumentsStats {
    /// Tallies the outcomes of `total` broadcasts, in the order they finished.
    pub fn tally(total: u16, results: &Vec<Result<(), String>>) -> (r: Self)
        requires
            results@.len() <= total,
        ensures
            r.total == total,
            r.completed == count_ok(results@),
            r.completed <= r.total,
            match r.last_error {
                Some(e) => last_failure(results@) == Some(e@),
                None => last_failure(results@) is None,
            },
    {
        let mut completed: u16 = 0;
        let mut last_error: Option<String> = None;
        let mut i: usize = 0;
        while i < results.len()
            invariant
                i <= results@.len(),
                results@.len() <= total,
                completed == count_ok(results@.take(i as int)),
                match last_error {
                    Some(e) => last_failure(results@.take(i as int)) == Some(e@),
                    None => last_failure(results@.take(i as int)) is None,
                },
            decreases results@.len() - i,
        {
            proof {
                assert(results@.take(i + 1).drop_last() =~= results@.take(i as int));
                lemma_count_ok_bound(results@.take(i as int));
            }
            match &results[i] {
                Ok(_) => {
                    completed = completed + 1;
                },
                Err(e) => {
                    last_error = Some(e.clone());
                },
            }
            i = i + 1;
        }
        proof {
            assert(results@.take(i as int) =~= results@);
            lemma_count_ok_bound(results@);
        }
        BroadcastRandomDocumentsStats { total, completed, last_error }
    }

    /// The report shown after the broadcasts: how many of how many completed and
    /// the last error.
    pub fn info_display(&self) -> (r: String)
        ensures
            r@ == broadcast_report(self.total, self.completed, self.last_error),
    {
        let mut out: Vec<char> = Vec::new();
        push_str(&mut out, "Broadcast random documents results:\nCompleted ");
        push_decimal(&mut out, self.completed as u64);
        push_str(&mut out, " of ");
        push_decimal(&mut out, self.total as u64);
        push_str(&mut out, "\nLast error: ");
        match &self.last_error {
            Some(e) => push_string(&mut out, e),
            None => {},
        }
        assert(out@ =~= broadcast_report(self.total, self.completed, self.last_error));
        string_from_chars(&out)
    }
}

/// The status codes of gRPC, which a failed query carries.
#[derive(PartialEq, Eq, Structural)]
pub enum StatusCode {
    /// The code named `Ok`.
    Success,
    Cancelled,
    Unknown,
    InvalidArgument,
    DeadlineExceeded,
    NotFound,
    AlreadyExists,
    PermissionDenied,
    ResourceExhausted,
    FailedPrecondition,
    Aborted,
    OutOfRange,
    Unimplemented,
    Internal,
    Unavailable,
    DataLoss,
    Unauthenticated,
}

/// The name of a status code, as its debug form prints it.
pub open spec fn status_code_name(c: StatusCode) -> Seq<char> {
    match c {
        StatusCode::Success => "Ok"@,
        StatusCode::Cancelled => "Cancelled"@,
        StatusCode::Unknown => "Unknown"@,
        StatusCode::InvalidArgument => "InvalidArgument"@,
        StatusCode::DeadlineExceeded => "DeadlineExceeded"@,
        StatusCode::NotFound => "NotFound"@,
        StatusCode::AlreadyExists => "AlreadyExists"@,
        StatusCode::PermissionDenied => "PermissionDenied"@,
        StatusCode::ResourceExhausted => "ResourceExhausted"@,
        StatusCode::FailedPrecondition => "FailedPrecondition"@,
        StatusCode::Aborted => "Aborted"@,
        StatusCode::OutOfRange => "OutOfRange"@,
        StatusCode::Unimplemented => "Unimplemented"@,
        StatusCode::Internal => "Internal"@,
        StatusCode::Unavailable => "Unavailable"@,
        StatusCode::DataLoss => "DataLoss"@,
        StatusCode::Unauthenticated => "Unauthenticated"@,
    }
}

fn status_code_text(c: &StatusCode) -> (r: &'static str)
    ensures
        r@ == status_code_name(*c),
{
    match c {
        StatusCode::Success => "Ok",
        StatusCode::Cancelled => "Cancelled",
        StatusCode::Unknown => "Unknown",
        StatusCode::InvalidArgument => "InvalidArgument",
        StatusCode::DeadlineExceeded => "DeadlineExceeded",
        StatusCode::NotFound => "NotFound",
        StatusCode::AlreadyExists => "AlreadyExists",
        StatusCode::PermissionDenied => "PermissionDenied",
        StatusCode::ResourceExhausted => "ResourceExhausted",
        StatusCode::FailedPrecondition => "FailedPrecondition",
        StatusCode::Aborted => "Aborted",
        StatusCode::OutOfRange => "OutOfRange",
        StatusCode::Unimplemented => "Unimplemented",
        StatusCode::Internal => "Internal",
        StatusCode::Unavailable => "Unavailable",
        StatusCode::DataLoss => "DataLoss",
        StatusCode::Unauthenticated => "Unauthenticated",
    }
}

/// The tally of a query load test: successes, and failures by status code in the
/// order their codes first occurred.
pub struct TestSummary {
    pub oks: u64,
    pub errors_per_code: Vec<(StatusCode, u64)>,
}

/// No status code is counted under two entries.
pub open spec fn codes_distinct(e: Seq<(StatusCode, u64)>) -> bool {
    forall|a: int, b: int| 0 <= a < b < e.len() ==> e[a].0 != e[b].0
}

/// The failure counts of a summary.
pub open spec fn error_counts(e: Seq<(StatusCode, u64)>) -> Seq<u64> {
    e.map_values(|x: (StatusCode, u64)| x.1)
}

/// The report of a query load test after `elapsed_secs` seconds.
pub open spec fn test_report(oks: u64, errors: Seq<(StatusCode, u64)>, elapsed_secs: u64) -> Seq<
    char,
> {
    let failed = sum_u64(error_counts(errors));
    let total: nat = oks as nat + failed;
    let rate: nat = if elapsed_secs == 0 {
        0
    } else {
        total / (elapsed_secs as nat)
    };
    let details = if errors.len() == 0 {
        Seq::empty()
    } else {
        ": "@ + join(
            errors.map_values(
                |x: (StatusCode, u64)| status_code_name(x.0) + " - "@ + decimal(x.1 as nat),
            ),
            ", "@,
        )
    };
    decimal(elapsed_secs as nat) + " secs passed. "@ + decimal(total) + " processed ("@ + decimal(
        rate,
    ) + " q/s): "@ + decimal(oks as nat) + " successful, "@ + decimal(failed) + " failed"@
        + details
}

impl TestSummary {
    /// A summary of nothing.
    pub fn new() -> (r: Self)
        ensures
            r.oks == 0,
            r.errors_per_code@.len() == 0,
            codes_distinct(r.errors_per_code@),
    {
        TestSummary { oks: 0, errors_per_code: Vec::new() }
    }

    /// Counts a successful query; the counter wraps around at its end, as an
    /// atomic counter does.
    pub fn add_ok(&mut self)
        ensures
            final(self).oks == (if old(self).oks == u64::MAX {
                0
            } else {
                old(self).oks + 1
            }),
            final(self).errors_per_code == old(self).errors_per_code,
    {
        self.oks = self.oks.wrapping_add(1);
    }

    /// The number of successful queries.
    pub fn oks_count(&self) -> (r: u64)
        ensures
            r == self.oks,
    {
        self.oks
    }

    /// Counts a failed query under its status code: one more for a code met
    /// before (wrapping around at the counter's end), or a first count for a new
    /// code, after the others.
    pub fn add_error(&mut self, code: StatusCode)
        ensures
            final(self).oks == old(self).oks,
            (exists|i: int|
                0 <= i < old(self).errors_per_code@.len() && old(self).errors_per_code@[i].0
                    == code) ==> exists|i: int|
                0 <= i < old(self).errors_per_code@.len() && old(self).errors_per_code@[i].0
                    == code && final(self).errors_per_code@ == old(self).errors_per_code@.update(
                    i,
                    (
                        code,
                        if old(self).errors_per_code@[i].1 == u64::MAX {
                            0
                        } else {
                            (old(self).errors_per_code@[i].1 + 1) as u64
                        },
                    ),
                ),
            (forall|i: int|
                0 <= i < old(self).errors_per_code@.len() ==> old(self).errors_per_code@[i].0
                    != code) ==> final(self).errors_per_code@ == old(self).errors_per_code@.push(
                (code, 1),
            ),
            codes_distinct(old(self).errors_per_code@) ==> codes_distinct(
                final(self).errors_per_code@,
            ),
    {
        let mut i: usize = 0;
        while i < self.errors_per_code.len()
            invariant
                self.errors_per_code == old(self).errors_per_code,
                self.oks == old(self).oks,
                i <= self.errors_per_code@.len(),
                forall|k: int| 0 <= k < i ==> self.errors_per_code@[k].0 != code,
            decreases self.errors_per_code@.len() - i,
        {
            if self.errors_per_code[i].0 == code {
                let count = self.errors_per_code[i].1;
                self.errors_per_code.set(i, (code, count.wrapping_add(1)));
                return;
            }
            i = i + 1;
        }
        self.errors_per_code.push((code, 1));
    }

    /// The number of failed queries.
    pub fn errors_count(&self) -> (r: u64)
        requires
            sum_u64(error_counts(self.errors_per_code@)) <= u64::MAX,
        ensures
            r == sum_u64(error_counts(self.errors_per_code@)),
    {
        let ghost c = error_counts(self.errors_per_code@);
        let mut total: u64 = 0;
        let mut i: usize = 0;
        while i < self.errors_per_code.len()
            invariant
                c == error_counts(self.errors_per_code@),
                sum_u64(c) <= u64::MAX,
                i <= c.len(),
                total == sum_u64(c.take(i as int)),
            decreases c.len() - i,
        {
            proof {
                lemma_sum_take_succ(c, i as int);
                lemma_sum_take_mono(c, i + 1, c.len() as int);
            }
            total = total + self.errors_per_code[i].1;
            i = i + 1;
        }
        assert(c.take(i as int) =~= c);
        total
    }

    /// The report after `elapsed_secs` seconds: time, processed queries and their
    /// rate per second (0 in the first second), successes, failures and the
    /// failures by status code.
    pub fn report_message(&self, elapsed_secs: u64) -> (r: String)
        requires
            self.oks + sum_u64(error_counts(self.errors_per_code@)) <= u64::MAX,
        ensures
            r@ == test_report(self.oks, self.errors_per_code@, elapsed_secs),
    {
        let errors = self.errors_count();
        let total = self.oks + errors;
        let rate = if elapsed_secs == 0 {
            0
        } else {
            total / elapsed_secs
        };
        let mut parts: Vec<Vec<char>> = Vec::new();
        let mut i: usize = 0;
        while i < self.errors_per_code.len()
            invariant
                i <= self.errors_per_code@.len(),
                parts@.map_values(|p: Vec<char>| p@) =~= self.errors_per_code@.take(
                    i as int,
                ).map_values(
                    |x: (StatusCode, u64)| status_code_name(x.0) + " - "@ + decimal(x.1 as nat),
                ),
            decreases self.errors_per_code@.len() - i,
        {
            let ghost before = parts@.map_values(|p: Vec<char>| p@);
            let mut part: Vec<char> = Vec::new();
            push_str(&mut part, status_code_text(&self.errors_per_code[i].0));
            push_str(&mut part, " - ");
            push_decimal(&mut part, self.errors_per_code[i].1);
            parts.push(part);
            proof {
                let x = self.errors_per_code@[i as int];
                let t = status_code_name(x.0) + " - "@ + decimal(x.1 as nat);
                assert(parts@.map_values(|p: Vec<char>| p@) =~= before.push(t));
                assert(self.errors_per_code@.take(i + 1) =~= self.errors_per_code@.take(
                    i as int,
                ).push(x));
            }
            i = i + 1;
        }
        assert(self.errors_per_code@.take(i as int) =~= self.errors_per_code@);
        let mut out: Vec<char> = Vec::new();
        push_decimal(&mut out, elapsed_secs);
        push_str(&mut out, " secs passed. ");
        push_decimal(&mut out, total);
        push_str(&mut out, " processed (");
        push_decimal(&mut out, rate);
        push_str(&mut out, " q/s): ");
        push_decimal(&mut out, self.oks);
        push_str(&mut out, " successful, ");
        push_decimal(&mut out, errors);
        push_str(&mut out, " failed");
        if parts.len() > 0 {
            push_str(&mut out, ": ");
            push_joined(&mut out, &parts, ", ");
        }
        assert(out@ =~= test_report(self.oks, self.errors_per_code@, elapsed_secs));
        string_from_chars(&out)
    }
}

/// The unit of a query rate.
pub enum RateUnit {
    Second,
    Minute,
}

/// The text of a rate unit.
pub open spec fn rate_unit_name(u: RateUnit) -> Seq<char> {
    match u {
        RateUnit::Second => "second"@,
        RateUnit::Minute => "minute"@,
    }
}

/// A rate of queries: how many per unit of time.
pub struct Rate {
    pub rate: u32,
    pub unit: RateUnit,
}

impl Rate {
    /// A rate, which must be above zero.
    pub fn new(rate: u32, unit: RateUnit) -> (r: Self)
        requires
            rate > 0,
        ensures
            r.rate == rate,
            r.unit == unit,
    {
        Rate { rate, unit }
    }

    /// The rate as text: `<rate> per <unit>`.
    pub fn description(&self) -> (r: String)
        ensures
            r@ == decimal(self.rate as nat) + " per "@ + rate_unit_name(self.unit),
    {
        let mut out: Vec<char> = Vec::new();
        push_decimal(&mut out, self.rate as u64);
        push_str(&mut out, " per ");
        match self.unit {
            RateUnit::Second => push_str(&mut out, "second"),
            RateUnit::Minute => push_str(&mut out, "minute"),
        }
        assert(out@ =~= decimal(self.rate as nat) + " per "@ + rate_unit_name(self.unit));
        string_from_chars(&out)
    }
}

} // verus!
