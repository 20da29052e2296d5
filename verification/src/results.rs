//! Probe results and the incremental best-result selection rule.
//!
//! Durations are carried as microseconds and throughput as bits per second,
//! so that every comparison and computation is exact integer arithmetic.

use vstd::prelude::*;
use vstd::string::StringExecFns;

verus! {

/// Two DNS throughputs closer to each other than this (in bits per second)
/// count as tied, and latency breaks the tie.
pub const SPEED_TOLERANCE_BPS: u64 = 10_000;

/// The outcome of probing one DNS resolver.
#[derive(Debug)]
pub struct DnsTestResult {
    /// The resolver's address, in its canonical textual form.
    pub ip: String,
    /// How long the name lookup took, when it succeeded.
    pub latency_micros: Option<u64>,
    /// Measured download throughput in bits per second, when the download
    /// stage ran to completion.
    pub download_speed_bps: Option<u64>,
    /// The last failing stage's message, if any stage failed.
    pub error: Option<String>,
}

impl Clone for DnsTestResult {
    fn clone(&self) -> (r: Self)
        ensures
            r == *self,
    {
        DnsTestResult {
            ip: self.ip.clone(),
            latency_micros: self.latency_micros,
            download_speed_bps: self.download_speed_bps,
            error: match &self.error {
                Some(e) => Some(e.clone()),
                None => None,
            },
        }
    }
}

impl DnsTestResult {
    /// A fresh result for `ip` with nothing measured yet.
    pub fn new(ip: String) -> (r: Self)
        ensures
            r.ip == ip,
            r.latency_micros is None,
            r.download_speed_bps is None,
            r.error is None,
    {
        DnsTestResult { ip, latency_micros: None, download_speed_bps: None, error: None }
    }
}

/// The outcome of probing one mirror.
#[derive(Debug)]
pub struct MirrorTestResult {
    pub name: String,
    pub url: String,
    /// Measured throughput in bits per second, when the fetch succeeded.
    pub speed_bps: Option<u64>,
    pub error: Option<String>,
}

impl Clone for MirrorTestResult {
    fn clone(&self) -> (r: Self)
        ensures
            r == *self,
    {
        MirrorTestResult {
            name: self.name.clone(),
            url: self.url.clone(),
            speed_bps: self.speed_bps,
            error: match &self.error {
                Some(e) => Some(e.clone()),
                None => None,
            },
        }
    }
}

/// Throughput in bits per second given a byte count and an elapsed time in
/// microseconds; zero when no time has passed.
pub open spec fn throughput_of(bytes: u64, micros: u64) -> int {
    if micros == 0 {
        0
    } else {
        (bytes * 8_000_000) / (micros as int)
    }
}

/// Compute throughput in bits per second, saturating at `u64::MAX`.
pub fn throughput_bps(bytes: u64, micros: u64) -> (r: u64)
    ensures
        r == if throughput_of(bytes, micros) > u64::MAX {
            u64::MAX as int
        } else {
            throughput_of(bytes, micros)
        },
{
    if micros == 0 {
        return 0;
    }
    proof {
        assert(bytes * 8_000_000 <= u64::MAX * 8_000_000) by (nonlinear_arith)
            requires
                bytes <= u64::MAX,
        ;
    }
    let product: u128 = (bytes as u128) * 8_000_000u128;
    let v: u128 = product / (micros as u128);
    if v > u64::MAX as u128 {
        u64::MAX
    } else {
        v as u64
    }
}

/// A mirror probe stops reading once it has seen a mebibyte or has been
/// running for more than seven seconds.
pub fn mirror_should_stop(total_bytes: usize, elapsed_secs: u64) -> (r: bool)
    ensures
        r == (total_bytes >= 1_048_576 || elapsed_secs > 7),
{
    total_bytes >= 1_048_576 || elapsed_secs > 7
}

/// Assemble a DNS result from the two probe stages. The download stage runs
/// exactly when the latency stage succeeded; a failing stage's message is
/// recorded with the stage named, and only the last failing stage is kept.
pub fn dns_stage_result(
    ip: String,
    latency: Result<u64, String>,
    download: Option<Result<u64, String>>,
) -> (r: DnsTestResult)
    requires
        (latency is Ok) <==> (download is Some),
    ensures
        r.ip == ip,
        match latency {
            Result::Err(e) => {
                &&& r.latency_micros is None
                &&& r.download_speed_bps is None
                &&& r.error matches Some(m) && m@ == "Latency test failed: "@ + e@
            },
            Result::Ok(l) => {
                &&& r.latency_micros == Some(l)
                &&& match download->Some_0 {
                    Result::Ok(s) => r.download_speed_bps == Some(s) && r.error is None,
                    Result::Err(e) => {
                        &&& r.download_speed_bps is None
                        &&& r.error matches Some(m) && m@ == "Download test failed: "@ + e@
                    },
                }
            },
        },
{
    match latency {
        Result::Err(e) => DnsTestResult {
            ip,
            latency_micros: None,
            download_speed_bps: None,
            error: Some(String::from_str("Latency test failed: ").concat(e.as_str())),
        },
        Result::Ok(l) => match download {
            Some(Result::Ok(s)) => DnsTestResult {
                ip,
                latency_micros: Some(l),
                download_speed_bps: Some(s),
                error: None,
            },
            Some(Result::Err(e)) => DnsTestResult {
                ip,
                latency_micros: Some(l),
                download_speed_bps: None,
                error: Some(String::from_str("Download test failed: ").concat(e.as_str())),
            },
            // the download stage runs exactly when the latency stage
            // succeeded, so there is no outcome to miss here
            None => vstd::pervasive::unreached(),
        },
    }
}

/// The result recorded when a candidate's whole probe overran the hard
/// deadline: any partial progress is discarded.
pub fn dns_timeout_result(ip: String) -> (r: DnsTestResult)
    ensures
        r.ip == ip,
        r.latency_micros is None,
        r.download_speed_bps is None,
        r.error matches Some(m) && m@ == "Test timed out (exceeded 7.5s)"@,
{
    DnsTestResult {
        ip,
        latency_micros: None,
        download_speed_bps: None,
        error: Some(String::from_str("Test timed out (exceeded 7.5s)")),
    }
}

/// Assemble a mirror result from the probe's outcome.
pub fn mirror_result_of(name: String, url: String, outcome: Result<u64, String>) -> (r:
    MirrorTestResult)
    ensures
        r.name == name,
        r.url == url,
        match outcome {
            Result::Ok(s) => r.speed_bps == Some(s) && r.error is None,
            Result::Err(e) => r.speed_bps is None && r.error == Some(e),
        },
{
    match outcome {
        Result::Ok(s) => MirrorTestResult { name, url, speed_bps: Some(s), error: None },
        Result::Err(e) => MirrorTestResult { name, url, speed_bps: None, error: Some(e) },
    }
}

/// Latency tie-break: a strictly lower measured latency wins; a missing
/// latency loses to any measured one.
pub open spec fn dns_latency_better(new: DnsTestResult, best: DnsTestResult) -> bool {
    match (new.latency_micros, best.latency_micros) {
        (Some(l1), Some(l2)) => l1 < l2,
        (Some(l1), None) => true,
        _ => false,
    }
}

/// The DNS ordering rule: a measured throughput beats a missing one; two
/// throughputs that differ by more than the tolerance are decided by the
/// larger; otherwise latency breaks the tie.
pub open spec fn dns_better(new: DnsTestResult, best: DnsTestResult) -> bool {
    match (new.download_speed_bps, best.download_speed_bps) {
        (Some(s1), Some(s2)) => if (if s1 >= s2 {
            s1 - s2
        } else {
            s2 - s1
        }) > SPEED_TOLERANCE_BPS {
            s1 > s2
        } else {
            dns_latency_better(new, best)
        },
        (Some(s1), None) => true,
        (None, Some(s2)) => false,
        (None, None) => dns_latency_better(new, best),
    }
}

/// A result with no error and at least one measurement may become the first
/// best.
pub open spec fn dns_first_best(r: DnsTestResult) -> bool {
    r.error is None && (r.latency_micros is Some || r.download_speed_bps is Some)
}

/// How one recorded DNS result updates the best pointer.
pub open spec fn dns_best_step(best: Option<DnsTestResult>, r: DnsTestResult) -> Option<
    DnsTestResult,
> {
    match best {
        None => if dns_first_best(r) {
            Some(r)
        } else {
            None
        },
        Some(b) => if dns_better(r, b) {
            Some(r)
        } else {
            Some(b)
        },
    }
}

/// The mirror ordering rule: a larger measured throughput wins; a measured
/// throughput beats a missing one.
pub open spec fn mirror_better(new: MirrorTestResult, best: MirrorTestResult) -> bool {
    match (new.speed_bps, best.speed_bps) {
        (Some(s1), Some(s2)) => s1 > s2,
        (Some(s1), None) => true,
        _ => false,
    }
}

/// A mirror result with no error and a measured throughput may become the
/// first best.
pub open spec fn mirror_first_best(r: MirrorTestResult) -> bool {
    r.error is None && r.speed_bps is Some
}

/// How one recorded mirror result updates the best pointer.
pub open spec fn mirror_best_step(best: Option<MirrorTestResult>, r: MirrorTestResult) -> Option<
    MirrorTestResult,
> {
    match best {
        None => if mirror_first_best(r) {
            Some(r)
        } else {
            None
        },
        Some(b) => if mirror_better(r, b) {
            Some(r)
        } else {
            Some(b)
        },
    }
}

/// Decide the DNS ordering rule on two concrete results.
pub fn is_dns_better(new: &DnsTestResult, best: &DnsTestResult) -> (r: bool)
    ensures
        r == dns_better(*new, *best),
{
    match (new.download_speed_bps, best.download_speed_bps) {
        (Some(s1), Some(s2)) => {
            let diff: u64 = if s1 >= s2 {
                s1 - s2
            } else {
                s2 - s1
            };
            if diff > SPEED_TOLERANCE_BPS {
                s1 > s2
            } else {
                is_dns_latency_better(new, best)
            }
        },
        (Some(_), None) => true,
        (None, Some(_)) => false,
        (None, None) => is_dns_latency_better(new, best),
    }
}

fn is_dns_latency_better(new: &DnsTestResult, best: &DnsTestResult) -> (r: bool)
    ensures
        r == dns_latency_better(*new, *best),
{
    match (new.latency_micros, best.latency_micros) {
        (Some(l1), Some(l2)) => l1 < l2,
        (Some(_), None) => true,
        _ => false,
    }
}

/// Decide the mirror ordering rule on two concrete results.
pub fn is_mirror_better(new: &MirrorTestResult, best: &MirrorTestResult) -> (r: bool)
    ensures
        r == mirror_better(*new, *best),
{
    match (new.speed_bps, best.speed_bps) {
        (Some(s1), Some(s2)) => s1 > s2,
        (Some(_), None) => true,
        _ => false,
    }
}

/// The best pointer left behind when a sequence of DNS results is recorded
/// one at a time, starting from `best`.
pub open spec fn dns_best_fold(best: Option<DnsTestResult>, results: Seq<DnsTestResult>) -> Option<
    DnsTestResult,
>
    decreases results.len(),
{
    if results.len() == 0 {
        best
    } else {
        dns_best_step(dns_best_fold(best, results.drop_last()), results.last())
    }
}

/// The best pointer left behind when a sequence of mirror results is
/// recorded one at a time, starting from `best`.
pub open spec fn mirror_best_fold(
    best: Option<MirrorTestResult>,
    results: Seq<MirrorTestResult>,
) -> Option<MirrorTestResult>
    decreases results.len(),
{
    if results.len() == 0 {
        best
    } else {
        mirror_best_step(mirror_best_fold(best, results.drop_last()), results.last())
    }
}

/// The best pointer a whole run's recorded DNS results leave behind.
pub open spec fn dns_best_of(results: Seq<DnsTestResult>) -> Option<DnsTestResult> {
    dns_best_fold(None, results)
}

/// The best pointer a whole run's recorded mirror results leave behind.
pub open spec fn mirror_best_of(results: Seq<MirrorTestResult>) -> Option<MirrorTestResult> {
    mirror_best_fold(None, results)
}

/// Recording one more result folds it in with one best-step.
pub proof fn lemma_dns_best_fold_push(
    best: Option<DnsTestResult>,
    results: Seq<DnsTestResult>,
    r: DnsTestResult,
)
    ensures
        dns_best_fold(best, results.push(r)) == dns_best_step(dns_best_fold(best, results), r),
{
    assert(results.push(r).drop_last() =~= results);
}

/// Recording one more mirror result folds it in with one best-step.
pub proof fn lemma_mirror_best_fold_push(
    best: Option<MirrorTestResult>,
    results: Seq<MirrorTestResult>,
    r: MirrorTestResult,
)
    ensures
        mirror_best_fold(best, results.push(r)) == mirror_best_step(
            mirror_best_fold(best, results),
            r,
        ),
{
    assert(results.push(r).drop_last() =~= results);
}

/// Law: recording never clears the DNS best pointer — once set, it stays
/// set through any sequence of results.
pub proof fn lemma_dns_best_fold_some(best: Option<DnsTestResult>, results: Seq<DnsTestResult>)
    ensures
        best is Some ==> dns_best_fold(best, results) is Some,
    decreases results.len(),
{
    if results.len() > 0 {
        lemma_dns_best_fold_some(best, results.drop_last());
    }
}

/// Law: recording never clears the mirror best pointer.
pub proof fn lemma_mirror_best_fold_some(
    best: Option<MirrorTestResult>,
    results: Seq<MirrorTestResult>,
)
    ensures
        best is Some ==> mirror_best_fold(best, results) is Some,
    decreases results.len(),
{
    if results.len() > 0 {
        lemma_mirror_best_fold_some(best, results.drop_last());
    }
}

/// Law: the DNS best pointer is monotone. Recording one more result never
/// clears it, and changes it only to a result that is strictly better under
/// the ordering rule (or fills it for the first time with an eligible
/// result).
pub proof fn lemma_dns_best_monotonic(results: Seq<DnsTestResult>, i: int)
    requires
        0 <= i < results.len(),
    ensures
        dns_best_of(results.take(i)) is Some ==> dns_best_of(results.take(i + 1)) is Some,
        dns_best_of(results.take(i + 1)) != dns_best_of(results.take(i)) ==> match dns_best_of(
            results.take(i),
        ) {
            Some(b) => dns_best_of(results.take(i + 1)) == Some(results[i]) && dns_better(
                results[i],
                b,
            ),
            None => dns_best_of(results.take(i + 1)) == Some(results[i]) && dns_first_best(
                results[i],
            ),
        },
{
    assert(results.take(i + 1).drop_last() =~= results.take(i));
    assert(results.take(i + 1).last() == results[i]);
}

/// Law: the mirror best pointer is monotone in the same sense.
pub proof fn lemma_mirror_best_monotonic(results: Seq<MirrorTestResult>, i: int)
    requires
        0 <= i < results.len(),
    ensures
        mirror_best_of(results.take(i)) is Some ==> mirror_best_of(results.take(i + 1)) is Some,
        mirror_best_of(results.take(i + 1)) != mirror_best_of(results.take(i)) ==> match
            mirror_best_of(results.take(i)) {
            Some(b) => mirror_best_of(results.take(i + 1)) == Some(results[i]) && mirror_better(
                results[i],
                b,
            ),
            None => mirror_best_of(results.take(i + 1)) == Some(results[i]) && mirror_first_best(
                results[i],
            ),
        },
{
    assert(results.take(i + 1).drop_last() =~= results.take(i));
    assert(results.take(i + 1).last() == results[i]);
}

/// Law: one recording step never regresses the DNS best pointer — the
/// pointer stays, fills for the first time with an eligible result, or
/// moves to a strictly better result; it is never cleared.
pub proof fn lemma_dns_best_step_monotonic(best: Option<DnsTestResult>, r: DnsTestResult)
    ensures
        best is Some ==> dns_best_step(best, r) is Some,
        dns_best_step(best, r) != best ==> match best {
            Some(b) => dns_best_step(best, r) == Some(r) && dns_better(r, b),
            None => dns_best_step(best, r) == Some(r) && dns_first_best(r),
        },
{
}

/// Law: one recording step never regresses the mirror best pointer.
pub proof fn lemma_mirror_best_step_monotonic(best: Option<MirrorTestResult>, r: MirrorTestResult)
    ensures
        best is Some ==> mirror_best_step(best, r) is Some,
        mirror_best_step(best, r) != best ==> match best {
            Some(b) => mirror_best_step(best, r) == Some(r) && mirror_better(r, b),
            None => mirror_best_step(best, r) == Some(r) && mirror_first_best(r),
        },
{
}

} // verus!
