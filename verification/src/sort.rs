//! The ranking engine: stable ordering of accumulated results by a
//! selectable column and direction, with the laws the ordering obeys.

use vstd::prelude::*;
use vstd::relations::sorted_by;
use crate::results::DnsTestResult;
use crate::results::MirrorTestResult;
use crate::text::lex_le;
use crate::text::lemma_lex_le_total;
use crate::text::lemma_lex_le_trans;
use crate::text::str_le;

verus! {

/// The column the results list is currently ordered by.
#[derive(Debug, Clone, Copy, PartialEq, Eq, Structural)]
pub enum SortColumn {
    Ip,
    Latency,
    DownloadSpeed,
    /// Mirror display name; applies to mirror results only.
    Name,
}

/// Ascending order on optional values where an absent value sorts after any
/// present one (used for latency: an unmeasured latency is worst).
pub open spec fn opt_le_absent_last(a: Option<u64>, b: Option<u64>) -> bool {
    match (a, b) {
        (None, None) => true,
        (None, Some(y)) => false,
        (Some(x), None) => true,
        (Some(x), Some(y)) => x <= y,
    }
}

/// Ascending order on optional values where an absent value sorts before any
/// present one (used for throughput, mirroring `Option`'s own order).
pub open spec fn opt_le_absent_first(a: Option<u64>, b: Option<u64>) -> bool {
    match (a, b) {
        (None, _) => true,
        (Some(x), None) => false,
        (Some(x), Some(y)) => x <= y,
    }
}

/// Ascending comparison of two DNS results under one column. The address
/// column ranks by the characters of the textual form, not by numeric
/// octets: "10.0.0.2" precedes "9.9.9.9".
pub open spec fn dns_col_le(col: SortColumn, a: DnsTestResult, b: DnsTestResult) -> bool {
    match col {
        SortColumn::Ip => lex_le(a.ip@, b.ip@),
        SortColumn::Latency => opt_le_absent_last(a.latency_micros, b.latency_micros),
        SortColumn::DownloadSpeed => opt_le_absent_first(
            a.download_speed_bps,
            b.download_speed_bps,
        ),
        SortColumn::Name => true,
    }
}

/// Comparison of two DNS results under a column and a direction; descending
/// order is the ascending comparison with its arguments swapped.
pub open spec fn dns_le(col: SortColumn, asc: bool, a: DnsTestResult, b: DnsTestResult) -> bool {
    if asc {
        dns_col_le(col, a, b)
    } else {
        dns_col_le(col, b, a)
    }
}

/// The DNS comparison as a binary relation.
pub open spec fn dns_leq(col: SortColumn, asc: bool) -> spec_fn(DnsTestResult, DnsTestResult) -> bool {
    |a: DnsTestResult, b: DnsTestResult| dns_le(col, asc, a, b)
}

/// Ascending comparison of two mirror results under one column.
pub open spec fn mirror_col_le(col: SortColumn, a: MirrorTestResult, b: MirrorTestResult) -> bool {
    match col {
        SortColumn::Name => lex_le(a.name@, b.name@),
        SortColumn::DownloadSpeed => opt_le_absent_first(a.speed_bps, b.speed_bps),
        _ => true,
    }
}

/// Comparison of two mirror results under a column and a direction.
pub open spec fn mirror_le(
    col: SortColumn,
    asc: bool,
    a: MirrorTestResult,
    b: MirrorTestResult,
) -> bool {
    if asc {
        mirror_col_le(col, a, b)
    } else {
        mirror_col_le(col, b, a)
    }
}

/// The mirror comparison as a binary relation.
pub open spec fn mirror_leq(col: SortColumn, asc: bool) -> spec_fn(
    MirrorTestResult,
    MirrorTestResult,
) -> bool {
    |a: MirrorTestResult, b: MirrorTestResult| mirror_le(col, asc, a, b)
}

pub proof fn lemma_dns_le_total(col: SortColumn, asc: bool, a: DnsTestResult, b: DnsTestResult)
    ensures
        dns_le(col, asc, a, b) || dns_le(col, asc, b, a),
{
    if col == SortColumn::Ip {
        lemma_lex_le_total(a.ip@, b.ip@);
    }
}

pub proof fn lemma_dns_le_trans(
    col: SortColumn,
    asc: bool,
    a: DnsTestResult,
    b: DnsTestResult,
    c: DnsTestResult,
)
    requires
        dns_le(col, asc, a, b),
        dns_le(col, asc, b, c),
    ensures
        dns_le(col, asc, a, c),
{
    if col == SortColumn::Ip {
        if asc {
            lemma_lex_le_trans(a.ip@, b.ip@, c.ip@);
        } else {
            lemma_lex_le_trans(c.ip@, b.ip@, a.ip@);
        }
    }
}

pub proof fn lemma_mirror_le_total(
    col: SortColumn,
    asc: bool,
    a: MirrorTestResult,
    b: MirrorTestResult,
)
    ensures
        mirror_le(col, asc, a, b) || mirror_le(col, asc, b, a),
{
    if col == SortColumn::Name {
        lemma_lex_le_total(a.name@, b.name@);
    }
}

pub proof fn lemma_mirror_le_trans(
    col: SortColumn,
    asc: bool,
    a: MirrorTestResult,
    b: MirrorTestResult,
    c: MirrorTestResult,
)
    requires
        mirror_le(col, asc, a, b),
        mirror_le(col, asc, b, c),
    ensures
        mirror_le(col, asc, a, c),
{
    if col == SortColumn::Name {
        if asc {
            lemma_lex_le_trans(a.name@, b.name@, c.name@);
        } else {
            lemma_lex_le_trans(c.name@, b.name@, a.name@);
        }
    }
}

/// Where a stable insertion places a result: after every element it ties
/// with or follows, before the first element that must come after it.
pub open spec fn stable_insert<A>(s: Seq<A>, x: A, leq: spec_fn(A, A) -> bool) -> Seq<A>
    decreases s.len(),
{
    if s.len() == 0 {
        seq![x]
    } else if leq(s.last(), x) {
        s.push(x)
    } else {
        stable_insert(s.drop_last(), x, leq).push(s.last())
    }
}

/// The stable insertion sort of `s` under `leq`: the one ordering in which
/// results that tie keep their arrival order.
pub open spec fn insertion_sort<A>(s: Seq<A>, leq: spec_fn(A, A) -> bool) -> Seq<A>
    decreases s.len(),
{
    if s.len() == 0 {
        Seq::empty()
    } else {
        stable_insert(insertion_sort(s.drop_last(), leq), s.last(), leq)
    }
}

proof fn lemma_insertion_sort_short<A>(s: Seq<A>, leq: spec_fn(A, A) -> bool)
    requires
        s.len() <= 1,
    ensures
        insertion_sort(s, leq) == s,
{
    if s.len() == 0 {
        assert(insertion_sort(s, leq) =~= s);
    } else {
        assert(s.drop_last() =~= Seq::<A>::empty());
        assert(insertion_sort(s.drop_last(), leq) == Seq::<A>::empty());
        assert(stable_insert(Seq::<A>::empty(), s.last(), leq) =~= s);
    }
}

proof fn lemma_stable_insert_at<A>(s: Seq<A>, x: A, leq: spec_fn(A, A) -> bool, j: int)
    requires
        0 <= j <= s.len(),
        forall|k: int| j <= k < s.len() ==> !(#[trigger] leq(s[k], x)),
        j > 0 ==> leq(s[j - 1], x),
    ensures
        stable_insert(s, x, leq) == s.take(j) + seq![x] + s.skip(j),
    decreases s.len(),
{
    if s.len() == 0 {
        assert(stable_insert(s, x, leq) =~= s.take(j) + seq![x] + s.skip(j));
    } else if j == s.len() {
        assert(leq(s[j - 1], x));
        assert(stable_insert(s, x, leq) == s.push(x));
        assert(s.push(x) =~= s.take(j) + seq![x] + s.skip(j));
    } else {
        assert(!leq(s.last(), x));
        assert forall|k: int| j <= k < s.drop_last().len() implies !(#[trigger] leq(
            s.drop_last()[k],
            x,
        )) by {
            assert(!leq(s[k], x));
        }
        lemma_stable_insert_at(s.drop_last(), x, leq, j);
        assert(stable_insert(s, x, leq) == (s.drop_last().take(j) + seq![x] + s.drop_last().skip(
            j,
        )).push(s.last()));
        assert((s.drop_last().take(j) + seq![x] + s.drop_last().skip(j)).push(s.last()) =~= s.take(
            j,
        ) + seq![x] + s.skip(j));
    }
}

proof fn lemma_stable_insert_len<A>(s: Seq<A>, x: A, leq: spec_fn(A, A) -> bool)
    ensures
        stable_insert(s, x, leq).len() == s.len() + 1,
    decreases s.len(),
{
    if s.len() > 0 && !leq(s.last(), x) {
        lemma_stable_insert_len(s.drop_last(), x, leq);
    }
}

proof fn lemma_insertion_sort_len<A>(s: Seq<A>, leq: spec_fn(A, A) -> bool)
    ensures
        insertion_sort(s, leq).len() == s.len(),
    decreases s.len(),
{
    if s.len() > 0 {
        lemma_insertion_sort_len(s.drop_last(), leq);
        lemma_stable_insert_len(insertion_sort(s.drop_last(), leq), s.last(), leq);
    }
}

proof fn lemma_sorted_index<A>(s: Seq<A>, leq: spec_fn(A, A) -> bool, i: int, p: int, q: int)
    requires
        sorted_by(s.take(i), leq),
        0 <= p < q < i <= s.len(),
    ensures
        leq(s[p], s[q]),
{
    assert(leq(s.take(i)[p], s.take(i)[q]));
}

proof fn lemma_remove_insert_multiset<A>(s: Seq<A>, i: int, j: int)
    requires
        0 <= i < s.len(),
        0 <= j <= s.len() - 1,
    ensures
        s.remove(i).insert(j, s[i]).to_multiset() == s.to_multiset(),
{
    broadcast use vstd::seq_lib::group_to_multiset_ensures;
    broadcast use vstd::multiset::group_multiset_axioms;

    assert(s.remove(i).to_multiset() == s.to_multiset().remove(s[i]));
    assert(s.remove(i).insert(j, s[i]).to_multiset() == s.remove(i).to_multiset().insert(s[i]));
    assert(s.contains(s[i]));
    assert(s.to_multiset().count(s[i]) > 0);
    assert(s.to_multiset().remove(s[i]).insert(s[i]) =~= s.to_multiset());
}

/// Decide the DNS comparison on two concrete results.
pub fn dns_le_exec(col: SortColumn, asc: bool, a: &DnsTestResult, b: &DnsTestResult) -> (r: bool)
    ensures
        r == dns_le(col, asc, *a, *b),
{
    if asc {
        dns_col_le_exec(col, a, b)
    } else {
        dns_col_le_exec(col, b, a)
    }
}

fn dns_col_le_exec(col: SortColumn, a: &DnsTestResult, b: &DnsTestResult) -> (r: bool)
    ensures
        r == dns_col_le(col, *a, *b),
{
    match col {
        SortColumn::Ip => str_le(a.ip.as_str(), b.ip.as_str()),
        SortColumn::Latency => match (a.latency_micros, b.latency_micros) {
            (None, None) => true,
            (None, Some(_)) => false,
            (Some(_), None) => true,
            (Some(x), Some(y)) => x <= y,
        },
        SortColumn::DownloadSpeed => match (a.download_speed_bps, b.download_speed_bps) {
            (None, _) => true,
            (Some(_), None) => false,
            (Some(x), Some(y)) => x <= y,
        },
        SortColumn::Name => true,
    }
}

/// Decide the mirror comparison on two concrete results.
pub fn mirror_le_exec(
    col: SortColumn,
    asc: bool,
    a: &MirrorTestResult,
    b: &MirrorTestResult,
) -> (r: bool)
    ensures
        r == mirror_le(col, asc, *a, *b),
{
    if asc {
        mirror_col_le_exec(col, a, b)
    } else {
        mirror_col_le_exec(col, b, a)
    }
}

fn mirror_col_le_exec(col: SortColumn, a: &MirrorTestResult, b: &MirrorTestResult) -> (r: bool)
    ensures
        r == mirror_col_le(col, *a, *b),
{
    match col {
        SortColumn::Name => str_le(a.name.as_str(), b.name.as_str()),
        SortColumn::DownloadSpeed => match (a.speed_bps, b.speed_bps) {
            (None, _) => true,
            (Some(_), None) => false,
            (Some(x), Some(y)) => x <= y,
        },
        _ => true,
    }
}

/// Sort the DNS results by a column and direction with a stable insertion
/// sort. The result is ordered, holds exactly the same results, and an
/// already-ordered list comes back unchanged — so sorting is idempotent.
pub fn sort_dns_results(v: &mut Vec<DnsTestResult>, col: SortColumn, asc: bool)
    ensures
        final(v)@ == insertion_sort(old(v)@, dns_leq(col, asc)),
        sorted_by(final(v)@, dns_leq(col, asc)),
        final(v)@.len() == old(v)@.len(),
        final(v)@.to_multiset() == old(v)@.to_multiset(),
        sorted_by(old(v)@, dns_leq(col, asc)) ==> final(v)@ == old(v)@,
{
    broadcast use vstd::seq_lib::group_to_multiset_ensures;

    let ghost orig = v@;
    let ghost leq = dns_leq(col, asc);
    if v.len() <= 1 {
        proof {
            lemma_insertion_sort_short(v@, leq);
        }
        return;
    }
    let mut i: usize = 1;
    proof {
        lemma_insertion_sort_short(orig.take(1), leq);
        assert(orig.take(1) + orig.skip(1) =~= orig);
    }
    while i < v.len()
        invariant
            1 <= i <= v@.len(),
            v@.len() == orig.len(),
            v@.len() >= 2,
            sorted_by(v@.take(i as int), leq),
            v@ == insertion_sort(orig.take(i as int), leq) + orig.skip(i as int),
            v@.to_multiset() == orig.to_multiset(),
            sorted_by(orig, leq) ==> v@ == orig,
            leq == dns_leq(col, asc),
        decreases v@.len() - i,
    {
        let ghost s = v@;
        let ghost x = v@[i as int];
        let mut j: usize = i;
        while j > 0
            invariant
                j <= i,
                i < v@.len(),
                v@ == s,
                forall|k: int| j <= k < i ==> !leq(v@[k], x),
                leq == dns_leq(col, asc),
                x == v@[i as int],
            ensures
                j <= i,
                v@ == s,
                forall|k: int| j <= k < i ==> !leq(v@[k], x),
                j > 0 ==> leq(v@[j - 1], x),
            decreases j,
        {
            if dns_le_exec(col, asc, &v[j - 1], &v[i]) {
                break;
            }
            j = j - 1;
        }
        if j < i {
            let x_now = v.remove(i);
            v.insert(j, x_now);
            proof {
                let s2 = v@;
                assert(s2 =~= s.remove(i as int).insert(j as int, x));
                assert forall|k: int| 0 <= k < s2.len() implies s2[k] == (if k < j {
                    s[k]
                } else if k == j {
                    x
                } else if k <= i {
                    s[k - 1]
                } else {
                    s[k]
                }) by {
                    assert(s.remove(i as int).len() == s.len() - 1);
                }
                assert forall|p: int, q: int| 0 <= p < q < i + 1 implies leq(s2[p], s2[q]) by {
                    if q < j {
                        lemma_sorted_index(s, leq, i as int, p, q);
                    } else if q == j {
                        // s2[q] is x; s[p] precedes the insertion point
                        if p < j - 1 {
                            lemma_sorted_index(s, leq, i as int, p, j - 1);
                            lemma_dns_le_trans(col, asc, s[p], s[j - 1], x);
                        }
                    } else if p < j {
                        // q > j, so s2[q] == s[q-1] with j <= q-1 < i
                        lemma_sorted_index(s, leq, i as int, p, q - 1);
                    } else if p == j {
                        // s2[p] is x and s2[q] == s[q-1] with j <= q-1 < i:
                        // the scan showed x precedes everything it passed
                        lemma_dns_le_total(col, asc, s[q - 1], x);
                    } else {
                        lemma_sorted_index(s, leq, i as int, p - 1, q - 1);
                    }
                }
                assert(sorted_by(s2.take(i as int + 1), leq)) by {
                    assert forall|p: int, q: int|
                        0 <= p < q < s2.take(i as int + 1).len() implies #[trigger] leq(
                        s2.take(i as int + 1)[p],
                        s2.take(i as int + 1)[q],
                    ) by {
                        assert(leq(s2[p], s2[q]));
                    }
                }
                lemma_remove_insert_multiset(s, i as int, j as int);
                // the new prefix is exactly where the stable insertion
                // places the element
                lemma_insertion_sort_len(orig.take(i as int), leq);
                assert(s.take(i as int) =~= insertion_sort(orig.take(i as int), leq));
                assert(x == orig[i as int]);
                assert forall|k: int| j <= k < s.take(i as int).len() implies !(#[trigger] leq(
                    s.take(i as int)[k],
                    x,
                )) by {
                    assert(!leq(s[k], x));
                }
                assert(j > 0 ==> leq(s.take(i as int)[j - 1], x));
                lemma_stable_insert_at(s.take(i as int), x, leq, j as int);
                assert(orig.take(i as int + 1).drop_last() =~= orig.take(i as int));
                assert(insertion_sort(orig.take(i as int + 1), leq) == stable_insert(
                    s.take(i as int),
                    x,
                    leq,
                ));
                assert(s.take(i as int).take(j as int) =~= s.take(j as int));
                assert(s.take(i as int).skip(j as int) =~= s.subrange(j as int, i as int));
                assert(s2 =~= insertion_sort(orig.take(i as int + 1), leq) + orig.skip(
                    i as int + 1,
                ));
            }
        } else {
            proof {
                assert forall|p: int, q: int| 0 <= p < q < i + 1 implies leq(v@[p], v@[q]) by {
                    if q < i {
                        lemma_sorted_index(v@, leq, i as int, p, q);
                    } else {
                        // q == i: the scan broke off at once, so x follows v[i-1]
                        if p < i - 1 {
                            lemma_sorted_index(v@, leq, i as int, p, i - 1);
                            lemma_dns_le_trans(col, asc, v@[p], v@[i - 1], x);
                        }
                    }
                }
                assert(sorted_by(v@.take(i as int + 1), leq)) by {
                    assert forall|p: int, q: int|
                        0 <= p < q < v@.take(i as int + 1).len() implies #[trigger] leq(
                        v@.take(i as int + 1)[p],
                        v@.take(i as int + 1)[q],
                    ) by {
                        assert(leq(v@[p], v@[q]));
                    }
                }
                // the element stayed put: the stable insertion would have
                // placed it exactly where it already is
                lemma_insertion_sort_len(orig.take(i as int), leq);
                assert(v@.take(i as int) =~= insertion_sort(orig.take(i as int), leq));
                assert(x == orig[i as int]);
                assert(j == i);
                assert(j > 0 ==> leq(v@.take(i as int)[j - 1], x));
                lemma_stable_insert_at(v@.take(i as int), x, leq, i as int);
                assert(orig.take(i as int + 1).drop_last() =~= orig.take(i as int));
                assert(insertion_sort(orig.take(i as int + 1), leq) == stable_insert(
                    v@.take(i as int),
                    x,
                    leq,
                ));
                assert(v@ =~= insertion_sort(orig.take(i as int + 1), leq) + orig.skip(
                    i as int + 1,
                ));
            }
        }
        i = i + 1;
    }
    proof {
        assert(v@.take(v@.len() as int) =~= v@);
        assert(orig.take(orig.len() as int) =~= orig);
        assert(orig.skip(orig.len() as int) =~= Seq::<_>::empty());
        assert(insertion_sort(orig, leq) + Seq::<_>::empty() =~= insertion_sort(orig, leq));
    }
}

/// Sort the mirror results by a column and direction with a stable insertion
/// sort; the same guarantees as for the DNS results.
pub fn sort_mirror_results(v: &mut Vec<MirrorTestResult>, col: SortColumn, asc: bool)
    ensures
        final(v)@ == insertion_sort(old(v)@, mirror_leq(col, asc)),
        sorted_by(final(v)@, mirror_leq(col, asc)),
        final(v)@.len() == old(v)@.len(),
        final(v)@.to_multiset() == old(v)@.to_multiset(),
        sorted_by(old(v)@, mirror_leq(col, asc)) ==> final(v)@ == old(v)@,
{
    broadcast use vstd::seq_lib::group_to_multiset_ensures;

    let ghost orig = v@;
    let ghost leq = mirror_leq(col, asc);
    if v.len() <= 1 {
        proof {
            lemma_insertion_sort_short(v@, leq);
        }
        return;
    }
    let mut i: usize = 1;
    proof {
        lemma_insertion_sort_short(orig.take(1), leq);
        assert(orig.take(1) + orig.skip(1) =~= orig);
    }
    while i < v.len()
        invariant
            1 <= i <= v@.len(),
            v@.len() == orig.len(),
            v@.len() >= 2,
            sorted_by(v@.take(i as int), leq),
            v@ == insertion_sort(orig.take(i as int), leq) + orig.skip(i as int),
            v@.to_multiset() == orig.to_multiset(),
            sorted_by(orig, leq) ==> v@ == orig,
            leq == mirror_leq(col, asc),
        decreases v@.len() - i,
    {
        let ghost s = v@;
        let ghost x = v@[i as int];
        let mut j: usize = i;
        while j > 0
            invariant
                j <= i,
                i < v@.len(),
                v@ == s,
                forall|k: int| j <= k < i ==> !leq(v@[k], x),
                leq == mirror_leq(col, asc),
                x == v@[i as int],
            ensures
                j <= i,
                v@ == s,
                forall|k: int| j <= k < i ==> !leq(v@[k], x),
                j > 0 ==> leq(v@[j - 1], x),
            decreases j,
        {
            if mirror_le_exec(col, asc, &v[j - 1], &v[i]) {
                break;
            }
            j = j - 1;
        }
        if j < i {
            let x_now = v.remove(i);
            v.insert(j, x_now);
            proof {
                let s2 = v@;
                assert(s2 =~= s.remove(i as int).insert(j as int, x));
                assert forall|k: int| 0 <= k < s2.len() implies s2[k] == (if k < j {
                    s[k]
                } else if k == j {
                    x
                } else if k <= i {
                    s[k - 1]
                } else {
                    s[k]
                }) by {
                    assert(s.remove(i as int).len() == s.len() - 1);
                }
                assert forall|p: int, q: int| 0 <= p < q < i + 1 implies leq(s2[p], s2[q]) by {
                    if q < j {
                        lemma_sorted_index(s, leq, i as int, p, q);
                    } else if q == j {
                        if p < j - 1 {
                            lemma_sorted_index(s, leq, i as int, p, j - 1);
                            lemma_mirror_le_trans(col, asc, s[p], s[j - 1], x);
                        }
                    } else if p < j {
                        lemma_sorted_index(s, leq, i as int, p, q - 1);
                    } else if p == j {
                        lemma_mirror_le_total(col, asc, s[q - 1], x);
                    } else {
                        lemma_sorted_index(s, leq, i as int, p - 1, q - 1);
                    }
                }
                assert(sorted_by(s2.take(i as int + 1), leq)) by {
                    assert forall|p: int, q: int|
                        0 <= p < q < s2.take(i as int + 1).len() implies #[trigger] leq(
                        s2.take(i as int + 1)[p],
                        s2.take(i as int + 1)[q],
                    ) by {
                        assert(leq(s2[p], s2[q]));
                    }
                }
                lemma_remove_insert_multiset(s, i as int, j as int);
                // the new prefix is exactly where the stable insertion
                // places the element
                lemma_insertion_sort_len(orig.take(i as int), leq);
                assert(s.take(i as int) =~= insertion_sort(orig.take(i as int), leq));
                assert(x == orig[i as int]);
                assert forall|k: int| j <= k < s.take(i as int).len() implies !(#[trigger] leq(
                    s.take(i as int)[k],
                    x,
                )) by {
                    assert(!leq(s[k], x));
                }
                assert(j > 0 ==> leq(s.take(i as int)[j - 1], x));
                lemma_stable_insert_at(s.take(i as int), x, leq, j as int);
                assert(orig.take(i as int + 1).drop_last() =~= orig.take(i as int));
                assert(insertion_sort(orig.take(i as int + 1), leq) == stable_insert(
                    s.take(i as int),
                    x,
                    leq,
                ));
                assert(s.take(i as int).take(j as int) =~= s.take(j as int));
                assert(s.take(i as int).skip(j as int) =~= s.subrange(j as int, i as int));
                assert(s2 =~= insertion_sort(orig.take(i as int + 1), leq) + orig.skip(
                    i as int + 1,
                ));
            }
        } else {
            proof {
                assert forall|p: int, q: int| 0 <= p < q < i + 1 implies leq(v@[p], v@[q]) by {
                    if q < i {
                        lemma_sorted_index(v@, leq, i as int, p, q);
                    } else {
                        if p < i - 1 {
                            lemma_sorted_index(v@, leq, i as int, p, i - 1);
                            lemma_mirror_le_trans(col, asc, v@[p], v@[i - 1], x);
                        }
                    }
                }
                assert(sorted_by(v@.take(i as int + 1), leq)) by {
                    assert forall|p: int, q: int|
                        0 <= p < q < v@.take(i as int + 1).len() implies #[trigger] leq(
                        v@.take(i as int + 1)[p],
                        v@.take(i as int + 1)[q],
                    ) by {
                        assert(leq(v@[p], v@[q]));
                    }
                }
                // the element stayed put: the stable insertion would have
                // placed it exactly where it already is
                lemma_insertion_sort_len(orig.take(i as int), leq);
                assert(v@.take(i as int) =~= insertion_sort(orig.take(i as int), leq));
                assert(x == orig[i as int]);
                assert(j == i);
                assert(j > 0 ==> leq(v@.take(i as int)[j - 1], x));
                lemma_stable_insert_at(v@.take(i as int), x, leq, i as int);
                assert(orig.take(i as int + 1).drop_last() =~= orig.take(i as int));
                assert(insertion_sort(orig.take(i as int + 1), leq) == stable_insert(
                    v@.take(i as int),
                    x,
                    leq,
                ));
                assert(v@ =~= insertion_sort(orig.take(i as int + 1), leq) + orig.skip(
                    i as int + 1,
                ));
            }
        }
        i = i + 1;
    }
    proof {
        assert(v@.take(v@.len() as int) =~= v@);
        assert(orig.take(orig.len() as int) =~= orig);
        assert(orig.skip(orig.len() as int) =~= Seq::<_>::empty());
        assert(insertion_sort(orig, leq) + Seq::<_>::empty() =~= insertion_sort(orig, leq));
    }
}

/// Law: sorting is idempotent. A list already in order is its own stable
/// sort, so ranking twice under the same column and direction is the same
/// as ranking once.
pub proof fn lemma_insertion_sort_of_sorted<A>(s: Seq<A>, leq: spec_fn(A, A) -> bool)
    requires
        sorted_by(s, leq),
    ensures
        insertion_sort(s, leq) == s,
    decreases s.len(),
{
    if s.len() <= 1 {
        lemma_insertion_sort_short(s, leq);
    } else {
        let dl = s.drop_last();
        assert forall|p: int, q: int| 0 <= p < q < dl.len() implies #[trigger] leq(
            dl[p],
            dl[q],
        ) by {
            assert(leq(s[p], s[q]));
        }
        lemma_insertion_sort_of_sorted(dl, leq);
        assert(leq(s[s.len() - 2], s[s.len() - 1]));
        assert(leq(dl.last(), s.last()));
        assert(stable_insert(dl, s.last(), leq) == dl.push(s.last()));
        assert(dl.push(s.last()) =~= s);
    }
}

/// Two DNS results tie on a column when each compares at-or-before the
/// other.
pub open spec fn dns_key_eq(col: SortColumn, a: DnsTestResult, b: DnsTestResult) -> bool {
    dns_col_le(col, a, b) && dns_col_le(col, b, a)
}

/// No two positions of the sequence tie on the column.
pub open spec fn dns_keys_distinct(s: Seq<DnsTestResult>, col: SortColumn) -> bool {
    forall|p: int, q: int| 0 <= p < q < s.len() ==> !#[trigger] dns_key_eq(col, s[p], s[q])
}

/// Two mirror results tie on a column when each compares at-or-before the
/// other.
pub open spec fn mirror_key_eq(col: SortColumn, a: MirrorTestResult, b: MirrorTestResult) -> bool {
    mirror_col_le(col, a, b) && mirror_col_le(col, b, a)
}

/// No two positions of the sequence tie on the column.
pub open spec fn mirror_keys_distinct(s: Seq<MirrorTestResult>, col: SortColumn) -> bool {
    forall|p: int, q: int| 0 <= p < q < s.len() ==> !#[trigger] mirror_key_eq(col, s[p], s[q])
}

proof fn lemma_sorted_unique_distinct<A>(x: Seq<A>, y: Seq<A>, leq: spec_fn(A, A) -> bool)
    requires
        sorted_by(x, leq),
        sorted_by(y, leq),
        x.to_multiset() == y.to_multiset(),
        forall|p: int, q: int|
            0 <= p < q < x.len() ==> !(#[trigger] leq(x[p], x[q]) && leq(x[q], x[p])),
    ensures
        x == y,
    decreases x.len(),
{
    broadcast use vstd::seq_lib::group_to_multiset_ensures;
    broadcast use vstd::multiset::group_multiset_axioms;

    if x.len() == 0 || y.len() == 0 {
        assert(x.to_multiset().len() == x.len());
        assert(y.to_multiset().len() == y.len());
        assert(x =~= y);
    } else {
        assert(x.to_multiset().count(y[0]) > 0) by {
            assert(y.contains(y[0]));
        }
        assert(x.contains(y[0]));
        let i = choose|i: int| 0 <= i < x.len() && x[i] == y[0];
        assert(y.to_multiset().count(x[0]) > 0) by {
            assert(x.contains(x[0]));
        }
        assert(y.contains(x[0]));
        let j = choose|j: int| 0 <= j < y.len() && y[j] == x[0];
        if i > 0 {
            assert(leq(x[0], x[i]));
            if j > 0 {
                assert(leq(y[0], y[j]));
            }
            assert(leq(x[i], x[0]));
            assert(false);
        }
        assert(x[0] == y[0]);
        assert(x.drop_first() =~= x.remove(0));
        assert(y.drop_first() =~= y.remove(0));
        assert(x.remove(0).to_multiset() == x.to_multiset().remove(x[0]));
        assert(y.remove(0).to_multiset() == y.to_multiset().remove(y[0]));
        let xd = x.drop_first();
        let yd = y.drop_first();
        assert(sorted_by(xd, leq)) by {
            assert forall|p: int, q: int| 0 <= p < q < xd.len() implies #[trigger] leq(
                xd[p],
                xd[q],
            ) by {
                assert(leq(x[p + 1], x[q + 1]));
            }
        }
        assert(sorted_by(yd, leq)) by {
            assert forall|p: int, q: int| 0 <= p < q < yd.len() implies #[trigger] leq(
                yd[p],
                yd[q],
            ) by {
                assert(leq(y[p + 1], y[q + 1]));
            }
        }
        assert forall|p: int, q: int|
            0 <= p < q < xd.len() implies !(#[trigger] leq(xd[p], xd[q]) && leq(
            xd[q],
            xd[p],
        )) by {
            assert(!(leq(x[p + 1], x[q + 1]) && leq(x[q + 1], x[p + 1])));
        }
        lemma_sorted_unique_distinct(xd, yd, leq);
        assert(x =~= seq![x[0]] + xd);
        assert(y =~= seq![y[0]] + yd);
        assert(x =~= y);
    }
}

/// Law: with pairwise distinct keys there is exactly one ordering of the DNS
/// results under a column and direction, so re-sorting any permutation of a
/// sorted list restores it.
pub proof fn lemma_dns_sorted_unique(
    x: Seq<DnsTestResult>,
    y: Seq<DnsTestResult>,
    col: SortColumn,
    asc: bool,
)
    requires
        sorted_by(x, dns_leq(col, asc)),
        sorted_by(y, dns_leq(col, asc)),
        x.to_multiset() == y.to_multiset(),
        dns_keys_distinct(x, col),
    ensures
        x == y,
{
    let leq = dns_leq(col, asc);
    assert forall|p: int, q: int|
        0 <= p < q < x.len() implies !(#[trigger] leq(x[p], x[q]) && leq(x[q], x[p])) by {
        assert(!dns_key_eq(col, x[p], x[q]));
    }
    lemma_sorted_unique_distinct(x, y, leq);
}

/// Law: with pairwise distinct keys there is exactly one ordering of the
/// mirror results under a column and direction.
pub proof fn lemma_mirror_sorted_unique(
    x: Seq<MirrorTestResult>,
    y: Seq<MirrorTestResult>,
    col: SortColumn,
    asc: bool,
)
    requires
        sorted_by(x, mirror_leq(col, asc)),
        sorted_by(y, mirror_leq(col, asc)),
        x.to_multiset() == y.to_multiset(),
        mirror_keys_distinct(x, col),
    ensures
        x == y,
{
    let leq = mirror_leq(col, asc);
    assert forall|p: int, q: int|
        0 <= p < q < x.len() implies !(#[trigger] leq(x[p], x[q]) && leq(x[q], x[p])) by {
        assert(!mirror_key_eq(col, x[p], x[q]));
    }
    lemma_sorted_unique_distinct(x, y, leq);
}

/// Law: for distinct keys, toggling the sort direction twice restores the
/// original order. `t` is the list after the first toggle and `u` the list
/// after the second; each re-sort keeps the contents and orders them fully,
/// so `u` is `s` again. The hypothesis that `s` is already sorted is the
/// orchestrator's standing state: it ranks the active list on every pass,
/// so a toggle is only ever applied to an ordered list.
pub proof fn lemma_dns_toggle_twice(
    s: Seq<DnsTestResult>,
    t: Seq<DnsTestResult>,
    u: Seq<DnsTestResult>,
    col: SortColumn,
    asc: bool,
)
    requires
        sorted_by(s, dns_leq(col, asc)),
        dns_keys_distinct(s, col),
        t.to_multiset() == s.to_multiset(),
        sorted_by(t, dns_leq(col, !asc)),
        u.to_multiset() == t.to_multiset(),
        sorted_by(u, dns_leq(col, asc)),
    ensures
        u == s,
{
    lemma_dns_sorted_unique(s, u, col, asc);
}

/// Law: for distinct keys, toggling the mirror sort direction twice restores
/// the original order, under the same standing-order hypothesis.
pub proof fn lemma_mirror_toggle_twice(
    s: Seq<MirrorTestResult>,
    t: Seq<MirrorTestResult>,
    u: Seq<MirrorTestResult>,
    col: SortColumn,
    asc: bool,
)
    requires
        sorted_by(s, mirror_leq(col, asc)),
        mirror_keys_distinct(s, col),
        t.to_multiset() == s.to_multiset(),
        sorted_by(t, mirror_leq(col, !asc)),
        u.to_multiset() == t.to_multiset(),
        sorted_by(u, mirror_leq(col, asc)),
    ensures
        u == s,
{
    lemma_mirror_sorted_unique(s, u, col, asc);
}

} // verus!
