use vstd::prelude::*;

use crate::date::Date;
use crate::error::CapTableError;
use crate::model::{
    add_record, aggregate, distinct_investors, entries_basis_points, entries_cash, entries_shares,
    filtered, lemma_add_record_sums, lemma_entries_sums_push, lemma_find_investor,
    lemma_with_percents_index, percent_basis_points, qualifies, spec_report, sum_cash, sum_shares,
    with_percents, OwnershipView, Record, ReportView,
};
use vstd::arithmetic::div_mod::{
    lemma_div_pos_is_pos, lemma_fundamental_div_mod, lemma_mod_division_less_than_divisor,
};
use vstd::arithmetic::mul::{
    lemma_mul_is_distributive_add, lemma_mul_is_distributive_add_other_way,
};

verus! {

/// The aggregates of a record sequence carry exactly its share and
/// cash totals, however the records are grouped.
proof fn lemma_aggregate_sums(s: Seq<Record>)
    ensures
        entries_shares(aggregate(s)) == sum_shares(s),
        entries_cash(aggregate(s)) == sum_cash(s),
    decreases s.len(),
{
    if s.len() > 0 {
        lemma_aggregate_sums(s.drop_last());
        lemma_add_record_sums(aggregate(s.drop_last()), s.last());
    }
}

/// The percentage pass does not change any aggregate's share or cash
/// totals.
proof fn lemma_with_percents_sums(s: Seq<OwnershipView>, total: int)
    ensures
        entries_shares(with_percents(s, total)) == entries_shares(s),
        entries_cash(with_percents(s, total)) == entries_cash(s),
    decreases s.len(),
{
    if s.len() > 0 {
        lemma_with_percents_sums(s.drop_last(), total);
        lemma_entries_sums_push(
            with_percents(s.drop_last(), total),
            OwnershipView {
                investor: s.last().investor,
                shares: s.last().shares,
                cash_cents: s.last().cash_cents,
                basis_points: percent_basis_points(s.last().shares, total),
            },
        );
    }
}

/// No aggregate of a record stream holds negative shares or cash.
proof fn lemma_aggregate_nonneg(s: Seq<Record>)
    ensures
        forall|k: int|
            0 <= k < aggregate(s).len() ==> aggregate(s)[k].shares >= 0 && aggregate(
                s,
            )[k].cash_cents >= 0,
    decreases s.len(),
{
    if s.len() > 0 {
        lemma_aggregate_nonneg(s.drop_last());
        lemma_find_investor(aggregate(s.drop_last()), s.last().investor@);
    }
}

/// In every completed report the grand totals equal the sums of
/// shares and of cash over the ownership list: grouping by investor
/// neither loses nor invents a single share or cent.
pub proof fn lemma_sum_invariant(s: Seq<Record>, cutoff: Date)
    requires
        spec_report(s, cutoff) is Ok,
    ensures
        ({
            let rep = spec_report(s, cutoff)->Ok_0;
            &&& rep.total_shares == entries_shares(rep.ownership)
            &&& rep.cash_raised_cents == entries_cash(rep.ownership)
        }),
{
    let fs = filtered(s, cutoff);
    lemma_aggregate_sums(fs);
    lemma_with_percents_sums(aggregate(fs), sum_shares(fs));
}

/// One rounded percentage differs from the exact ratio by less than
/// one basis point: `t` times the rounded value stays within `t` of
/// `shares * 10000`.
proof fn lemma_pct_bounds(s: int, t: int)
    requires
        t > 0,
        s >= 0,
    ensures
        s * 10000 - t <= t * percent_basis_points(s, t),
        t * percent_basis_points(s, t) <= s * 10000 + t,
        percent_basis_points(s, t) >= 0,
{
    let x = s * 10000 + t / 2;
    lemma_fundamental_div_mod(x, t);
    lemma_mod_division_less_than_divisor(x, t);
    lemma_div_pos_is_pos(x, t);
}

/// Summed over the aggregates, `t` times the rounded percentages
/// stays within `len * t` of `entries_shares * 10000`.
proof fn lemma_with_percents_bp_sum(s: Seq<OwnershipView>, t: int)
    requires
        t > 0,
        forall|k: int| 0 <= k < s.len() ==> s[k].shares >= 0,
    ensures
        entries_shares(s) * 10000 - s.len() * t <= t * entries_basis_points(
            with_percents(s, t),
        ),
        t * entries_basis_points(with_percents(s, t)) <= entries_shares(s) * 10000 + s.len() * t,
    decreases s.len(),
{
    if s.len() == 0 {
    } else {
        assert(forall|k: int|
            0 <= k < s.drop_last().len() ==> s.drop_last()[k].shares >= 0);
        lemma_with_percents_bp_sum(s.drop_last(), t);
        lemma_pct_bounds(s.last().shares, t);
        let rest = entries_basis_points(with_percents(s.drop_last(), t));
        let p = percent_basis_points(s.last().shares, t);
        lemma_entries_sums_push(
            with_percents(s.drop_last(), t),
            OwnershipView {
                investor: s.last().investor,
                shares: s.last().shares,
                cash_cents: s.last().cash_cents,
                basis_points: p,
            },
        );
        lemma_mul_is_distributive_add(t, rest, p);
        lemma_mul_is_distributive_add_other_way(10000, entries_shares(s.drop_last()), s.last().shares);
        lemma_mul_is_distributive_add_other_way(t, s.drop_last().len() as int, 1);
        assert(s.len() as int == s.drop_last().len() as int + 1);
    }
}

/// In every completed report the rounded ownership percentages sum
/// to 100 percent, within one basis point (one hundredth of a
/// percent) per investor. The exact ratios of shares over total
/// shares sum to exactly one, since the share totals match
/// ([`lemma_sum_invariant`]); only the rounding of each entry to a
/// whole basis point can move the sum off 10000.
pub proof fn lemma_percentage_normalization(s: Seq<Record>, cutoff: Date)
    requires
        spec_report(s, cutoff) is Ok,
    ensures
        ({
            let rep = spec_report(s, cutoff)->Ok_0;
            &&& 10000 - rep.ownership.len() <= entries_basis_points(rep.ownership)
            &&& entries_basis_points(rep.ownership) <= 10000 + rep.ownership.len()
        }),
{
    let fs = filtered(s, cutoff);
    let t = sum_shares(fs);
    let agg = aggregate(fs);
    let n = agg.len() as int;
    crate::model::lemma_sums_nonneg(fs);
    lemma_aggregate_sums(fs);
    lemma_aggregate_nonneg(fs);
    lemma_with_percents_bp_sum(agg, t);
    lemma_with_percents_index(agg, t);
    let bp = entries_basis_points(with_percents(agg, t));
    assert(t * 10000 - n * t <= t * bp <= t * 10000 + n * t);
    assert(bp <= 10000 + n) by (nonlinear_arith)
        requires
            t > 0,
            t * bp <= t * 10000 + n * t,
    ;
    assert(10000 - n <= bp) by (nonlinear_arith)
        requires
            t > 0,
            t * 10000 - n * t <= t * bp,
    ;
}

/// A record dated strictly after the cutoff contributes to no total
/// and appears in no aggregate, wherever it stands in the stream and
/// even if it is its investor's only record: the report is the same
/// as if the record had never been supplied.
pub proof fn lemma_filtering_correctness(s: Seq<Record>, r: Record, i: int, cutoff: Date)
    requires
        0 <= i <= s.len(),
        !qualifies(r, cutoff),
    ensures
        filtered(s.insert(i, r), cutoff) == filtered(s, cutoff),
        spec_report(s.insert(i, r), cutoff) == spec_report(s, cutoff),
    decreases s.len(),
{
    let s2 = s.insert(i, r);
    if i == s.len() {
        assert(s2 =~= s.push(r));
        assert(s.push(r).drop_last() =~= s);
    } else {
        assert(s2.drop_last() =~= s.drop_last().insert(i, r));
        assert(s2.last() == s.last());
        lemma_filtering_correctness(s.drop_last(), r, i, cutoff);
    }
}

/// Folding a record into aggregates with pairwise-distinct investors
/// leaves them pairwise distinct.
proof fn lemma_add_record_distinct(s: Seq<OwnershipView>, r: Record)
    requires
        distinct_investors(s),
    ensures
        distinct_investors(add_record(s, r)),
{
    lemma_find_investor(s, r.investor@);
}

/// Every aggregate sequence the engine builds has pairwise-distinct
/// investors.
proof fn lemma_aggregate_distinct(s: Seq<Record>)
    ensures
        distinct_investors(aggregate(s)),
    decreases s.len(),
{
    if s.len() > 0 {
        lemma_aggregate_distinct(s.drop_last());
        lemma_add_record_distinct(aggregate(s.drop_last()), s.last());
    }
}

/// No investor identifier appears twice in a completed report's
/// ownership list: repeated records of one investor merge into one
/// aggregate.
pub proof fn lemma_uniqueness(s: Seq<Record>, cutoff: Date)
    requires
        spec_report(s, cutoff) is Ok,
    ensures
        distinct_investors(spec_report(s, cutoff)->Ok_0.ownership),
{
    let fs = filtered(s, cutoff);
    lemma_aggregate_distinct(fs);
    lemma_with_percents_index(aggregate(fs), sum_shares(fs));
}

/// The finished report is a function of the record sequence and the
/// cutoff date alone, so two runs over the same input yield
/// identical reports, ordering included.
pub proof fn lemma_determinism(a: ReportView, b: ReportView, s: Seq<Record>, cutoff: Date)
    requires
        spec_report(s, cutoff) == Result::<ReportView, CapTableError>::Ok(a),
        spec_report(s, cutoff) == Result::<ReportView, CapTableError>::Ok(b),
    ensures
        a == b,
{
}

/// When every record is filtered out or carries zero shares, the
/// filtered stream's share total is zero.
proof fn lemma_filtered_shares_zero(s: Seq<Record>, cutoff: Date)
    requires
        forall|k: int|
            0 <= k < s.len() ==> !qualifies(s[k], cutoff) || s[k].shares_purchased == 0,
    ensures
        sum_shares(filtered(s, cutoff)) == 0,
    decreases s.len(),
{
    if s.len() > 0 {
        assert(forall|k: int|
            0 <= k < s.drop_last().len() ==> !qualifies(s.drop_last()[k], cutoff) || s.drop_last(
            )[k].shares_purchased == 0);
        lemma_filtered_shares_zero(s.drop_last(), cutoff);
        if qualifies(s.last(), cutoff) {
            crate::model::lemma_sums_push(filtered(s.drop_last(), cutoff), s.last());
        }
    }
}

/// An input whose records are all dated after the cutoff, or all
/// carry zero shares, ends the invocation with
/// [`CapTableError::TotalSharesIsZero`] rather than an empty report.
/// Cash amounts whose running total would itself leave the unsigned
/// 64-bit range are excluded: overflow is detected first.
pub proof fn lemma_zero_shares_failure(s: Seq<Record>, cutoff: Date)
    requires
        forall|k: int|
            0 <= k < s.len() ==> !qualifies(s[k], cutoff) || s[k].shares_purchased == 0,
        sum_cash(filtered(s, cutoff)) <= u64::MAX,
    ensures
        spec_report(s, cutoff) == Result::<ReportView, CapTableError>::Err(
            CapTableError::TotalSharesIsZero,
        ),
{
    lemma_filtered_shares_zero(s, cutoff);
}

} // verus!
