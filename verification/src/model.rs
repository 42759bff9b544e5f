use vstd::prelude::*;

use crate::date::{date_le, Date};
use crate::error::CapTableError;

verus! {

/// One validated equity-purchase transaction.
///
/// Cash is held as an exact count of cents, so accumulation never loses
/// precision and reports are reproducible bit for bit. The supplying
/// collaborator validates records before they reach the engine; the
/// engine itself accepts any field values, including zeros.
#[derive(Debug)]
pub struct Record {
    pub investment_date: Date,
    pub shares_purchased: u64,
    pub cash_paid_cents: u64,
    pub investor: String,
}

/// The accumulated totals for one investor.
///
/// `ownership_basis_points` is the investor's ownership percentage in
/// hundredths of a percent (basis points): it starts at zero and is
/// written once, by the percentage pass, after accumulation finishes.
#[derive(Debug)]
pub struct OwnershipRecord {
    pub investor: String,
    pub shares: u64,
    pub cash_paid_cents: u64,
    pub ownership_basis_points: u64,
}

/// The mathematical value of an [`OwnershipRecord`]: the investor
/// identifier as a character sequence and the three totals as
/// unbounded integers.
pub struct OwnershipView {
    pub investor: Seq<char>,
    pub shares: int,
    pub cash_cents: int,
    pub basis_points: int,
}

impl View for OwnershipRecord {
    type V = OwnershipView;

    open spec fn view(&self) -> OwnershipView {
        OwnershipView {
            investor: self.investor@,
            shares: self.shares as int,
            cash_cents: self.cash_paid_cents as int,
            basis_points: self.ownership_basis_points as int,
        }
    }
}

/// The views of every element of a sequence of ownership records.
pub open spec fn views_of(s: Seq<OwnershipRecord>) -> Seq<OwnershipView> {
    s.map_values(|r: OwnershipRecord| r@)
}

impl OwnershipRecord {
    /// A fresh aggregate for `investor` holding the given totals, with
    /// the ownership percentage still unset.
    pub fn new(investor: String, shares: u64, cash_paid_cents: u64) -> (r: Self)
        ensures
            r.investor == investor,
            r.shares == shares,
            r.cash_paid_cents == cash_paid_cents,
            r.ownership_basis_points == 0,
    {
        Self { investor, shares, cash_paid_cents, ownership_basis_points: 0 }
    }

    /// Writes the ownership percentage: this investor's shares over
    /// `total_shares`, in basis points, rounded half-up. The engine
    /// calls it once per aggregate, after accumulation, when every
    /// aggregate's shares are bounded by the grand total; the bound
    /// also keeps the result within the unsigned 64-bit range.
    pub fn fix_ownership_percentage(&mut self, total_shares: u64)
        requires
            total_shares > 0,
            old(self).shares <= total_shares,
        ensures
            final(self).investor == old(self).investor,
            final(self).shares == old(self).shares,
            final(self).cash_paid_cents == old(self).cash_paid_cents,
            final(self).ownership_basis_points == percent_basis_points(
                old(self).shares as int,
                total_shares as int,
            ),
            final(self).ownership_basis_points <= 10000,
    {
        let s = self.shares as u128;
        let t = total_shares as u128;
        proof {
            vstd::arithmetic::mul::lemma_mul_inequality(s as int, u64::MAX as int, 10000);
        }
        let num: u128 = s * 10000 + t / 2;
        proof {
            let si = s as int;
            let ti = t as int;
            vstd::arithmetic::mul::lemma_mul_inequality(si, ti, 10000);
            vstd::arithmetic::div_mod::lemma_div_is_ordered(
                si * 10000 + ti / 2,
                ti * 10000 + ti / 2,
                ti,
            );
            vstd::arithmetic::div_mod::lemma_hoist_over_denominator(ti / 2, 10000, t as nat);
            vstd::arithmetic::div_mod::lemma_basic_div(ti / 2, ti);
            assert(ti * 10000 == 10000 * ti);
            assert((ti * 10000 + ti / 2) / ti == 10000);
            vstd::arithmetic::div_mod::lemma_div_pos_is_pos(si * 10000 + ti / 2, ti);
        }
        let p: u128 = num / t;
        self.ownership_basis_points = p as u64;
    }
}

/// True iff `r` belongs in a report with cutoff date `cutoff`: its
/// transaction date is on or before the cutoff (inclusive).
pub open spec fn qualifies(r: Record, cutoff: Date) -> bool {
    date_le(r.investment_date, cutoff)
}

/// The subsequence of `s`, in order, whose records qualify under
/// `cutoff`.
pub open spec fn filtered(s: Seq<Record>, cutoff: Date) -> Seq<Record>
    decreases s.len(),
{
    if s.len() == 0 {
        Seq::empty()
    } else if qualifies(s.last(), cutoff) {
        filtered(s.drop_last(), cutoff).push(s.last())
    } else {
        filtered(s.drop_last(), cutoff)
    }
}

/// The total shares purchased over a record sequence.
pub open spec fn sum_shares(s: Seq<Record>) -> int
    decreases s.len(),
{
    if s.len() == 0 {
        0
    } else {
        sum_shares(s.drop_last()) + s.last().shares_purchased
    }
}

/// The total cash paid, in cents, over a record sequence.
pub open spec fn sum_cash(s: Seq<Record>) -> int
    decreases s.len(),
{
    if s.len() == 0 {
        0
    } else {
        sum_cash(s.drop_last()) + s.last().cash_paid_cents
    }
}

/// The total shares over a sequence of per-investor aggregates.
pub open spec fn entries_shares(s: Seq<OwnershipView>) -> int
    decreases s.len(),
{
    if s.len() == 0 {
        0
    } else {
        entries_shares(s.drop_last()) + s.last().shares
    }
}

/// The total cash, in cents, over a sequence of per-investor
/// aggregates.
pub open spec fn entries_cash(s: Seq<OwnershipView>) -> int
    decreases s.len(),
{
    if s.len() == 0 {
        0
    } else {
        entries_cash(s.drop_last()) + s.last().cash_cents
    }
}

/// The total ownership, in basis points, over a sequence of
/// per-investor aggregates.
pub open spec fn entries_basis_points(s: Seq<OwnershipView>) -> int
    decreases s.len(),
{
    if s.len() == 0 {
        0
    } else {
        entries_basis_points(s.drop_last()) + s.last().basis_points
    }
}

/// The index of the first aggregate for investor `inv`, or -1 if no
/// aggregate carries that identifier. Matching is exact and
/// case-sensitive.
pub open spec fn find_investor(s: Seq<OwnershipView>, inv: Seq<char>) -> int
    decreases s.len(),
{
    if s.len() == 0 {
        -1
    } else if s[0].investor == inv {
        0
    } else {
        let r = find_investor(s.drop_first(), inv);
        if r < 0 {
            -1
        } else {
            r + 1
        }
    }
}

/// Folds one qualifying record into the per-investor aggregates: the
/// first record of a new investor appends a fresh aggregate at the
/// end, so the aggregates stand in first-seen order; a repeated
/// investor has the record added into its existing aggregate.
pub open spec fn add_record(s: Seq<OwnershipView>, r: Record) -> Seq<OwnershipView> {
    let i = find_investor(s, r.investor@);
    if i < 0 {
        s.push(
            OwnershipView {
                investor: r.investor@,
                shares: r.shares_purchased as int,
                cash_cents: r.cash_paid_cents as int,
                basis_points: 0,
            },
        )
    } else {
        s.update(
            i,
            OwnershipView {
                investor: s[i].investor,
                shares: s[i].shares + r.shares_purchased,
                cash_cents: s[i].cash_cents + r.cash_paid_cents,
                basis_points: s[i].basis_points,
            },
        )
    }
}

/// The per-investor aggregates of a record sequence, consumed in
/// order, in first-seen order of investor, with percentages still
/// zero.
pub open spec fn aggregate(s: Seq<Record>) -> Seq<OwnershipView>
    decreases s.len(),
{
    if s.len() == 0 {
        Seq::empty()
    } else {
        add_record(aggregate(s.drop_last()), s.last())
    }
}

/// An investor's ownership in basis points: shares over total shares,
/// times 10000, rounded half-up to the nearest basis point.
pub open spec fn percent_basis_points(shares: int, total: int) -> int {
    (shares * 10000 + total / 2) / total
}

/// The aggregates with their ownership percentages filled in from
/// `total` shares outstanding.
pub open spec fn with_percents(s: Seq<OwnershipView>, total: int) -> Seq<OwnershipView>
    decreases s.len(),
{
    if s.len() == 0 {
        Seq::empty()
    } else {
        with_percents(s.drop_last(), total).push(
            OwnershipView {
                investor: s.last().investor,
                shares: s.last().shares,
                cash_cents: s.last().cash_cents,
                basis_points: percent_basis_points(s.last().shares, total),
            },
        )
    }
}

/// No investor identifier appears twice.
pub open spec fn distinct_investors(s: Seq<OwnershipView>) -> bool {
    forall|i: int, j: int| 0 <= i < j < s.len() ==> s[i].investor != s[j].investor
}

/// The mathematical value of a finished [`OutputAccumulator`].
pub struct ReportView {
    pub date: Date,
    pub cash_raised_cents: int,
    pub total_shares: int,
    pub ownership: Seq<OwnershipView>,
}

/// The report the engine owes for `s` under `cutoff`: the outcome of
/// filtering, accumulating from zero, and the percentage pass, or the
/// error that ends the invocation. Overflow of a running total is
/// detected mid-stream and takes precedence over the zero-shares
/// check, which runs only once the stream is exhausted.
pub open spec fn spec_report(s: Seq<Record>, cutoff: Date) -> Result<ReportView, CapTableError> {
    let fs = filtered(s, cutoff);
    if sum_cash(fs) > u64::MAX || sum_shares(fs) > u64::MAX {
        Err(CapTableError::AccumulationOverflow)
    } else if sum_shares(fs) == 0 {
        Err(CapTableError::TotalSharesIsZero)
    } else {
        Ok(
            ReportView {
                date: cutoff,
                cash_raised_cents: sum_cash(fs),
                total_shares: sum_shares(fs),
                ownership: with_percents(aggregate(fs), sum_shares(fs)),
            },
        )
    }
}

/// The point-in-time capitalization report under construction: the
/// cutoff date, the grand totals, and the per-investor list in
/// first-seen order.
#[derive(Debug)]
pub struct OutputAccumulator {
    pub date: Date,
    pub cash_raised_cents: u64,
    pub total_number_of_shares: u64,
    pub ownership_list: Vec<OwnershipRecord>,
}

impl View for OutputAccumulator {
    type V = ReportView;

    open spec fn view(&self) -> ReportView {
        ReportView {
            date: self.date,
            cash_raised_cents: self.cash_raised_cents as int,
            total_shares: self.total_number_of_shares as int,
            ownership: views_of(self.ownership_list@),
        }
    }
}

impl OutputAccumulator {
    /// An empty report for cutoff date `date`: zero totals and no
    /// per-investor aggregates.
    pub fn new(date: Date) -> (r: Self)
        ensures
            r.date == date,
            r.cash_raised_cents == 0,
            r.total_number_of_shares == 0,
            r.ownership_list@ == Seq::<OwnershipRecord>::empty(),
    {
        Self {
            date,
            cash_raised_cents: 0,
            total_number_of_shares: 0,
            ownership_list: Vec::new(),
        }
    }
}

impl OutputAccumulator {
    /// Consumes the record sequence once, in order: adds every
    /// qualifying record (dated on or before the cutoff, inclusive)
    /// into the grand totals and into its investor's aggregate, then
    /// runs the percentage pass and installs the ownership list in
    /// first-seen investor order.
    ///
    /// The whole invocation fails, leaving the accumulator unchanged,
    /// when a running total would leave the unsigned 64-bit range
    /// (detected mid-stream, before the zero check) or when the final
    /// share total is zero; no partial report is ever produced. On a
    /// fresh accumulator the outcome is exactly [`spec_report`] of the
    /// records and the cutoff date.
    #[verifier::loop_isolation(false)]
    pub fn accumulate_ownership_transactions(&mut self, records: &Vec<Record>) -> (r: Result<
        (),
        CapTableError,
    >)
        ensures
            ({
                let fs = filtered(records@, old(self).date);
                let total_s = old(self).total_number_of_shares + sum_shares(fs);
                let total_c = old(self).cash_raised_cents + sum_cash(fs);
                &&& (r is Ok <==> total_c <= u64::MAX && total_s <= u64::MAX && total_s > 0)
                &&& (r is Ok ==> final(self)@ == (ReportView {
                    date: old(self).date,
                    cash_raised_cents: total_c,
                    total_shares: total_s,
                    ownership: with_percents(aggregate(fs), total_s),
                }))
                &&& (r is Err ==> *final(self) == *old(self))
                &&& (r == Result::<(), CapTableError>::Err(CapTableError::AccumulationOverflow)
                    <==> (total_c > u64::MAX || total_s > u64::MAX))
                &&& (r == Result::<(), CapTableError>::Err(CapTableError::TotalSharesIsZero)
                    <==> (total_c <= u64::MAX && total_s <= u64::MAX && total_s == 0))
            }),
            old(self).total_number_of_shares == 0 && old(self).cash_raised_cents == 0
                ==> spec_report(records@, old(self).date) == (match r {
                Ok(_) => Result::<ReportView, CapTableError>::Ok(final(self)@),
                Err(e) => Result::<ReportView, CapTableError>::Err(e),
            }),
    {
        let cutoff = self.date;
        let ghost base_s: int = self.total_number_of_shares as int;
        let ghost base_c: int = self.cash_raised_cents as int;
        let mut total_shares: u64 = self.total_number_of_shares;
        let mut total_cash: u64 = self.cash_raised_cents;
        let mut entries: Vec<OwnershipRecord> = Vec::new();

        let n = records.len();
        let mut i: usize = 0;
        while i < n
            invariant
                i <= n,
                ({
                    let fsi = filtered(records@.take(i as int), cutoff);
                    &&& total_shares as int == base_s + sum_shares(fsi)
                    &&& total_cash as int == base_c + sum_cash(fsi)
                    &&& views_of(entries@) == aggregate(fsi)
                    &&& entries_shares(views_of(entries@)) == sum_shares(fsi)
                    &&& entries_cash(views_of(entries@)) == sum_cash(fsi)
                }),
            decreases n - i,
        {
            let ghost fsi = filtered(records@.take(i as int), cutoff);
            proof {
                lemma_filtered_step(records@, cutoff, i as int);
            }
            let rec = &records[i];
            if rec.investment_date.le(&cutoff) {
                proof {
                    lemma_sums_push(fsi, records@[i as int]);
                    lemma_aggregate_push(fsi, records@[i as int]);
                    lemma_add_record_sums(views_of(entries@), records@[i as int]);
                }
                if rec.cash_paid_cents > u64::MAX - total_cash {
                    proof {
                        lemma_filtered_take_mono(records@, cutoff, i as int + 1);
                    }
                    return Err(CapTableError::AccumulationOverflow);
                }
                total_cash = total_cash + rec.cash_paid_cents;
                if rec.shares_purchased > u64::MAX - total_shares {
                    proof {
                        lemma_filtered_take_mono(records@, cutoff, i as int + 1);
                    }
                    return Err(CapTableError::AccumulationOverflow);
                }
                total_shares = total_shares + rec.shares_purchased;

                let ghost vs0 = views_of(entries@);
                match find_entry(&entries, &rec.investor) {
                    Some(j) => {
                        proof {
                            assert(forall|k: int|
                                0 <= k < vs0.len() ==> vs0[k] == entries@[k]@ && vs0[k].shares
                                    >= 0 && vs0[k].cash_cents >= 0);
                            lemma_entry_le_sums(vs0, j as int);
                        }
                        let e = &mut entries[j];
                        e.shares = e.shares + rec.shares_purchased;
                        e.cash_paid_cents = e.cash_paid_cents + rec.cash_paid_cents;
                        proof {
                            assert(views_of(entries@) =~= add_record(vs0, records@[i as int]));
                        }
                    },
                    None => {
                        entries.push(
                            OwnershipRecord::new(
                                rec.investor.clone(),
                                rec.shares_purchased,
                                rec.cash_paid_cents,
                            ),
                        );
                        proof {
                            assert(views_of(entries@) =~= add_record(vs0, records@[i as int]));
                        }
                    },
                }
            }
            i += 1;
        }
        proof {
            assert(records@.take(n as int) =~= records@);
        }

        if total_shares == 0 {
            return Err(CapTableError::TotalSharesIsZero);
        }

        let ghost fs = filtered(records@, cutoff);
        let ghost agg = aggregate(fs);
        let total = total_shares;
        let ghost wp = with_percents(agg, total as int);
        proof {
            lemma_with_percents_index(agg, total as int);
            assert(forall|k: int|
                0 <= k < agg.len() ==> agg[k] == entries@[k]@ && agg[k].shares >= 0
                    && agg[k].cash_cents >= 0);
        }
        let m = entries.len();
        let mut j: usize = 0;
        while j < m
            invariant
                j <= m,
                entries@.len() == m,
                forall|k: int| j <= k < m ==> entries@[k]@ == agg[k],
                forall|k: int| 0 <= k < j ==> entries@[k]@ == wp[k],
            decreases m - j,
        {
            proof {
                lemma_entry_le_sums(agg, j as int);
            }
            let e = &mut entries[j];
            e.fix_ownership_percentage(total);
            j += 1;
        }
        proof {
            assert(views_of(entries@) =~= wp);
        }

        self.cash_raised_cents = total_cash;
        self.total_number_of_shares = total_shares;
        self.ownership_list = entries;
        Ok(())
    }
}

/// The index of the first aggregate carrying `investor`, scanning in
/// order, or `None` when no aggregate carries it.
fn find_entry(entries: &Vec<OwnershipRecord>, investor: &String) -> (r: Option<usize>)
    ensures
        match r {
            Some(j) => j < entries@.len() && find_investor(views_of(entries@), investor@)
                == j,
            None => find_investor(views_of(entries@), investor@) == -1,
        },
{
    let ghost vs = views_of(entries@);
    let n = entries.len();
    let mut j: usize = 0;
    while j < n
        invariant
            j <= n,
            n == entries@.len(),
            vs == views_of(entries@),
            forall|k: int| 0 <= k < j ==> vs[k].investor != investor@,
        decreases n - j,
    {
        if entries[j].investor == *investor {
            proof {
                assert(vs[j as int].investor == investor@);
                lemma_find_investor(vs, investor@);
            }
            return Some(j);
        }
        j += 1;
    }
    proof {
        lemma_find_investor(vs, investor@);
    }
    None
}

/// Extending a record sequence by one record extends the filtered
/// subsequence by that record exactly when it qualifies.
pub proof fn lemma_filtered_step(s: Seq<Record>, cutoff: Date, i: int)
    requires
        0 <= i < s.len(),
    ensures
        filtered(s.take(i + 1), cutoff) == if qualifies(s[i], cutoff) {
            filtered(s.take(i), cutoff).push(s[i])
        } else {
            filtered(s.take(i), cutoff)
        },
{
    assert(s.take(i + 1).drop_last() =~= s.take(i));
    assert(s.take(i + 1).last() == s[i]);
}

/// Share and cash sums over a record sequence are never negative.
pub proof fn lemma_sums_nonneg(s: Seq<Record>)
    ensures
        sum_shares(s) >= 0,
        sum_cash(s) >= 0,
    decreases s.len(),
{
    if s.len() > 0 {
        lemma_sums_nonneg(s.drop_last());
    }
}

/// Appending a record adds its shares and cash to the sequence sums.
pub proof fn lemma_sums_push(fs: Seq<Record>, r: Record)
    ensures
        sum_shares(fs.push(r)) == sum_shares(fs) + r.shares_purchased,
        sum_cash(fs.push(r)) == sum_cash(fs) + r.cash_paid_cents,
{
    assert(fs.push(r).drop_last() =~= fs);
    assert(fs.push(r).last() == r);
}

/// Appending one record to the stream folds it into the aggregates.
pub proof fn lemma_aggregate_push(fs: Seq<Record>, r: Record)
    ensures
        aggregate(fs.push(r)) == add_record(aggregate(fs), r),
{
    assert(fs.push(r).drop_last() =~= fs);
    assert(fs.push(r).last() == r);
}

/// Appending an aggregate adds its totals to the aggregate sums.
pub proof fn lemma_entries_sums_push(s: Seq<OwnershipView>, e: OwnershipView)
    ensures
        entries_shares(s.push(e)) == entries_shares(s) + e.shares,
        entries_cash(s.push(e)) == entries_cash(s) + e.cash_cents,
        entries_basis_points(s.push(e)) == entries_basis_points(s) + e.basis_points,
{
    assert(s.push(e).drop_last() =~= s);
    assert(s.push(e).last() == e);
}

/// Replacing one aggregate changes the aggregate sums by the
/// difference between the new entry and the old.
pub proof fn lemma_entries_sums_update(s: Seq<OwnershipView>, i: int, e: OwnershipView)
    requires
        0 <= i < s.len(),
    ensures
        entries_shares(s.update(i, e)) == entries_shares(s) - s[i].shares + e.shares,
        entries_cash(s.update(i, e)) == entries_cash(s) - s[i].cash_cents + e.cash_cents,
    decreases s.len(),
{
    if i == s.len() - 1 {
        assert(s.update(i, e).drop_last() =~= s.drop_last());
        assert(s.update(i, e).last() == e);
    } else {
        lemma_entries_sums_update(s.drop_last(), i, e);
        assert(s.update(i, e).drop_last() =~= s.drop_last().update(i, e));
        assert(s.update(i, e).last() == s.last());
    }
}

/// What [`find_investor`] returns: either the index of the first
/// aggregate carrying `inv`, or -1 when no aggregate carries it.
pub proof fn lemma_find_investor(s: Seq<OwnershipView>, inv: Seq<char>)
    ensures
        ({
            let i = find_investor(s, inv);
            &&& i == -1 || 0 <= i < s.len()
            &&& i >= 0 ==> s[i].investor == inv && (forall|k: int|
                0 <= k < i ==> s[k].investor != inv)
            &&& i == -1 ==> forall|k: int| 0 <= k < s.len() ==> s[k].investor != inv
        }),
    decreases s.len(),
{
    if s.len() > 0 && s[0].investor != inv {
        lemma_find_investor(s.drop_first(), inv);
        assert(forall|k: int| 1 <= k < s.len() ==> s[k] == s.drop_first()[k - 1]);
    }
}

/// Folding one record into the aggregates adds its shares and cash to
/// the aggregate sums, whether it opens a new aggregate or lands in an
/// existing one.
pub proof fn lemma_add_record_sums(s: Seq<OwnershipView>, r: Record)
    ensures
        entries_shares(add_record(s, r)) == entries_shares(s) + r.shares_purchased,
        entries_cash(add_record(s, r)) == entries_cash(s) + r.cash_paid_cents,
{
    let i = find_investor(s, r.investor@);
    lemma_find_investor(s, r.investor@);
    if i < 0 {
        lemma_entries_sums_push(
            s,
            OwnershipView {
                investor: r.investor@,
                shares: r.shares_purchased as int,
                cash_cents: r.cash_paid_cents as int,
                basis_points: 0,
            },
        );
    } else {
        lemma_entries_sums_update(
            s,
            i,
            OwnershipView {
                investor: s[i].investor,
                shares: s[i].shares + r.shares_purchased,
                cash_cents: s[i].cash_cents + r.cash_paid_cents,
                basis_points: s[i].basis_points,
            },
        );
    }
}

/// When no aggregate is negative, the aggregate sums are not either.
pub proof fn lemma_entries_sums_nonneg(s: Seq<OwnershipView>)
    requires
        forall|k: int| 0 <= k < s.len() ==> s[k].shares >= 0 && s[k].cash_cents >= 0,
    ensures
        entries_shares(s) >= 0,
        entries_cash(s) >= 0,
    decreases s.len(),
{
    if s.len() > 0 {
        assert(forall|k: int|
            0 <= k < s.drop_last().len() ==> s.drop_last()[k].shares >= 0
                && s.drop_last()[k].cash_cents >= 0);
        lemma_entries_sums_nonneg(s.drop_last());
    }
}

/// When no aggregate is negative, each aggregate's totals are bounded
/// by the aggregate sums.
pub proof fn lemma_entry_le_sums(s: Seq<OwnershipView>, i: int)
    requires
        0 <= i < s.len(),
        forall|k: int| 0 <= k < s.len() ==> s[k].shares >= 0 && s[k].cash_cents >= 0,
    ensures
        s[i].shares <= entries_shares(s),
        s[i].cash_cents <= entries_cash(s),
    decreases s.len(),
{
    assert(forall|k: int|
        0 <= k < s.drop_last().len() ==> s.drop_last()[k].shares >= 0
            && s.drop_last()[k].cash_cents >= 0);
    if i < s.len() - 1 {
        lemma_entry_le_sums(s.drop_last(), i);
    } else {
        lemma_entries_sums_nonneg(s.drop_last());
    }
}

/// The sums over a filtered prefix of the stream never exceed the sums
/// over the whole filtered stream.
pub proof fn lemma_filtered_take_mono(s: Seq<Record>, cutoff: Date, i: int)
    requires
        0 <= i <= s.len(),
    ensures
        sum_shares(filtered(s.take(i), cutoff)) <= sum_shares(filtered(s, cutoff)),
        sum_cash(filtered(s.take(i), cutoff)) <= sum_cash(filtered(s, cutoff)),
    decreases s.len() - i,
{
    if i == s.len() {
        assert(s.take(i) =~= s);
    } else {
        lemma_filtered_step(s, cutoff, i);
        if qualifies(s[i], cutoff) {
            lemma_sums_push(filtered(s.take(i), cutoff), s[i]);
        }
        lemma_filtered_take_mono(s, cutoff, i + 1);
    }
}

/// The percentage pass keeps the length, the identifiers, the share
/// and cash totals of every aggregate, and writes each percentage.
pub proof fn lemma_with_percents_index(s: Seq<OwnershipView>, total: int)
    ensures
        with_percents(s, total).len() == s.len(),
        forall|k: int| 0 <= k < s.len() ==> with_percents(s, total)[k] == (OwnershipView {
            investor: s[k].investor,
            shares: s[k].shares,
            cash_cents: s[k].cash_cents,
            basis_points: percent_basis_points(s[k].shares, total),
        }),
    decreases s.len(),
{
    if s.len() > 0 {
        lemma_with_percents_index(s.drop_last(), total);
    }
}

} // verus!
