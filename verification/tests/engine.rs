use cap_table::date::Date;
use cap_table::error::CapTableError;
use cap_table::format::{format_two_decimals, format_u64};
use cap_table::model::{OutputAccumulator, OwnershipRecord, Record};

fn date(year: u32, month: u32, day: u32) -> Date {
    Date { year, month, day }
}

fn record(year: u32, month: u32, day: u32, shares: u64, cents: u64, investor: &str) -> Record {
    Record {
        investment_date: date(year, month, day),
        shares_purchased: shares,
        cash_paid_cents: cents,
        investor: String::from(investor),
    }
}

fn run(records: Vec<Record>, cutoff: Date) -> Result<OutputAccumulator, CapTableError> {
    let mut acc = OutputAccumulator::new(cutoff);
    acc.accumulate_ownership_transactions(&records)?;
    Ok(acc)
}

#[test]
fn it_works() {
    assert_eq!(2 + 2, 4);
}

#[test]
fn scenario_three_investors_one_after_cutoff() {
    let records = vec![
        record(2020, 1, 1, 100, 100000, "Alice"),
        record(2020, 2, 1, 50, 50000, "Bob"),
        record(2020, 6, 1, 9999, 100, "Carl"),
    ];
    let acc = run(records, date(2020, 3, 1)).unwrap();
    assert_eq!(acc.total_number_of_shares, 150);
    assert_eq!(acc.cash_raised_cents, 150000);
    assert_eq!(format_two_decimals(acc.cash_raised_cents), "1500.00");
    assert_eq!(acc.ownership_list.len(), 2);

    let alice = &acc.ownership_list[0];
    assert_eq!(alice.investor, "Alice");
    assert_eq!(alice.shares, 100);
    assert_eq!(alice.cash_paid_cents, 100000);
    assert_eq!(format_two_decimals(alice.ownership_basis_points), "66.67");

    let bob = &acc.ownership_list[1];
    assert_eq!(bob.investor, "Bob");
    assert_eq!(bob.shares, 50);
    assert_eq!(bob.cash_paid_cents, 50000);
    assert_eq!(format_two_decimals(bob.ownership_basis_points), "33.33");
}

#[test]
fn same_investor_merges_into_one_aggregate() {
    let records = vec![
        record(2020, 1, 1, 30, 1000, "Alice"),
        record(2020, 1, 2, 10, 500, "Bob"),
        record(2020, 2, 15, 70, 2500, "Alice"),
    ];
    let acc = run(records, date(2020, 12, 31)).unwrap();
    assert_eq!(acc.ownership_list.len(), 2);
    let alice = &acc.ownership_list[0];
    assert_eq!(alice.investor, "Alice");
    assert_eq!(alice.shares, 100);
    assert_eq!(alice.cash_paid_cents, 3500);
    assert_eq!(acc.total_number_of_shares, 110);
    assert_eq!(acc.cash_raised_cents, 4000);
}

#[test]
fn record_after_cutoff_contributes_nothing() {
    let records = vec![
        record(2020, 1, 1, 10, 100, "Alice"),
        record(2020, 3, 2, 90, 900, "Late"),
    ];
    let acc = run(records, date(2020, 3, 1)).unwrap();
    assert_eq!(acc.total_number_of_shares, 10);
    assert_eq!(acc.cash_raised_cents, 100);
    assert_eq!(acc.ownership_list.len(), 1);
    assert_eq!(acc.ownership_list[0].investor, "Alice");
}

#[test]
fn cutoff_is_inclusive() {
    let records = vec![record(2020, 3, 1, 10, 100, "Alice")];
    let acc = run(records, date(2020, 3, 1)).unwrap();
    assert_eq!(acc.total_number_of_shares, 10);
    assert_eq!(acc.ownership_list.len(), 1);
}

#[test]
fn all_records_after_cutoff_is_zero_shares_error() {
    let records = vec![
        record(2021, 1, 1, 10, 100, "Alice"),
        record(2022, 1, 1, 20, 200, "Bob"),
    ];
    let err = run(records, date(2020, 3, 1)).unwrap_err();
    assert_eq!(err, CapTableError::TotalSharesIsZero);
}

#[test]
fn all_zero_share_records_is_zero_shares_error() {
    let records = vec![
        record(2020, 1, 1, 0, 100, "Alice"),
        record(2020, 1, 2, 0, 200, "Bob"),
    ];
    let err = run(records, date(2020, 3, 1)).unwrap_err();
    assert_eq!(err, CapTableError::TotalSharesIsZero);
}

#[test]
fn empty_input_is_zero_shares_error() {
    let err = run(Vec::new(), date(2020, 3, 1)).unwrap_err();
    assert_eq!(err, CapTableError::TotalSharesIsZero);
}

#[test]
fn share_overflow_is_detected_and_leaves_accumulator_unchanged() {
    let records = vec![
        record(2020, 1, 1, u64::MAX, 0, "Alice"),
        record(2020, 1, 2, 1, 0, "Bob"),
    ];
    let mut acc = OutputAccumulator::new(date(2020, 3, 1));
    let err = acc.accumulate_ownership_transactions(&records).unwrap_err();
    assert_eq!(err, CapTableError::AccumulationOverflow);
    assert_eq!(acc.total_number_of_shares, 0);
    assert_eq!(acc.cash_raised_cents, 0);
    assert_eq!(acc.ownership_list.len(), 0);
}

#[test]
fn cash_overflow_is_detected() {
    let records = vec![
        record(2020, 1, 1, 1, u64::MAX, "Alice"),
        record(2020, 1, 2, 1, 1, "Bob"),
    ];
    let err = run(records, date(2020, 3, 1)).unwrap_err();
    assert_eq!(err, CapTableError::AccumulationOverflow);
}

#[test]
fn single_investor_owns_everything() {
    let records = vec![record(2020, 1, 1, u64::MAX, 250, "Alice")];
    let acc = run(records, date(2020, 3, 1)).unwrap();
    assert_eq!(acc.total_number_of_shares, u64::MAX);
    let alice = &acc.ownership_list[0];
    assert_eq!(alice.ownership_basis_points, 10000);
    assert_eq!(format_two_decimals(alice.ownership_basis_points), "100.00");
}

#[test]
fn thirds_round_to_the_nearest_basis_point() {
    let records = vec![
        record(2020, 1, 1, 1, 0, "A"),
        record(2020, 1, 1, 1, 0, "B"),
        record(2020, 1, 1, 1, 0, "C"),
    ];
    let acc = run(records, date(2020, 3, 1)).unwrap();
    for entry in &acc.ownership_list {
        assert_eq!(entry.ownership_basis_points, 3333);
        assert_eq!(format_two_decimals(entry.ownership_basis_points), "33.33");
    }
    let sum: u64 = acc
        .ownership_list
        .iter()
        .map(|e| e.ownership_basis_points)
        .sum();
    let entries = acc.ownership_list.len() as u64;
    assert!(10000 - entries <= sum && sum <= 10000 + entries);
}

#[test]
fn totals_equal_sums_over_ownership_list() {
    let records = vec![
        record(2019, 5, 5, 7, 123, "A"),
        record(2019, 6, 6, 11, 456, "B"),
        record(2019, 7, 7, 13, 789, "A"),
        record(2019, 8, 8, 17, 1011, "C"),
    ];
    let acc = run(records, date(2020, 1, 1)).unwrap();
    let share_sum: u64 = acc.ownership_list.iter().map(|e| e.shares).sum();
    let cash_sum: u64 = acc.ownership_list.iter().map(|e| e.cash_paid_cents).sum();
    assert_eq!(acc.total_number_of_shares, share_sum);
    assert_eq!(acc.cash_raised_cents, cash_sum);
}

#[test]
fn no_investor_appears_twice() {
    let records = vec![
        record(2019, 5, 5, 7, 123, "A"),
        record(2019, 6, 6, 11, 456, "B"),
        record(2019, 7, 7, 13, 789, "A"),
        record(2019, 8, 8, 17, 1011, "B"),
        record(2019, 9, 9, 19, 1213, "A"),
    ];
    let acc = run(records, date(2020, 1, 1)).unwrap();
    assert_eq!(acc.ownership_list.len(), 2);
    for i in 0..acc.ownership_list.len() {
        for j in 0..i {
            assert_ne!(acc.ownership_list[i].investor, acc.ownership_list[j].investor);
        }
    }
}

#[test]
fn investor_matching_is_exact_and_case_sensitive() {
    let records = vec![
        record(2020, 1, 1, 10, 100, "alice"),
        record(2020, 1, 2, 20, 200, "Alice"),
        record(2020, 1, 3, 30, 300, "alice "),
    ];
    let acc = run(records, date(2020, 3, 1)).unwrap();
    assert_eq!(acc.ownership_list.len(), 3);
}

fn render(acc: &OutputAccumulator) -> String {
    let mut out = String::new();
    out += &acc.date.format_mm_dd_yyyy();
    out += "|";
    out += &format_two_decimals(acc.cash_raised_cents);
    out += "|";
    out += &format_u64(acc.total_number_of_shares);
    for entry in &acc.ownership_list {
        out += "|";
        out += &entry.investor;
        out += ",";
        out += &format_u64(entry.shares);
        out += ",";
        out += &format_two_decimals(entry.cash_paid_cents);
        out += ",";
        out += &format_two_decimals(entry.ownership_basis_points);
    }
    out
}

#[test]
fn two_runs_render_byte_identical_reports() {
    let make = || {
        vec![
            record(2020, 1, 1, 100, 100000, "Alice"),
            record(2020, 2, 1, 50, 50000, "Bob"),
            record(2020, 2, 2, 25, 25000, "Alice"),
            record(2020, 6, 1, 9999, 100, "Carl"),
        ]
    };
    let first = run(make(), date(2020, 3, 1)).unwrap();
    let second = run(make(), date(2020, 3, 1)).unwrap();
    assert_eq!(render(&first), render(&second));
    assert_eq!(
        render(&first),
        "03/01/2020|1750.00|175|Alice,125,1250.00,71.43|Bob,50,500.00,28.57"
    );
}

#[test]
fn fix_ownership_percentage_writes_basis_points() {
    let mut entry = OwnershipRecord::new(String::from("Alice"), 1, 42);
    entry.fix_ownership_percentage(8);
    assert_eq!(entry.ownership_basis_points, 1250);
    assert_eq!(entry.investor, "Alice");
    assert_eq!(entry.shares, 1);
    assert_eq!(entry.cash_paid_cents, 42);

    let mut entry = OwnershipRecord::new(String::from("Bob"), 2, 0);
    entry.fix_ownership_percentage(3);
    assert_eq!(entry.ownership_basis_points, 6667);
}
