use hard_waste::aggregate::remove_duplicate_dates;
use hard_waste::date::PickupDate;
use hard_waste::record::{Address, ResultRecord};

fn record(id: &str, year: i32, month: u32, day: u32) -> ResultRecord {
    ResultRecord {
        address: Address {
            id: id.to_string(),
            line: format!("{} Example St", id),
            lat_bits: (-37.8f64).to_bits(),
            lon_bits: 145.3f64.to_bits(),
        },
        date: PickupDate { year, month, day },
    }
}

fn ids(records: &[ResultRecord]) -> Vec<String> {
    records.iter().map(|r| r.address.id.clone()).collect()
}

#[test]
fn keeps_first_record_of_each_date_in_date_order() {
    let mut results = vec![
        record("a", 2025, 7, 15),
        record("b", 2025, 3, 1),
        record("c", 2025, 7, 15),
        record("d", 2024, 12, 31),
        record("e", 2025, 3, 1),
    ];
    remove_duplicate_dates(&mut results);
    assert_eq!(ids(&results), vec!["d", "b", "a"]);
    assert_eq!(results[0].date, PickupDate { year: 2024, month: 12, day: 31 });
    assert_eq!(results[1].date, PickupDate { year: 2025, month: 3, day: 1 });
    assert_eq!(results[2].date, PickupDate { year: 2025, month: 7, day: 15 });
}

#[test]
fn aggregating_twice_changes_nothing() {
    let mut results = vec![
        record("a", 2025, 7, 15),
        record("b", 2025, 7, 14),
        record("c", 2025, 7, 15),
        record("d", 2025, 6, 30),
    ];
    remove_duplicate_dates(&mut results);
    let once = results.clone();
    remove_duplicate_dates(&mut results);
    assert_eq!(results, once);
}

#[test]
fn no_two_survivors_share_a_date() {
    let mut results = vec![
        record("a", 2025, 1, 1),
        record("b", 2025, 1, 1),
        record("c", 2025, 1, 1),
        record("d", 2025, 1, 2),
        record("e", 2025, 1, 2),
    ];
    remove_duplicate_dates(&mut results);
    assert_eq!(results.len(), 2);
    for i in 0..results.len() {
        for j in (i + 1)..results.len() {
            assert_ne!(results[i].date, results[j].date);
        }
    }
    assert_eq!(ids(&results), vec!["a", "d"]);
}

#[test]
fn survivors_ascend_by_date() {
    let mut results = vec![
        record("a", 2026, 1, 1),
        record("b", 2025, 12, 31),
        record("c", 2025, 12, 1),
        record("d", 2025, 2, 28),
        record("e", 2024, 2, 29),
        record("f", 2025, 12, 31),
    ];
    remove_duplicate_dates(&mut results);
    assert_eq!(ids(&results), vec!["e", "d", "c", "b", "a"]);
    for pair in results.windows(2) {
        assert!(pair[0].date.is_before(&pair[1].date));
    }
}

#[test]
fn year_decides_before_month_and_month_before_day() {
    let mut results = vec![
        record("a", 2025, 1, 31),
        record("b", 2024, 12, 1),
        record("c", 2025, 2, 1),
        record("d", 2025, 1, 2),
    ];
    remove_duplicate_dates(&mut results);
    assert_eq!(ids(&results), vec!["b", "d", "a", "c"]);
}

#[test]
fn nothing_in_nothing_out() {
    let mut results: Vec<ResultRecord> = Vec::new();
    remove_duplicate_dates(&mut results);
    assert!(results.is_empty());
}

#[test]
fn a_single_record_stays() {
    let mut results = vec![record("a", 2025, 7, 15)];
    remove_duplicate_dates(&mut results);
    assert_eq!(results, vec![record("a", 2025, 7, 15)]);
}

#[test]
fn date_order_is_strict() {
    let a = PickupDate { year: 2025, month: 7, day: 15 };
    let b = PickupDate { year: 2025, month: 7, day: 16 };
    assert!(a.is_before(&b));
    assert!(!b.is_before(&a));
    assert!(!a.is_before(&a));
    assert!(a.same_day(&a));
    assert!(!a.same_day(&b));
}
