use diskuto::pagination::{bound, Pagination, Paginator};
use diskuto::time::{TimeSpan, Timestamp};

fn params(before: Option<i64>, after: Option<i64>, count: Option<usize>) -> Pagination {
    Pagination { before, after, count }
}

fn feed(
    paginator: &mut Paginator<
        u64,
        u64,
        String,
        impl Fn(u64) -> Result<u64, String>,
        impl Fn(&u64) -> bool,
    >,
    rows: &[u64],
) -> Result<usize, String> {
    let mut taken = 0;
    for row in rows {
        taken += 1;
        if !paginator.callback(*row)? {
            break;
        }
    }
    Ok(taken)
}

#[test]
fn bound_holds_input_between_the_bounds() {
    assert_eq!(bound(5, 1, 100), 5);
    assert_eq!(bound(0, 1, 100), 1);
    assert_eq!(bound(10_000, 1, 100), 100);
    assert_eq!(bound(1, 1, 100), 1);
    assert_eq!(bound(100, 1, 100), 100);
}

#[test]
fn bound_upper_wins_where_bounds_cross() {
    assert_eq!(bound(5, 10, 3), 3);
    assert_eq!(bound(0, 1, 0), 0);
}

#[test]
fn count_zero_is_treated_as_one() {
    let mut p = Paginator::new(params(None, None, Some(0)), |x: u64| Ok(x), |_: &u64| true);
    let taken = feed(&mut p, &[1, 2, 3]).unwrap();
    assert_eq!(taken, 2);
    assert!(p.has_more);
    assert_eq!(p.into_items(), vec![1]);
}

#[test]
fn count_ten_thousand_is_treated_as_one_hundred() {
    let mut p = Paginator::new(params(None, None, Some(10_000)), |x: u64| Ok(x), |_: &u64| true);
    let rows: Vec<u64> = (0..150).collect();
    let taken = feed(&mut p, &rows).unwrap();
    assert_eq!(taken, 101);
    assert!(p.has_more);
    let items = p.into_items();
    assert_eq!(items.len(), 100);
    assert_eq!(items[0], 0);
    assert_eq!(items[99], 99);
}

#[test]
fn default_count_is_one_hundred() {
    let mut p = Paginator::new(params(None, None, None), |x: u64| Ok(x), |_: &u64| true);
    assert_eq!(p.max_items, 100);
    let rows: Vec<u64> = (0..100).collect();
    feed(&mut p, &rows).unwrap();
    assert!(!p.has_more);
    assert_eq!(p.into_items().len(), 100);
}

#[test]
fn has_more_is_not_set_when_the_rows_end() {
    let mut p = Paginator::new(params(None, None, Some(3)), |x: u64| Ok(x), |_: &u64| true);
    let taken = feed(&mut p, &[7, 8, 9]).unwrap();
    assert_eq!(taken, 3);
    assert!(!p.has_more);
    assert_eq!(p.into_items(), vec![7, 8, 9]);
}

#[test]
fn filtered_rows_take_no_room() {
    let mut p =
        Paginator::new(params(None, None, Some(2)), |x: u64| Ok(x * 10), |x: &u64| *x != 20);
    let taken = feed(&mut p, &[1, 2, 3, 2, 4]).unwrap();
    assert_eq!(taken, 5);
    assert!(p.has_more);
    assert_eq!(p.into_items(), vec![10, 30]);
}

#[test]
fn mapper_error_is_passed_on() {
    let mut p = Paginator::new(
        params(None, None, None),
        |x: u64| if x == 3 { Err("three".to_string()) } else { Ok(x) },
        |_: &u64| true,
    );
    assert_eq!(p.callback(1), Ok(true));
    assert_eq!(p.callback(3), Err("three".to_string()));
    assert_eq!(p.callback(4), Ok(true));
    assert!(!p.has_more);
    assert_eq!(p.into_items(), vec![1, 4]);
}

#[test]
fn max_items_caps_the_page() {
    let mut p = Paginator::new(params(None, None, Some(50)), |x: u64| Ok(x), |_: &u64| true);
    p.max_items = 2;
    let taken = feed(&mut p, &[1, 2, 3]).unwrap();
    assert_eq!(taken, 3);
    assert!(p.has_more);
    assert_eq!(p.into_items(), vec![1, 2]);
}

#[test]
fn before_wins_over_after() {
    let p = Paginator::new(params(Some(10), Some(20), None), |x: u64| Ok::<u64, String>(x), |_: &u64| true);
    let now = Timestamp { unix_utc_ms: 99 };
    assert_eq!(p.time_span(now), TimeSpan::Before(Timestamp { unix_utc_ms: 10 }));
    assert_eq!(p.before(now), Timestamp { unix_utc_ms: 10 });
}

#[test]
fn after_alone_walks_forward() {
    let p = Paginator::new(params(None, Some(20), None), |x: u64| Ok::<u64, String>(x), |_: &u64| true);
    let now = Timestamp { unix_utc_ms: 99 };
    assert_eq!(p.time_span(now), TimeSpan::After(Timestamp { unix_utc_ms: 20 }));
    assert!(!p.time_span(now).is_before());
    assert_eq!(p.before(now), now);
}

#[test]
fn neither_before_nor_after_means_before_now() {
    let p = Paginator::new(params(None, None, None), |x: u64| Ok::<u64, String>(x), |_: &u64| true);
    let now = Timestamp { unix_utc_ms: 99 };
    assert_eq!(p.time_span(now), TimeSpan::Before(now));
    assert!(p.time_span(now).is_before());
    assert_eq!(p.time_span(now).timestamp(), now);
}

#[test]
fn page_walked_forward_is_turned_round() {
    let mut p = Paginator::new(params(None, Some(0), Some(3)), |x: u64| Ok(x), |_: &u64| true);
    feed(&mut p, &[1, 2, 3, 4]).unwrap();
    assert!(p.has_more);
    assert_eq!(p.into_items(), vec![3, 2, 1]);
}

#[test]
fn page_walked_backward_is_left_as_it_is() {
    let mut p = Paginator::new(params(Some(9), Some(0), Some(3)), |x: u64| Ok(x), |_: &u64| true);
    feed(&mut p, &[8, 7, 6]).unwrap();
    assert_eq!(p.into_items(), vec![8, 7, 6]);
}

#[test]
fn getters_hand_out_the_flag_the_parameters_and_the_cap() {
    let mut p = Paginator::new(params(Some(3), None, Some(2)), |x: u64| Ok(x), |_: &u64| true);
    assert!(!p.has_more());
    assert_eq!(p.max_items(), 100);
    assert_eq!(p.params().before, Some(3));
    assert_eq!(p.params().after, None);
    assert_eq!(p.params().count, Some(2));
    p.set_max_items(1);
    assert_eq!(p.max_items(), 1);
    feed(&mut p, &[5, 6]).unwrap();
    assert!(p.has_more());
    assert_eq!(p.into_items(), vec![5]);
}
