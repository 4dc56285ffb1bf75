use xauusd_fetcher::turbo::{scheme_guid, TurboGuard, HIGH_PERFORMANCE_SCHEME};
use xauusd_fetcher::volume::{bucket_total, fill_buckets, point_of_control, value_area, ValueArea};

#[test]
fn entries_land_in_their_bucket_clamped_to_the_last() {
    let b = fill_buckets(3, &vec![(0, 2), (1, 5), (7, 1), (2, 4), (0, 1)]);
    assert_eq!(b, vec![3, 5, 5]);
    assert_eq!(bucket_total(&b), 13);
    assert_eq!(fill_buckets(2, &vec![]), vec![0, 0]);
}

#[test]
fn point_of_control_is_the_last_largest_bucket() {
    assert_eq!(point_of_control(&vec![1, 3, 5, 2, 4]), 2);
    assert_eq!(point_of_control(&vec![4, 1, 4]), 2);
    assert_eq!(point_of_control(&vec![7]), 0);
}

#[test]
fn value_area_grows_toward_the_larger_neighbour() {
    assert_eq!(value_area(&vec![1, 3, 5, 2, 4], 10), ValueArea { poc: 2, lo: 1, hi: 3 });
    assert_eq!(value_area(&vec![4, 1, 4], 9), ValueArea { poc: 2, lo: 0, hi: 2 });
    assert_eq!(value_area(&vec![1, 3, 5, 2, 4], 5), ValueArea { poc: 2, lo: 2, hi: 2 });
    assert_eq!(value_area(&vec![1, 1], 100), ValueArea { poc: 1, lo: 0, hi: 1 });
    assert_eq!(value_area(&vec![2, 2, 2], 4), ValueArea { poc: 2, lo: 1, hi: 2 });
}

#[test]
fn scheme_guid_is_the_first_guid_word() {
    let out = "Power Scheme GUID: 381b4222-f694-41f0-9685-ff5bb260df2e  (Balanced)\r\n";
    assert_eq!(scheme_guid(out).as_deref(), Some("381b4222-f694-41f0-9685-ff5bb260df2e"));
    assert_eq!(scheme_guid("no guid here"), None);
    assert_eq!(scheme_guid(""), None);
    let two = "x 000000000000000000000000000000000000 a-b-c-d-e-f-g-h-i-j-k-l-m-n-o-p-q-rs 8c5e7fda-e8bf-4a96-9a85-a6e23a8c635c";
    assert_eq!(scheme_guid(two).as_deref(), Some("a-b-c-d-e-f-g-h-i-j-k-l-m-n-o-p-q-rs"));
    assert_eq!(scheme_guid(HIGH_PERFORMANCE_SCHEME).as_deref(), Some(HIGH_PERFORMANCE_SCHEME));
    assert_eq!(scheme_guid("\u{e9}aaaaaaaaaaaaaaaaaaaaaaaaaaaaaaaa-b"), Some("\u{e9}aaaaaaaaaaaaaaaaaaaaaaaaaaaaaaaa-b".to_string()));
}

#[test]
fn turbo_guard_remembers_the_scheme_to_restore() {
    let g = TurboGuard::engage(Some("Power Scheme GUID: 381b4222-f694-41f0-9685-ff5bb260df2e  (Balanced)".to_string()));
    assert_eq!(g.scheme_to_restore().as_deref(), Some("381b4222-f694-41f0-9685-ff5bb260df2e"));
    assert_eq!(TurboGuard::engage(None).scheme_to_restore(), None);
    assert_eq!(TurboGuard::engage(Some("garbled".to_string())).scheme_to_restore(), None);
}
