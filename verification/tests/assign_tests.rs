use usb_station::service::assign::{greedy_pairing, known_sized_items, smart_assign_pairs, sort_by_size};

#[test]
fn sort_is_largest_first_and_stable() {
    let items = vec![(1u128, 5u64), (2, 9), (3, 5), (4, 1), (5, 9)];
    let sorted = sort_by_size(&items);
    assert_eq!(sorted, vec![(2, 9), (5, 9), (1, 5), (3, 5), (4, 1)]);
}

#[test]
fn largest_images_go_to_largest_devices() {
    let images = vec![(1u128, 5u64), (2, 1), (3, 20)];
    let devices = vec![(10u128, 10u64), (11, 2), (12, 3)];
    let pairs = smart_assign_pairs(&images, &devices);
    assert_eq!(pairs, vec![((1, 5), (10, 10)), ((2, 1), (12, 3))]);
}

#[test]
fn device_must_be_strictly_larger() {
    let pairs = smart_assign_pairs(&vec![(1, 8)], &vec![(10, 8)]);
    assert!(pairs.is_empty());
    let pairs = smart_assign_pairs(&vec![(1, 8)], &vec![(10, 9)]);
    assert_eq!(pairs, vec![((1, 8), (10, 9))]);
}

#[test]
fn each_device_used_once() {
    let pairs = greedy_pairing(&vec![(1, 1), (2, 1), (3, 1)], &vec![(10, 5), (11, 5)]);
    assert_eq!(pairs, vec![((1, 1), (10, 5)), ((2, 1), (11, 5))]);
}

#[test]
fn unknown_items_are_left_out() {
    let items = known_sized_items(&vec![1, 2, 3], &vec![Some(4), None, Some(6)]);
    assert_eq!(items, vec![(1, 4), (3, 6)]);
}
