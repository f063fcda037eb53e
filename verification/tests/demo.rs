use webworker::{describe_sort, requested_values, sort, sort_vec, VecType};

#[test]
fn sort_orders_bytes() {
    let v: Box<[u8]> = vec![5, 3, 9, 3, 0, 255].into_boxed_slice();
    assert_eq!(&*sort(v), &[0, 3, 3, 5, 9, 255]);
    let empty: Box<[u8]> = Vec::new().into_boxed_slice();
    assert_eq!(sort(empty).len(), 0);
}

#[test]
fn sort_of_sorted_is_unchanged() {
    let v: Box<[u8]> = vec![1, 2, 2, 8].into_boxed_slice();
    assert_eq!(&*sort(v), &[1, 2, 2, 8]);
}

#[test]
fn sort_vec_orders_bytes() {
    let r = sort_vec(VecType(vec![4, 1, 3, 1]));
    assert_eq!(r.0, vec![1, 1, 3, 4]);
}

#[test]
fn sort_agrees_with_std_sort() {
    let mut v: Vec<u8> = (0..200u32).map(|i| ((i * 7919) % 256) as u8).collect();
    let r = sort_vec(VecType(v.clone()));
    v.sort();
    assert_eq!(r.0, v);
}

#[test]
fn requested_values_defaults_to_one() {
    assert_eq!(requested_values("12"), 12);
    assert_eq!(requested_values(""), 1);
    assert_eq!(requested_values("ten"), 1);
    assert_eq!(requested_values("0"), 0);
}

#[test]
fn describe_sort_formats_both_lists() {
    let values = vec![3u8, 1, 2];
    let sorted = vec![1u8, 2, 3];
    assert_eq!(describe_sort(&values, &sorted), format!("{:?} -> {:?}", values, sorted));
    assert_eq!(describe_sort(&[], &[]), "[] -> []");
}
