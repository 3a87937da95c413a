use gta5_script_decompiler::common::bubble_sort::try_bubble_sort_by;
use std::cmp::Ordering;

fn cmp_i32(a: &i32, b: &i32) -> Result<Ordering, ()> {
    Ok(a.cmp(b))
}

#[test]
fn sorted_input_stays() {
    let mut data = vec![1, 2, 3];
    assert_eq!(try_bubble_sort_by(&mut data, cmp_i32), Ok(()));
    assert_eq!(data, vec![1, 2, 3]);
}

#[test]
fn last_pair_is_ordered_after_sorting() {
    let mut data = vec![3, 1];
    assert_eq!(try_bubble_sort_by(&mut data, cmp_i32), Ok(()));
    assert_eq!(data, vec![1, 3]);
}

#[test]
fn a_failing_comparison_stops_the_sort() {
    let mut data = vec![2, 1, 3];
    let r = try_bubble_sort_by(&mut data, |_: &i32, _: &i32| -> Result<Ordering, &str> { Err("no") });
    assert_eq!(r, Err("no"));
    assert_eq!(data, vec![2, 1, 3]);
}

#[test]
fn sorting_keeps_the_values() {
    let mut data = vec![5, 3, 4, 1];
    assert_eq!(try_bubble_sort_by(&mut data, cmp_i32), Ok(()));
    let mut sorted = data.clone();
    sorted.sort();
    assert_eq!(sorted, vec![1, 3, 4, 5]);
    assert!(data[data.len() - 2] <= data[data.len() - 1]);
}

#[test]
fn passes_stop_once_the_last_pair_stays() {
    let mut data = vec![3, 2, 1, 4];
    assert_eq!(try_bubble_sort_by(&mut data, cmp_i32), Ok(()));
    assert_eq!(data, vec![2, 1, 3, 4]);
}

#[test]
fn a_second_pass_follows_a_swapped_last_pair() {
    let mut data = vec![5, 3, 4, 1];
    assert_eq!(try_bubble_sort_by(&mut data, cmp_i32), Ok(()));
    assert_eq!(data, vec![3, 1, 4, 5]);
}

#[test]
fn an_error_keeps_the_swaps_made_before_it() {
    let mut data = vec![3, 2, 9];
    let r = try_bubble_sort_by(&mut data, |a: &i32, b: &i32| -> Result<Ordering, &str> {
        if *a == 9 || *b == 9 {
            Err("nine")
        } else {
            Ok(a.cmp(b))
        }
    });
    assert_eq!(r, Err("nine"));
    assert_eq!(data, vec![2, 3, 9]);
}
