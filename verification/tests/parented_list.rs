use gta5_script_decompiler::common::parented_list::ParentedList;

#[test]
fn not_mut() {
    let list: ParentedList<'_, i32> = Default::default();
    let _ = list.with_appended(1);
}

#[test]
fn creates_new_node_with_value() {
    let list: ParentedList<'_, i32> = Default::default();
    let new_list = list.with_appended(1);
    assert!(matches!(new_list.last(), Some(node) if node.parent().is_none() && node.value == 1));
}

#[test]
fn iterates_empty() {
    let list: ParentedList<'_, i32> = Default::default();
    assert!(matches!(list.iter().next(), None));
}

#[test]
fn iterates_single_value() {
    let list: ParentedList<'_, i32> = Default::default();
    let list = list.with_appended(1);
    let mut iter = list.iter();
    assert!(matches!(iter.next(), Some(1)));
    assert!(matches!(iter.next(), None));
}

#[test]
fn iterates_multiple_values() {
    let list: ParentedList<'_, i32> = Default::default();
    let list = list.with_appended(1);
    let list = list.with_appended(2);
    let mut iter = list.iter();
    assert!(matches!(iter.next(), Some(2)));
    assert!(matches!(iter.next(), Some(1)));
    assert!(matches!(iter.next(), None));
}

#[test]
fn appending_keeps_the_parent_list() {
    let list: ParentedList<'_, i32> = Default::default();
    let one = list.with_appended(1);
    let two = one.with_appended(2);
    let other = one.with_appended(3);
    let mut iter = one.iter();
    assert!(matches!(iter.next(), Some(1)));
    assert!(matches!(iter.next(), None));
    let mut iter = two.iter();
    assert!(matches!(iter.next(), Some(2)));
    assert!(matches!(iter.next(), Some(1)));
    let mut iter = other.iter();
    assert!(matches!(iter.next(), Some(3)));
    assert!(matches!(iter.next(), Some(1)));
    assert!(matches!(iter.next(), None));
}
