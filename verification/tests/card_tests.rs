use cards::Card;

#[test]
fn title_round_trip() {
    let mut c = Card::new_card(String::from("first"), -1);
    assert_eq!(c.get_title(), "first");
    c.set_title(String::from("second"));
    assert_eq!(c.get_title(), "second");
}

#[test]
fn title_may_be_empty() {
    let mut c = Card::new_card(String::from(""), 3);
    assert_eq!(c.get_title(), "");
    c.set_title(String::from("named"));
    c.set_title(String::from(""));
    assert_eq!(c.get_title(), "");
}

#[test]
fn fresh_card_id_is_zero() {
    let c = Card::new_card(String::from("anything"), 12);
    assert_eq!(c.get_id(), 0);
}

#[test]
fn parent_round_trip_non_negative() {
    let mut c = Card::new_card(String::from("t"), -1);
    c.set_parent_id(0);
    assert_eq!(c.get_parent_id(), 0);
    c.set_parent_id(42);
    assert_eq!(c.get_parent_id(), 42);
    c.set_parent_id(u32::MAX as i64);
    assert_eq!(c.get_parent_id(), u32::MAX as i64);
}

#[test]
fn parent_negative_reads_back_as_sentinel() {
    let mut c = Card::new_card(String::from("t"), -7);
    assert_eq!(c.get_parent_id(), -1);
    c.set_parent_id(9);
    c.set_parent_id(-2);
    assert_eq!(c.get_parent_id(), -1);
}

#[test]
fn parent_constructor_normalizes_like_setter() {
    let c = Card::new_card(String::from("t"), 17);
    assert_eq!(c.get_parent_id(), 17);
}

#[test]
fn parent_reference_is_reduced_to_identity_space() {
    let mut c = Card::new_card(String::from("t"), -1);
    c.set_parent_id((1i64 << 32) + 5);
    assert_eq!(c.get_parent_id(), 5);
}

#[test]
fn add_child_appends_in_order() {
    let mut c = Card::new_card(String::from("t"), -1);
    assert_eq!(c.get_children(), Vec::<u32>::new());
    c.add_child(3);
    c.add_child(9);
    c.add_child(1);
    assert_eq!(c.get_children(), vec![3, 9, 1]);
}

#[test]
fn add_child_rejects_duplicate() {
    let mut c = Card::new_card(String::from("t"), -1);
    c.add_child(3);
    c.add_child(3);
    assert_eq!(c.get_children(), vec![3]);
}

#[test]
fn add_child_rejects_negative() {
    let mut c = Card::new_card(String::from("t"), -1);
    c.add_child(-1);
    c.add_child(-100);
    assert_eq!(c.get_children(), Vec::<u32>::new());
    c.add_child(4);
    c.add_child(-4);
    assert_eq!(c.get_children(), vec![4]);
}

#[test]
fn remove_child_removes_one_and_keeps_order() {
    let mut c = Card::new_card(String::from("t"), -1);
    c.add_child(1);
    c.add_child(2);
    c.add_child(3);
    c.remove_child(2);
    assert_eq!(c.get_children(), vec![1, 3]);
}

#[test]
fn remove_child_absent_or_negative_is_no_op() {
    let mut c = Card::new_card(String::from("t"), -1);
    c.add_child(1);
    c.add_child(2);
    c.remove_child(5);
    assert_eq!(c.get_children(), vec![1, 2]);
    c.remove_child(-3);
    assert_eq!(c.get_children(), vec![1, 2]);
}

#[test]
fn fresh_card_buckets_default() {
    let a = Card::new_card(String::from(""), -1);
    assert_eq!(a.get_buckets(), vec![String::from("Default")]);
    assert_eq!(a.get_bucket(), "");
    let b = Card::new_card(String::from("another"), 99);
    assert_eq!(b.get_buckets(), vec![String::from("Default")]);
    assert_eq!(b.get_bucket(), "");
}

#[test]
fn add_bucket_appends_and_rejects_duplicate() {
    let mut c = Card::new_card(String::from("t"), -1);
    c.add_bucket(String::from("Doing"));
    assert_eq!(c.get_buckets(), vec![String::from("Default"), String::from("Doing")]);
    c.add_bucket(String::from("Doing"));
    assert_eq!(c.get_buckets(), vec![String::from("Default"), String::from("Doing")]);
}

#[test]
fn set_bucket_stores_name_even_if_unlisted() {
    let mut c = Card::new_card(String::from("t"), -1);
    c.set_bucket(String::from("NotAKnownBucket"));
    assert_eq!(c.get_bucket(), "NotAKnownBucket");
}

#[test]
fn set_bucket_empty_clears_assignment() {
    let mut c = Card::new_card(String::from("t"), -1);
    c.set_bucket(String::from("Doing"));
    assert_eq!(c.get_bucket(), "Doing");
    c.set_bucket(String::from(""));
    assert_eq!(c.get_bucket(), "");
}

#[test]
fn scenario_task_a_without_parent() {
    let c = Card::new_card(String::from("Task A"), -1);
    assert_eq!(c.get_parent_id(), -1);
    assert_eq!(c.get_title(), "Task A");
    assert_eq!(c.get_buckets(), vec![String::from("Default")]);
}

#[test]
fn scenario_duplicate_child_then_new_child() {
    let mut c = Card::new_card(String::from("t"), -1);
    c.add_child(5);
    c.add_child(5);
    c.add_child(7);
    assert_eq!(c.get_children(), vec![5, 7]);
}

#[test]
fn scenario_duplicate_bucket() {
    let mut c = Card::new_card(String::from("t"), -1);
    c.add_bucket(String::from("InProgress"));
    c.add_bucket(String::from("Default"));
    assert_eq!(c.get_buckets(), vec![String::from("Default"), String::from("InProgress")]);
}
