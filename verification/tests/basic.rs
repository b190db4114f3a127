use genref::{
    get_expect_via_read_handle, get_read, get_write, get_via_read_handle, iter_positive_read, iter_positive_write,
    iter_positive_via_read_handle, iter_read, iter_via_read_handle, iter_write, set_all, set_at, set_each, set_positive, set_positive_each, set_prefix,
    slice_refs, write_then_read, MyVec,
};

#[test]
fn lib_basic() {
    let mut x = MyVec(vec![1, 2, 3, 4, 5]);

    assert_eq!(MyVec::get(&x, 2), Some(&3));
    *MyVec::get(&mut x, 2).unwrap() = 4;
    assert_eq!(MyVec::get(&x, 2), Some(&4));
}

#[test]
fn v2_basic() {
    let mut x = MyVec(vec![-1, 2, 3, 4]);

    assert_eq!(MyVec::iter(&x).into_iter().copied().sum::<i32>(), 8);

    assert_eq!(MyVec::iter_positive(&x).into_iter().copied().sum::<i32>(), 9);

    *MyVec::get(&mut x, 1).unwrap() = 3;
    assert_eq!(*MyVec::get_expect(&x, 1), 3);

    MyVec::iter_positive(&mut x).into_iter().for_each(|r| *r = 1);

    assert_eq!(x.0, vec![-1, 1, 1, 1]);
}

#[test]
fn out_of_range_is_absent_under_both_handles() {
    let mut x = MyVec(vec![10, 20, 30, 40]);

    assert_eq!(MyVec::get(&x, 10), None);

    assert_eq!(MyVec::get(&mut x, 10), None);
    assert_eq!(x.0, vec![10, 20, 30, 40]);
}

#[test]
fn write_through_dispatch_is_read_back() {
    let mut x = MyVec(vec![5, 6, 7]);

    assert_eq!(write_then_read(&mut x, 1, 60), Some(60));
    assert_eq!(x.0, vec![5, 60, 7]);

    assert_eq!(write_then_read(&mut x, 9, 1), None);
    assert_eq!(x.0, vec![5, 60, 7]);
}

#[test]
fn read_handle_dispatch_selects_read_branch() {
    let x = MyVec(vec![3, 1]);

    assert_eq!(get_via_read_handle(&x, 0), Some(&3));
    assert_eq!(get_via_read_handle(&x, 1), Some(&1));
    assert_eq!(get_via_read_handle(&x, 2), None);
}

#[test]
fn get_branches_agree_on_the_element() {
    let mut x = MyVec(vec![8, 9]);

    assert_eq!(get_read(&x, 1), Some(&9));
    *get_write(&mut x, 1).unwrap() = 90;
    assert_eq!(get_read(&x, 1), Some(&90));
    assert!(get_write(&mut x, 5).is_none());
    assert_eq!(x.0, vec![8, 90]);
}

#[test]
fn iter_branches_cover_all_elements_in_order() {
    let mut x = MyVec(vec![1, 2, 3]);

    let refs = iter_read(&x);
    assert_eq!(refs.into_iter().copied().collect::<Vec<i32>>(), vec![1, 2, 3]);

    for r in iter_write(&mut x) {
        *r += 10;
    }
    assert_eq!(x.0, vec![11, 12, 13]);
}

#[test]
fn slice_refs_feed_back_into_the_slice() {
    let mut a = [1u8, 2, 3];
    let refs = slice_refs(&mut a[..]);
    assert_eq!(refs.len(), 3);
    for r in refs {
        *r *= 2;
    }
    assert_eq!(a, [2, 4, 6]);
}

#[test]
fn filtered_branches_touch_only_the_selected_elements() {
    let x = MyVec(vec![-5, 0, 7, -1, 2]);
    let kept = iter_positive_read(&x);
    assert_eq!(kept.into_iter().copied().collect::<Vec<i32>>(), vec![0, 7, 2]);

    let mut y = MyVec(vec![-5, 0, 7, -1, 2]);
    for r in iter_positive_write(&mut y) {
        *r = -9;
    }
    assert_eq!(y.0, vec![-5, -9, -9, -1, -9]);
}

#[test]
fn empty_container_yields_nothing() {
    let mut x: MyVec<i32> = MyVec(Vec::new());

    assert_eq!(MyVec::get(&x, 0), None);
    assert!(MyVec::iter(&x).is_empty());
    assert!(MyVec::iter_positive(&mut x).is_empty());
    assert_eq!(x.0, Vec::<i32>::new());
}

#[test]
fn read_handle_sequence_dispatch_sees_every_element() {
    let x = MyVec(vec![4, -2, 9]);

    let all = iter_via_read_handle(&x);
    assert_eq!(all.into_iter().copied().collect::<Vec<i32>>(), vec![4, -2, 9]);

    let kept = iter_positive_via_read_handle(&x);
    assert_eq!(kept.into_iter().copied().collect::<Vec<i32>>(), vec![4, 9]);
}

#[test]
fn exclusive_sequence_dispatch_sets_every_element() {
    let mut x = MyVec(vec![1, 2, 3, 4]);
    set_all(&mut x, 7);
    assert_eq!(x.0, vec![7, 7, 7, 7]);
}

#[test]
fn read_handle_must_succeed_accessor_returns_the_element() {
    let x = MyVec(vec![11, 22, 33]);
    assert_eq!(*get_expect_via_read_handle(&x, 2), 33);
}

#[test]
fn exclusive_single_dispatch_sets_the_element() {
    let mut x = MyVec(vec![9, 8, 7]);
    set_at(&mut x, 2, 70);
    assert_eq!(x.0, vec![9, 8, 70]);
}

#[test]
fn exclusive_filtered_dispatch_sets_only_the_selected_elements() {
    let mut x = MyVec(vec![-1, 2, 3, 4]);
    set_positive(&mut x, 1);
    assert_eq!(x.0, vec![-1, 1, 1, 1]);
}

#[test]
fn exclusive_sequence_dispatch_takes_each_written_value() {
    let mut x = MyVec(vec![1, 2, 3]);
    set_each(&mut x, &vec![10, 20, 30]);
    assert_eq!(x.0, vec![10, 20, 30]);
}

#[test]
fn exclusive_filtered_dispatch_takes_each_written_value() {
    let mut x = MyVec(vec![-1, 3, 3, 4]);
    set_positive_each(&mut x, &vec![7, 8, 9]);
    assert_eq!(x.0, vec![-1, 7, 8, 9]);
}

#[test]
fn unwritten_references_leave_their_elements_unchanged() {
    let mut x = MyVec(vec![1, 2, 3, 4]);
    set_prefix(&mut x, 2, 9);
    assert_eq!(x.0, vec![9, 9, 3, 4]);
}
