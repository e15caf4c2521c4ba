use aris_core::zipper_vec::ZipperVec;

#[test]
fn test_zippervec_pop() {
    let a = ZipperVec::from_vec((0usize..10).into_iter().collect());
    let pop_spec = |i: usize| -> (Option<usize>, Vec<usize>) {
        (
            Some(a.iter()[i]),
            a.iter()
                .iter()
                .enumerate()
                .filter_map(|(j, y)| if i == j { None } else { Some(*y) })
                .collect::<Vec<_>>(),
        )
    };
    for i in 0..10 {
        for j in 0..10 {
            let mut b = a.clone();
            b.move_cursor(i);
            assert_eq!(b.cursor_pos(), i);
            let x = b.pop(j);
            let (y, z) = pop_spec(j);
            assert_eq!(x, y);
            assert_eq!(b.iter(), z);
        }
    }
}

#[test]
fn test_new_is_empty() {
    let z: ZipperVec<usize> = ZipperVec::new();
    assert_eq!(z.len(), 0);
    assert_eq!(z.cursor_pos(), 0);
    assert_eq!(z.iter(), Vec::<usize>::new());
}

#[test]
fn test_from_vec_cursor_at_end() {
    let z = ZipperVec::from_vec(vec![4usize, 5, 6]);
    assert_eq!(z.len(), 3);
    assert_eq!(z.cursor_pos(), 3);
    assert_eq!(z.iter(), vec![4, 5, 6]);
}

#[test]
fn test_move_cursor_keeps_order() {
    // Relocating the cursor anywhere in [0, len] never reorders elements.
    let a = ZipperVec::from_vec(vec![1usize, 2, 3, 4, 5]);
    for t in 0..=5usize {
        let mut b = a.clone();
        b.move_cursor(t);
        assert_eq!(b.cursor_pos(), t);
        assert_eq!(b.iter(), vec![1, 2, 3, 4, 5]);
    }
}

#[test]
fn test_move_cursor_out_of_range_is_noop() {
    let mut z = ZipperVec::from_vec(vec![1usize, 2, 3]);
    z.move_cursor(1);
    z.move_cursor(7);
    assert_eq!(z.cursor_pos(), 1);
    assert_eq!(z.iter(), vec![1, 2, 3]);
}

#[test]
fn test_inc_dec_cursor() {
    let mut z = ZipperVec::from_vec(vec![1usize, 2]);
    z.dec_cursor();
    assert_eq!(z.cursor_pos(), 1);
    z.dec_cursor();
    assert_eq!(z.cursor_pos(), 0);
    z.dec_cursor();
    assert_eq!(z.cursor_pos(), 0);
    z.inc_cursor();
    assert_eq!(z.cursor_pos(), 1);
    z.inc_cursor();
    z.inc_cursor();
    assert_eq!(z.cursor_pos(), 2);
    assert_eq!(z.iter(), vec![1, 2]);
}

#[test]
fn test_push_appends_regardless_of_cursor() {
    let mut z = ZipperVec::from_vec(vec![1usize, 2, 3]);
    z.move_cursor(1);
    z.push(9);
    assert_eq!(z.iter(), vec![1, 2, 3, 9]);
    assert_eq!(z.cursor_pos(), 4);
}

#[test]
fn test_push_front_prepends_regardless_of_cursor() {
    let mut z = ZipperVec::from_vec(vec![1usize, 2, 3]);
    z.move_cursor(2);
    z.push_front(9);
    assert_eq!(z.iter(), vec![9, 1, 2, 3]);
    assert_eq!(z.cursor_pos(), 1);
}

#[test]
fn test_get_reads_without_moving() {
    let mut z = ZipperVec::from_vec(vec![10usize, 11, 12, 13]);
    z.move_cursor(2);
    for i in 0..4usize {
        assert_eq!(z.get(i), Some(&(10 + i)));
    }
    assert_eq!(z.get(4), None);
    assert_eq!(z.cursor_pos(), 2);
}

#[test]
fn test_pop_out_of_range() {
    let mut z = ZipperVec::from_vec(vec![1usize, 2]);
    assert_eq!(z.pop(2), None);
    assert_eq!(z.iter(), vec![1, 2]);
}

#[test]
fn test_insert_relative_after_and_before() {
    let mut z = ZipperVec::from_vec(vec![1usize, 2, 3]);
    z.insert_relative(9, &2, true);
    assert_eq!(z.iter(), vec![1, 2, 9, 3]);

    let mut z = ZipperVec::from_vec(vec![1usize, 2, 3]);
    z.insert_relative(9, &2, false);
    assert_eq!(z.iter(), vec![1, 9, 2, 3]);
}

#[test]
fn test_insert_relative_first_occurrence() {
    let mut z = ZipperVec::from_vec(vec![2usize, 1, 2, 3]);
    z.insert_relative(9, &2, true);
    assert_eq!(z.iter(), vec![2, 9, 1, 2, 3]);
}

#[test]
fn test_insert_relative_empty_and_absent() {
    let mut z: ZipperVec<usize> = ZipperVec::new();
    z.insert_relative(7, &3, true);
    assert_eq!(z.iter(), vec![7]);

    let mut z = ZipperVec::from_vec(vec![1usize, 2]);
    z.insert_relative(7, &5, false);
    assert_eq!(z.iter(), vec![1, 2, 7]);
}
