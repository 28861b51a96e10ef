use zoon_styles::rule_ids::MonotonicIds;

#[test]
fn allocation_appends_at_tail() {
    let mut ids = MonotonicIds::new();
    assert_eq!(ids.add_new_id(), Some((0, 0)));
    assert_eq!(ids.add_new_id(), Some((1, 1)));
    assert_eq!(ids.add_new_id(), Some((2, 2)));
    assert_eq!(ids.len(), 3);
}

#[test]
fn release_middle_shifts_later_rules() {
    let mut ids = MonotonicIds::new();
    let (a, _) = ids.add_new_id().unwrap();
    let (b, _) = ids.add_new_id().unwrap();
    let (c, _) = ids.add_new_id().unwrap();
    assert_eq!(ids.remove_id(b), Some(1));
    assert_eq!(ids.index_of(a), Some(0));
    assert_eq!(ids.index_of(c), Some(1));
    assert_eq!(ids.index_of(b), None);
    let (d, d_index) = ids.add_new_id().unwrap();
    assert_eq!(d_index, 2);
    assert_eq!(ids.index_of(d), Some(2));
    assert!(d > c);
}

#[test]
fn index_is_rank_after_mixed_operations() {
    let mut ids = MonotonicIds::new();
    let mut live: Vec<u32> = Vec::new();
    for step in 0..40u32 {
        if step % 3 == 2 && !live.is_empty() {
            let victim = live[(step as usize * 7) % live.len()];
            let at = live.iter().position(|x| *x == victim).unwrap();
            assert_eq!(ids.remove_id(victim), Some(at));
            live.remove(at);
        } else {
            let (id, index) = ids.add_new_id().unwrap();
            assert_eq!(index, live.len());
            live.push(id);
        }
        for (rank, id) in live.iter().enumerate() {
            assert_eq!(ids.index_of(*id), Some(rank));
        }
    }
}

#[test]
fn release_keeps_relative_order() {
    let mut ids = MonotonicIds::new();
    for _ in 0..6 {
        ids.add_new_id().unwrap();
    }
    ids.remove_id(2).unwrap();
    ids.remove_id(4).unwrap();
    let order: Vec<usize> = [0u32, 1, 3, 5].iter().map(|id| ids.index_of(*id).unwrap()).collect();
    assert_eq!(order, vec![0, 1, 2, 3]);
}

#[test]
fn allocate_then_release_keeps_count() {
    let mut ids = MonotonicIds::new();
    ids.add_new_id().unwrap();
    ids.add_new_id().unwrap();
    let before = ids.len();
    let (id, _) = ids.add_new_id().unwrap();
    assert_eq!(ids.remove_id(id), Some(2));
    assert_eq!(ids.len(), before);
}

#[test]
fn releasing_unknown_id_changes_nothing() {
    let mut ids = MonotonicIds::new();
    ids.add_new_id().unwrap();
    assert_eq!(ids.remove_id(7), None);
    assert_eq!(ids.remove_id(0), Some(0));
    assert_eq!(ids.remove_id(0), None);
    assert_eq!(ids.len(), 0);
    assert_eq!(ids.add_new_id(), Some((1, 0)));
}
