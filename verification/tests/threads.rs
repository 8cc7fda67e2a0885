use switchyard::threads::{one_to_one, single_thread, thread_info, two_to_one, ThreadAllocationInput, ThreadAllocationOutput};

#[test]
fn single_thread_configuration() {
    let out = single_thread(Some("worker".to_string()), Some(3));
    assert_eq!(
        out,
        vec![ThreadAllocationOutput { name: Some("worker".to_string()), ident: 0, stack_size: None, affinity: Some(3) }]
    );
    let out = single_thread(None, None);
    assert_eq!(out.len(), 1);
    assert_eq!(out[0].name, None);
    assert_eq!(out[0].affinity, None);
}

#[test]
fn one_to_one_configuration() {
    let out = one_to_one(ThreadAllocationInput { physical: 2, logical: 4 }, Some("yard"));
    assert_eq!(out.len(), 4);
    for (idx, alloc) in out.iter().enumerate() {
        assert_eq!(alloc.ident, idx);
        assert_eq!(alloc.affinity, Some(idx));
        assert_eq!(alloc.stack_size, None);
        assert_eq!(alloc.name.as_deref(), Some("yard"));
    }
}

#[test]
fn one_to_one_without_cores() {
    let out = one_to_one(ThreadAllocationInput { physical: 0, logical: 0 }, None);
    assert!(out.is_empty());
}

#[test]
fn two_to_one_configuration() {
    let out = two_to_one(ThreadAllocationInput { physical: 2, logical: 3 }, None);
    assert_eq!(out.len(), 6);
    let affinities: Vec<Option<usize>> = out.iter().map(|a| a.affinity).collect();
    assert_eq!(affinities, vec![Some(0), Some(0), Some(1), Some(1), Some(2), Some(2)]);
    let idents: Vec<usize> = out.iter().map(|a| a.ident).collect();
    assert_eq!(idents, vec![0, 1, 2, 3, 4, 5]);
    assert!(out.iter().all(|a| a.name.is_none() && a.stack_size.is_none()));
}

#[test]
fn machine_has_cores() {
    let info = thread_info();
    assert!(info.logical >= 1);
    assert!(info.physical >= 1);
}
