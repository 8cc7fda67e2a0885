use switchyard::creation::{check_affinities, validate_allocations};
use switchyard::error::SwitchyardCreationError;
use switchyard::threads::{one_to_one, single_thread, thread_info, two_to_one, ThreadAllocationInput};

#[test]
fn unpinned_threads_are_valid() {
    assert_eq!(check_affinities(&single_thread(None, None), 1), Ok(()));
    assert_eq!(validate_allocations(&single_thread(None, None)).map(|n| n >= 1), Ok(true));
}

#[test]
fn one_to_one_fits_its_machine() {
    let input = ThreadAllocationInput { physical: 4, logical: 8 };
    assert_eq!(check_affinities(&one_to_one(input.clone(), None), 8), Ok(()));
    assert_eq!(check_affinities(&two_to_one(input, None), 8), Ok(()));
    assert!(validate_allocations(&one_to_one(thread_info(), None)).is_ok());
}

#[test]
fn first_invalid_affinity_is_reported() {
    let input = ThreadAllocationInput { physical: 4, logical: 8 };
    assert_eq!(
        check_affinities(&one_to_one(input, None), 5),
        Err(SwitchyardCreationError::InvalidAffinity { affinity: 5, total_threads: 5 })
    );
    // the affinity equal to the core count is already out of range
    assert_eq!(
        check_affinities(&single_thread(None, Some(2)), 2),
        Err(SwitchyardCreationError::InvalidAffinity { affinity: 2, total_threads: 2 })
    );
    assert_eq!(check_affinities(&single_thread(None, Some(1)), 2), Ok(()));
}

#[test]
fn insane_affinity_is_refused() {
    let result = validate_allocations(&single_thread(None, Some(usize::MAX)));
    match result {
        Err(SwitchyardCreationError::InvalidAffinity { affinity, total_threads }) => {
            assert_eq!(affinity, usize::MAX);
            assert_eq!(total_threads, thread_info().logical);
        }
        Ok(_) => panic!("an affinity of usize::MAX was accepted"),
    }
}

#[test]
fn error_message() {
    let e = SwitchyardCreationError::InvalidAffinity { affinity: 18446744073709551615, total_threads: 4 };
    assert_eq!(
        e.message(),
        "Requested affinity 18446744073709551615 which is greater than total logical core count 4"
    );
    let e = SwitchyardCreationError::InvalidAffinity { affinity: 0, total_threads: 10 };
    assert_eq!(e.message(), "Requested affinity 0 which is greater than total logical core count 10");
}
