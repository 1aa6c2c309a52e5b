use rodash::{
    difference, difference_all, index_of, initial, intersect, intersect_all, pull, pull_all,
    sample, shuffle, tail, uniq, Difference, DifferenceAll, IndexOf, Initial, Intersect,
    IntersectAll, Pull, PullAll, Sample, Shuffle, Tail, Uniq,
};

#[test]
fn can_return_difference_of_two_arrays() {
    let result = difference(&[2, 1], &[2, 3], None);
    assert_eq!(result, [1]);

    assert_eq!(vec![2, 1].difference(&[2, 3], None), [1]);

    assert_eq!([2, 1].difference(&[2, 3], None), [1]);
}

#[test]
fn can_return_difference_of_two_sorted_arrays() {
    let result = difference(&[2, 1], &[2, 3, 4, 5], Some(true));
    assert_eq!(result, [1]);

    assert_eq!(vec![2, 1].difference(&[2, 3, 4, 5], Some(true)), [1]);

    assert_eq!([2, 1].difference(&[2, 3, 4, 5], Some(true)), [1]);
}

#[test]
fn can_return_difference_of_multiple_arrays() {
    let result = difference_all(&[2, 1, 2, 3], vec![&[3, 4], &[3, 2]], None);
    assert_eq!(result, [1]);

    assert_eq!(
        vec![2, 1, 2, 3].difference_all(vec![&[3, 4], &[3, 2]], None),
        [1]
    );

    assert_eq!(
        [2, 1, 2, 3].difference_all(vec![&[3, 4], &[3, 2]], None),
        [1]
    );
}

#[test]
fn can_return_difference_of_multiple_sorted_arrays() {
    let result = difference_all(&[2, 1, 2, 3], vec![&[3, 4, 5], &[2, 3, 4]], Some(true));
    assert_eq!(result, [1]);

    assert_eq!(
        vec![2, 1, 2, 3].difference_all(vec![&[3, 4, 5], &[2, 3, 4]], Some(true)),
        [1]
    );

    assert_eq!(
        [2, 1, 2, 3].difference_all(vec![&[3, 4, 5], &[2, 3, 4]], Some(true)),
        [1]
    );
}

#[test]
fn can_return_the_index_of_first_matched_element() {
    assert_eq!(index_of(&[1, 2, 3, 1, 2, 3], &3), Some(2));
    assert_eq!(vec![1, 2, 3, 1, 2, 3].index_of(&3), Some(2));
    assert_eq!([1, 2, 3, 1, 2, 3].index_of(&3), Some(2));
}

#[test]
fn can_handle_unmatched_elements() {
    assert_eq!(index_of(&[1, 2, 3, 1, 2, 3], &10), None);
    assert_eq!(vec![1, 2, 3, 1, 2, 3].index_of(&10), None);
    assert_eq!([1, 2, 3, 1, 2, 3].index_of(&10), None);
}

#[test]
fn can_exclude_the_last_element() {
    assert_eq!(initial(&[1, 2, 3]), [1, 2]);
    assert_eq!(initial(&[1, 2]), [1]);
    assert_eq!(initial(&[1]), []);

    assert_eq!(vec![1, 2, 3].initial(), [1, 2]);
    assert_eq!(vec![1, 2].initial(), [1]);
    assert_eq!(vec![1].initial(), []);

    assert_eq!([1, 2, 3].initial(), [1, 2]);
    assert_eq!([1, 2].initial(), [1]);
    assert_eq!([1].initial(), []);
}

#[test]
fn initial_can_handle_empty_arrays() {
    assert_eq!(initial::<char>(&[]), []);
    assert_eq!(
        {
            let array: Vec<char> = vec![];
            array
        }
        .initial(),
        []
    );
    assert_eq!(
        {
            let array: [char; 0] = [];
            array
        }
        .initial(),
        []
    );
}

#[test]
fn can_return_intersection_of_two_arrays() {
    let result = intersect(&[2, 1], &[2, 3]);
    assert_eq!(result, [2]);

    assert_eq!(vec![2, 1].intersect(&[2, 3],), [2]);

    assert_eq!([2, 1].intersect(&[2, 3],), [2]);
}

#[test]
fn can_return_intersection_of_multiple_arrays() {
    let result = intersect_all(&[2, 1, 2, 3], vec![&[3, 4], &[3, 2]]);
    assert_eq!(result, [3]);

    assert_eq!(vec![2, 1, 2, 3].intersect_all(vec![&[3, 4], &[3, 2]],), [3]);

    assert_eq!([2, 1, 2, 3].intersect_all(vec![&[3, 4], &[3, 2]],), [3]);
}

#[test]
fn can_pull_a_value_from_an_array() {
    let mut array = vec![1, 2, 3, 1, 3];
    pull(&mut array, 1);
    assert_eq!(array, [2, 3, 3]);

    let mut array = vec![1, 2, 3, 1, 3];
    array.pull(1);
    assert_eq!(array, [2, 3, 3]);
}

#[test]
fn can_pull_values_from_an_array() {
    let mut array = vec![1, 2, 3, 1, 3];
    pull_all(&mut array, &[1, 3], None);
    assert_eq!(array, [2]);

    let mut array = vec![1, 2, 3, 1, 3];
    array.pull_all(&[1, 3], None);
    assert_eq!(array, [2]);
}

#[test]
fn can_pull_sorted_values_from_an_array() {
    let mut array = vec![1, 2, 3];
    pull_all(&mut array, &[1, 3], Some(true));
    assert_eq!(array, [2]);

    let mut array = vec![1, 2, 3];
    array.pull_all(&[1, 3], Some(true));
    assert_eq!(array, [2]);
}

#[test]
fn can_return_a_random_element() {
    let array = vec![1, 2, 3];
    assert!(array.contains(sample(&array).unwrap()));

    assert!(array.contains(array.sample().unwrap()));

    assert!([1, 2, 3].contains([1, 2, 3].sample().unwrap()));
}

#[test]
fn sample_can_handle_empty_arrays() {
    assert_eq!(sample::<char>(&[]), None);
    assert_eq!(
        {
            let array: Vec<char> = vec![];
            array
        }
        .sample(),
        None
    );
    assert_eq!(
        {
            let array: [char; 0] = [];
            array
        }
        .sample(),
        None
    );
}

#[test]
fn can_shuffle_an_array() {
    assert_eq!(shuffle(&[1, 2, 3, 4]).len(), 4);

    assert_eq!(vec![1, 2, 3, 4].shuffle().len(), 4);

    assert_eq!([1, 2, 3, 4].shuffle().len(), 4);
}

#[test]
fn can_exclude_the_first_element() {
    assert_eq!(tail(&[1, 2, 3]), [2, 3]);
    assert_eq!(tail(&[1, 2]), [2]);
    assert_eq!(tail(&[1]), []);

    assert_eq!(vec![1, 2, 3].tail(), [2, 3]);
    assert_eq!(vec![1, 2].tail(), [2]);
    assert_eq!(vec![1].tail(), []);

    assert_eq!([1, 2, 3].tail(), [2, 3]);
    assert_eq!([1, 2].tail(), [2]);
    assert_eq!([1].tail(), []);
}

#[test]
fn tail_can_handle_empty_arrays() {
    assert_eq!(tail::<char>(&[]), []);
    assert_eq!(
        {
            let array: Vec<char> = vec![];
            array
        }
        .tail(),
        []
    );
    assert_eq!(
        {
            let array: [char; 0] = [];
            array
        }
        .tail(),
        []
    );
}

#[test]
fn can_return_unique_values_of_an_unsorted_array() {
    assert_eq!(uniq(&[2, 1, 2]), [2, 1]);
    assert_eq!(vec![2, 1, 2].uniq(), [2, 1]);
    assert_eq!([2, 1, 2].uniq(), [2, 1]);
}

#[test]
fn can_return_unique_values_of_a_sorted_array() {
    assert_eq!(uniq(&[1, 2, 2]), [1, 2]);
    assert_eq!(vec![1, 2, 2].uniq(), [1, 2]);
    assert_eq!([1, 2, 2].uniq(), [1, 2]);
}
