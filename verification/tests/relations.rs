use rodash::{
    difference, difference_all, index_of, initial, intersect, intersect_all, pull, pull_all, tail,
    uniq, Difference, Intersect, Uniq,
};

#[test]
fn difference_keeps_order_and_repetitions() {
    assert_eq!(difference(&[3, 1, 3, 2, 1, 4], &[1, 5], None), [3, 3, 2, 4]);
    assert_eq!(difference(&[3, 1, 3, 2, 1, 4], &[5, 1, 1], Some(false)), [3, 3, 2, 4]);
    assert_eq!(difference(&[7, 7, 7], &[7], None), []);
}

#[test]
fn difference_takes_empty_collections() {
    assert_eq!(difference::<i32>(&[], &[1, 2], None), []);
    assert_eq!(difference::<i32>(&[], &[1, 2], Some(true)), []);
    assert_eq!(difference(&[2, 1, 2], &[], None), [2, 1, 2]);
    assert_eq!(difference(&[2, 1, 2], &[], Some(true)), [2, 1, 2]);
    assert_eq!(difference::<i32>(&[], &[], None), []);
}

#[test]
fn difference_is_the_same_with_and_without_the_flag_on_sorted_values() {
    let array = [9, -3, 4, 4, 0, 12, 7, 100, -3, 5];
    let mut sorted: Vec<i32> = Vec::new();
    for size in 0..12 {
        for flag in [None, Some(false)] {
            assert_eq!(
                difference(&array, &sorted, Some(true)),
                difference(&array, &sorted, flag)
            );
        }
        sorted.push(size * 2 - 4);
    }
    assert_eq!(
        difference(&array, &[0, 4, 4, 5, 9], Some(true)),
        [-3, 12, 7, 100, -3]
    );
}

#[test]
fn searching_by_halving_finds_exactly_what_is_there() {
    for size in 0..10 {
        let sorted: Vec<i32> = (0..size).map(|k| 3 * k).collect();
        for value in -2..32 {
            let kept = difference(&[value], &sorted, Some(true));
            if sorted.contains(&value) {
                assert_eq!(kept, []);
            } else {
                assert_eq!(kept, [value]);
            }
        }
    }
}

#[test]
fn searching_by_halving_takes_repeated_values() {
    let sorted = [1, 1, 1, 2, 2, 5, 5, 5, 5];
    assert_eq!(difference(&[0, 1, 2, 3, 4, 5, 6], &sorted, Some(true)), [0, 3, 4, 6]);
}

#[test]
fn difference_all_is_the_difference_from_all_the_items() {
    let array = [5, 1, 8, 1, 3, 2, 13];
    let others: Vec<&[i32]> = vec![&[1, 2], &[], &[3, 3], &[8]];
    let flat = [1, 2, 3, 3, 8];
    for flag in [None, Some(false), Some(true)] {
        assert_eq!(
            difference_all(&array, others.clone(), flag),
            difference(&array, &flat, flag)
        );
    }
    assert_eq!(difference_all(&array, others, None), [5, 13]);
}

#[test]
fn difference_all_with_nothing_to_exclude_keeps_everything() {
    assert_eq!(difference_all(&[2, 1, 2], vec![], None), [2, 1, 2]);
    assert_eq!(difference_all(&[2, 1, 2], vec![&[], &[]], Some(true)), [2, 1, 2]);
    assert_eq!(difference_all::<i32>(&[], vec![&[1], &[2]], None), []);
}

#[test]
fn intersect_holds_each_common_value_once() {
    let result = intersect(&[2, 1, 2, 3, 3, 5], &[3, 2, 2, 7]);
    assert_eq!(result, [2, 3]);

    let mut values = result.clone();
    values.sort();
    values.dedup();
    assert_eq!(values.len(), result.len());
    for value in [1, 2, 3, 5, 7] {
        let common = [2, 1, 2, 3, 3, 5].contains(&value) && [3, 2, 2, 7].contains(&value);
        assert_eq!(result.contains(&value), common);
    }
}

#[test]
fn intersect_takes_empty_collections() {
    assert_eq!(intersect::<i32>(&[], &[1, 2]), []);
    assert_eq!(intersect(&[1, 2], &[]), []);
    assert_eq!(intersect::<i32>(&[], &[]), []);
    assert_eq!([1, 2].intersect(&[3, 4]), []);
}

#[test]
fn intersect_all_holds_the_values_that_all_hold() {
    let array = [4, 2, 9, 2, 6, 4, 1];
    let others: Vec<&[i32]> = vec![&[1, 2, 4, 6], &[6, 4, 4, 2, 0], &[2, 6, 8]];
    let result = intersect_all(&array, others.clone());
    assert_eq!(result, [2, 6]);
    for value in 0..10 {
        let in_all = array.contains(&value) && others.iter().all(|other| other.contains(&value));
        assert_eq!(result.contains(&value), in_all);
    }
}

#[test]
fn intersect_all_without_others_is_the_collection_as_it_stands() {
    assert_eq!(intersect_all(&[2, 1, 2], vec![]), [2, 1, 2]);
    assert_eq!(intersect_all::<i32>(&[], vec![]), []);
}

#[test]
fn intersect_all_stays_empty_once_it_is_empty() {
    assert_eq!(intersect_all(&[1, 2, 3], vec![&[4], &[1, 2, 3]]), []);
    assert_eq!(intersect_all(&[1, 2, 3], vec![&[], &[1]]), []);
}

#[test]
fn pull_removes_every_occurrence() {
    let mut array = vec![1, 2, 3, 1, 3];
    pull(&mut array, 3);
    assert_eq!(array, [1, 2, 1]);

    let mut array = vec![4, 4, 4];
    pull(&mut array, 4);
    assert_eq!(array, []);
}

#[test]
fn pull_of_a_value_that_is_not_there_changes_nothing() {
    let mut array = vec![1, 2, 3];
    pull(&mut array, 9);
    assert_eq!(array, [1, 2, 3]);

    let mut array: Vec<i32> = vec![];
    pull(&mut array, 9);
    assert_eq!(array, []);
}

#[test]
fn pull_all_removes_what_the_values_hold() {
    let mut array = vec![1, 2, 3, 1, 3];
    pull_all(&mut array, &[1, 3], None);
    assert_eq!(array, [2]);

    let mut array = vec![1, 2, 3];
    pull_all(&mut array, &[1, 3], Some(true));
    assert_eq!(array, [2]);

    let mut array = vec![5, 1, 5, 2, 8, 1];
    pull_all(&mut array, &[8, 1], Some(false));
    assert_eq!(array, [5, 5, 2]);
}

#[test]
fn pull_all_takes_empty_collections() {
    let mut array = vec![1, 2, 3];
    pull_all(&mut array, &[], None);
    assert_eq!(array, [1, 2, 3]);

    let mut array = vec![1, 2, 3];
    pull_all(&mut array, &[], Some(true));
    assert_eq!(array, [1, 2, 3]);

    let mut array: Vec<i32> = vec![];
    pull_all(&mut array, &[1], None);
    assert_eq!(array, []);
}

#[test]
fn pull_all_moves_values_that_cannot_be_cloned_cheaply() {
    let mut array = vec!["b".to_string(), "a".to_string(), "b".to_string(), "c".to_string()];
    pull_all(&mut array, &["b".to_string()], None);
    assert_eq!(array, ["a".to_string(), "c".to_string()]);
}

#[test]
fn uniq_keeps_the_first_of_each_value() {
    assert_eq!(uniq(&[2, 1, 2]), [2, 1]);
    assert_eq!(uniq(&[3, 3, 3, 1, 3, 1, 2]), [3, 1, 2]);
    assert_eq!(uniq::<i32>(&[]), []);
    assert_eq!([5].uniq(), [5]);
}

#[test]
fn uniq_takes_strings() {
    let words = ["to".to_string(), "be".to_string(), "or".to_string(), "to".to_string()];
    assert_eq!(uniq(&words), ["to".to_string(), "be".to_string(), "or".to_string()]);
}

#[test]
fn index_of_gives_the_first_of_several() {
    assert_eq!(index_of(&[7, 7, 7], &7), Some(0));
    assert_eq!(index_of(&[1, 2, 3, 2], &2), Some(1));
    assert_eq!(index_of(&[1, 2, 3], &3), Some(2));
    assert_eq!(index_of::<i32>(&[], &3), None);
}

#[test]
fn initial_and_tail_take_strings() {
    let words = ["a".to_string(), "b".to_string(), "c".to_string()];
    assert_eq!(initial(&words), ["a".to_string(), "b".to_string()]);
    assert_eq!(tail(&words), ["b".to_string(), "c".to_string()]);
}

#[test]
fn difference_as_a_method_agrees_with_the_function() {
    let array = vec![4, 8, 15, 16, 23, 42];
    assert_eq!(
        array.difference(&[8, 16, 42], Some(true)),
        difference(&array, &[8, 16, 42], Some(true))
    );
    assert_eq!(array.difference(&[8, 16, 42], None), [4, 15, 23]);
}
