use bsearch::{binary_search, compare_uint, SearchResult};
use std::cell::RefCell;
use std::cmp::Ordering;

const SORTED: [usize; 9] = [2, 3, 5, 7, 11, 13, 17, 19, 23];

/// The index at which `value` would go into `SORTED[lower..=upper]`.
fn insertion_point(value: usize, lower: usize, upper: usize) -> usize {
    let mut point = lower;
    while point <= upper && SORTED[point] < value {
        point += 1;
    }
    point
}

#[test]
fn present_value_is_matched_in_every_range_that_holds_it() {
    for lower in 0..SORTED.len() {
        for upper in lower..SORTED.len() {
            for at in lower..=upper {
                let result = binary_search(&SORTED, &SORTED[at], (lower, upper), compare_uint);
                assert_eq!(result, SearchResult::Match(at));
            }
        }
    }
}

#[test]
fn absent_value_reports_an_index_next_to_its_insertion_point() {
    for lower in 0..SORTED.len() {
        for upper in lower..SORTED.len() {
            for value in 0..25usize {
                if SORTED[lower..=upper].contains(&value) {
                    continue;
                }
                let point = insertion_point(value, lower, upper);
                match binary_search(&SORTED, &value, (lower, upper), compare_uint) {
                    SearchResult::Match(_) => panic!(),
                    SearchResult::NoMatch(index) => {
                        assert!(lower <= index && index <= upper);
                        assert!(index == point || index + 1 == point);
                    }
                }
            }
        }
    }
}

#[test]
fn value_outside_the_range_is_not_matched() {
    // 3 sits at index 1 and 19 at index 7, both outside (2, 6).
    assert_eq!(binary_search(&SORTED, &3, (2, 6), compare_uint), SearchResult::NoMatch(2));
    assert_eq!(binary_search(&SORTED, &19, (2, 6), compare_uint), SearchResult::NoMatch(6));
}

#[test]
fn only_elements_inside_the_range_are_compared() {
    for value in 0..25usize {
        let seen = RefCell::new(Vec::new());
        let recording = |key: &usize, element: &usize| {
            seen.borrow_mut().push(*element);
            key.cmp(element)
        };
        binary_search(&SORTED, &value, (2, 6), recording);
        assert!(!seen.borrow().is_empty());
        for element in seen.borrow().iter() {
            assert!(SORTED[2..=6].contains(element));
        }
    }
}

#[test]
fn no_element_is_compared_twice_and_few_are_compared_at_all() {
    let thousand: Vec<usize> = (0..1000).map(|n| 2 * n).collect();
    for value in [0usize, 1, 998, 999, 1000, 1997, 1998, 1999, 5000] {
        let seen = RefCell::new(Vec::new());
        let recording = |key: &usize, element: &usize| {
            seen.borrow_mut().push(*element);
            key.cmp(element)
        };
        binary_search(&thousand, &value, (0, 999), recording);
        let mut seen = seen.into_inner();
        assert!(seen.len() <= 10);
        let compared = seen.len();
        seen.sort();
        seen.dedup();
        assert_eq!(seen.len(), compared);
    }
}

#[test]
fn first_midpoint_is_the_floor_of_the_mean_of_the_bounds() {
    let seen = RefCell::new(Vec::new());
    let recording = |key: &usize, element: &usize| {
        seen.borrow_mut().push(*element);
        key.cmp(element)
    };
    // (3 + 8) / 2 rounds down to 5, where 13 is stored.
    binary_search(&SORTED, &13, (3, 8), recording);
    assert_eq!(*seen.borrow(), vec![13]);
}

#[test]
fn repeated_search_gives_the_same_outcome() {
    for value in 0..25usize {
        let first = binary_search(&SORTED, &value, (1, 7), compare_uint);
        let second = binary_search(&SORTED, &value, (1, 7), compare_uint);
        assert_eq!(first, second);
    }
}

#[test]
fn unsorted_input_still_ends_inside_the_range() {
    let jumbled: [usize; 6] = [9, 1, 8, 2, 7, 3];
    for value in 0..11usize {
        let index = match binary_search(&jumbled, &value, (1, 4), compare_uint) {
            SearchResult::Match(index) => {
                assert_eq!(jumbled[index], value);
                index
            }
            SearchResult::NoMatch(index) => {
                assert_ne!(jumbled[index], value);
                index
            }
        };
        assert!(1 <= index && index <= 4);
    }
}

#[test]
fn comparator_is_asked_about_the_key_first_and_the_element_second() {
    let reversed = |key: &usize, element: &usize| -> Ordering { element.cmp(key) };
    let descending: [usize; 5] = [70, 50, 10, 4, 1];
    assert_eq!(binary_search(&descending, &4, (0, 4), reversed), SearchResult::Match(3));
    // Examined in turn: index 2 (10), 0 (70), 1 (50).
    assert_eq!(binary_search(&descending, &60, (0, 4), reversed), SearchResult::NoMatch(1));
}
