use changepoint::{max_heap_cmp, min_heap_cmp, Heap, Heaps, MaxHeap, MaxHeapItem, MinHeap, MinHeapItem};
use std::cmp::Ordering;

#[test]
fn heap_sort_works_on_min_heap() {
    let mut source_numbers = vec![4, 2, 3, 9, 1];
    let mut sorted_numbers = vec![1, 2, 3, 4, 9];
    let mut result_numbers = Vec::new();
    let mut min_heap: MinHeap<u32> = Heap::new();
    for source_number in source_numbers.drain(..) {
        min_heap.push(source_number.into());
    }
    while let Some(MinHeapItem(result_number)) = min_heap.pop() {
        result_numbers.push(result_number);
    }
    assert_eq!(result_numbers.len(), sorted_numbers.len());
    for (result_number, expected_number) in result_numbers.drain(..).zip(sorted_numbers.drain(..)) {
        assert_eq!(result_number, expected_number);
    }
}

#[test]
fn max_heap_does_reverse_sort() {
    let mut source_numbers = vec![4, 2, 3, 9, 1];
    let mut sorted_numbers = vec![9, 4, 3, 2, 1];
    let mut result_numbers = Vec::new();
    let mut min_heap: MaxHeap<u32> = Heap::new();
    for source_number in source_numbers.drain(..) {
        min_heap.push(source_number.into());
    }
    while let Some(MaxHeapItem(result_number)) = min_heap.pop() {
        result_numbers.push(result_number);
    }
    assert_eq!(result_numbers.len(), sorted_numbers.len());
    for (result_number, expected_number) in result_numbers.drain(..).zip(sorted_numbers.drain(..)) {
        assert_eq!(result_number, expected_number);
    }
}

#[test]
fn heaps_find_the_median() {
    let initial_number: u64 = 1;
    let mut heaps: Heaps<u64> = Heaps::new();
    heaps.add_to_heaps(initial_number);
    assert_eq!(heaps.get_median(), initial_number);
    heaps.add_to_heaps(2);
    heaps.add_to_heaps(3);
    heaps.add_to_heaps(4);
    heaps.add_to_heaps(5);
    heaps.add_to_heaps(6);
    heaps.add_to_heaps(7);
    heaps.add_to_heaps(8);
    assert_eq!(heaps.get_median(), 4);
}

#[test]
fn empty_heap_pops_nothing() {
    let mut heap: MinHeap<u32> = Heap::new();
    assert_eq!(heap.len(), 0);
    assert!(heap.peek().is_none());
    assert!(heap.pop().is_none());
}

#[test]
fn heap_keeps_equal_values() {
    let mut heap: MaxHeap<u32> = Heap::new();
    for v in [3u32, 7, 3, 7, 3] {
        heap.push(MaxHeapItem(v));
    }
    assert_eq!(heap.len(), 5);
    assert_eq!(heap.peek().map(|i| i.0), Some(7));
    let mut out = Vec::new();
    while let Some(MaxHeapItem(v)) = heap.pop() {
        out.push(v);
    }
    assert_eq!(out, vec![7, 7, 3, 3, 3]);
}

#[test]
fn heap_item_comparisons() {
    assert_eq!(min_heap_cmp(&MinHeapItem(1u32), &MinHeapItem(2u32)), Ordering::Greater);
    assert_eq!(min_heap_cmp(&MinHeapItem(2u32), &MinHeapItem(1u32)), Ordering::Less);
    assert_eq!(min_heap_cmp(&MinHeapItem(2u32), &MinHeapItem(2u32)), Ordering::Equal);
    assert_eq!(max_heap_cmp(&MaxHeapItem(1u32), &MaxHeapItem(2u32)), Ordering::Less);
    assert_eq!(max_heap_cmp(&MaxHeapItem(2u32), &MaxHeapItem(1u32)), Ordering::Greater);
}

fn medians_after_each_push(values: &[u64]) -> Vec<u64> {
    let mut heaps: Heaps<u64> = Heaps::new();
    let mut out = Vec::new();
    for v in values {
        heaps.add_to_heaps(*v);
        out.push(heaps.get_median());
    }
    out
}

fn sorted_median(values: &[u64]) -> u64 {
    let mut s = values.to_vec();
    s.sort();
    let h = s.len() / 2;
    if s.len() % 2 == 0 {
        (s[h - 1] + s[h]) / 2
    } else {
        s[h]
    }
}

#[test]
fn median_follows_every_push() {
    assert_eq!(medians_after_each_push(&[5, 1, 3, 8]), vec![5, 3, 3, 4]);
    assert_eq!(medians_after_each_push(&[1, 3]), vec![1, 2]);
    let values = [12u64, 3, 40, 7, 7, 25, 1, 19, 33, 8, 2];
    let medians = medians_after_each_push(&values);
    for k in 1..=values.len() {
        assert_eq!(medians[k - 1], sorted_median(&values[..k]));
    }
    let descending: Vec<u64> = (1..=9).rev().collect();
    let medians = medians_after_each_push(&descending);
    for k in 1..=descending.len() {
        assert_eq!(medians[k - 1], sorted_median(&descending[..k]));
    }
}

#[test]
fn median_of_equal_values() {
    assert_eq!(medians_after_each_push(&[7, 7, 7]), vec![7, 7, 7]);
}

#[test]
fn median_clips_at_the_largest_value() {
    let mut heaps: Heaps<u64> = Heaps::new();
    heaps.add_to_heaps(u64::MAX);
    assert_eq!(heaps.get_median(), u64::MAX);
    heaps.add_to_heaps(u64::MAX);
    assert_eq!(heaps.get_median(), u64::MAX / 2);
}
