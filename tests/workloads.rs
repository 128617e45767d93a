use harness::sorting::quicksort;
use harness::workloads::{ackermann, benchmark_hashmap, count_primes, fibonacci, parse_and_sum};

#[test]
fn test_ackermann_base_case_m0() {
    assert_eq!(ackermann(0, 0), 1);
    assert_eq!(ackermann(0, 1), 2);
    assert_eq!(ackermann(0, 5), 6);
    assert_eq!(ackermann(0, 100), 101);
}

#[test]
fn test_ackermann_base_case_n0() {
    assert_eq!(ackermann(1, 0), 2);
    assert_eq!(ackermann(2, 0), 3);
    assert_eq!(ackermann(3, 0), 5);
}

#[test]
fn test_ackermann_small_values() {
    assert_eq!(ackermann(1, 1), 3);
    assert_eq!(ackermann(1, 2), 4);
    assert_eq!(ackermann(2, 2), 7);
    assert_eq!(ackermann(2, 3), 9);
}

#[test]
fn test_ackermann_target_workload() {
    // This is our main benchmark workload
    assert_eq!(ackermann(3, 10), 8189);
}

#[test]
fn test_ackermann_additional_m3_values() {
    assert_eq!(ackermann(3, 0), 5);
    assert_eq!(ackermann(3, 1), 13);
    assert_eq!(ackermann(3, 2), 29);
    assert_eq!(ackermann(3, 3), 61);
}

#[test]
fn test_fibonacci_base_cases() {
    assert_eq!(fibonacci(0), 0);
    assert_eq!(fibonacci(1), 1);
}

#[test]
fn test_fibonacci_small_values() {
    assert_eq!(fibonacci(2), 1);
    assert_eq!(fibonacci(3), 2);
    assert_eq!(fibonacci(4), 3);
    assert_eq!(fibonacci(5), 5);
    assert_eq!(fibonacci(6), 8);
    assert_eq!(fibonacci(7), 13);
    assert_eq!(fibonacci(8), 21);
}

#[test]
fn test_fibonacci_medium_values() {
    assert_eq!(fibonacci(10), 55);
    assert_eq!(fibonacci(15), 610);
    assert_eq!(fibonacci(20), 6765);
}

#[test]
fn test_fibonacci_target_workload() {
    // This is our main benchmark workload
    assert_eq!(fibonacci(40), 102_334_155);
}

#[test]
fn test_fibonacci_additional_values() {
    assert_eq!(fibonacci(25), 75025);
    assert_eq!(fibonacci(30), 832040);
    assert_eq!(fibonacci(35), 9227465);
}

#[test]
fn test_hashmap_empty() {
    assert_eq!(benchmark_hashmap(0), 0);
}

#[test]
fn test_hashmap_small() {
    // 0*2 + 1*2 + 2*2 + 3*2 + 4*2 = 0 + 2 + 4 + 6 + 8 = 20
    assert_eq!(benchmark_hashmap(5), 20);
}

#[test]
fn test_hashmap_medium() {
    // Sum of 2*i for i from 0 to 99 = 2 * (0+1+...+99) = 2 * 4950 = 9900
    assert_eq!(benchmark_hashmap(100), 9900);
}

#[test]
fn test_hashmap_target_workload() {
    // Sum of 2*i for i from 0 to 999,999
    // = 2 * (0+1+...+999999) = 2 * n(n-1)/2 = n(n-1)
    // = 1000000 * 999999 = 999,999,000,000
    assert_eq!(benchmark_hashmap(1_000_000), 999_999_000_000);
}

#[test]
fn test_count_primes_edge_cases() {
    assert_eq!(count_primes(0), 0);
    assert_eq!(count_primes(1), 0);
    assert_eq!(count_primes(2), 1); // 2 is prime
}

#[test]
fn test_count_primes_small_values() {
    assert_eq!(count_primes(3), 2); // 2, 3
    assert_eq!(count_primes(5), 3); // 2, 3, 5
    assert_eq!(count_primes(10), 4); // 2, 3, 5, 7
    assert_eq!(count_primes(20), 8); // 2, 3, 5, 7, 11, 13, 17, 19
}

#[test]
fn test_count_primes_medium_values() {
    assert_eq!(count_primes(100), 25);
    assert_eq!(count_primes(1000), 168);
    assert_eq!(count_primes(10_000), 1229);
}

#[test]
fn test_count_primes_target_workload() {
    // This is our main benchmark workload
    assert_eq!(count_primes(1_000_000), 78_498);
}

#[test]
fn test_count_primes_known_values() {
    assert_eq!(count_primes(100_000), 9592);
    assert_eq!(count_primes(500_000), 41_538);
}

#[test]
fn test_quicksort_empty() {
    let mut arr: Vec<i32> = vec![];
    quicksort(&mut arr);
    assert_eq!(arr, vec![]);
}

#[test]
fn test_quicksort_single_element() {
    let mut arr = vec![42];
    quicksort(&mut arr);
    assert_eq!(arr, vec![42]);
}

#[test]
fn test_quicksort_two_elements() {
    let mut arr = vec![2, 1];
    quicksort(&mut arr);
    assert_eq!(arr, vec![1, 2]);

    let mut arr2 = vec![1, 2];
    quicksort(&mut arr2);
    assert_eq!(arr2, vec![1, 2]);
}

#[test]
fn test_quicksort_small_array() {
    let mut arr = vec![5, 2, 8, 1, 9, 3];
    quicksort(&mut arr);
    assert_eq!(arr, vec![1, 2, 3, 5, 8, 9]);
}

#[test]
fn test_quicksort_reversed() {
    let mut arr: Vec<i32> = (0..100).rev().collect();
    quicksort(&mut arr);
    let expected: Vec<i32> = (0..100).collect();
    assert_eq!(arr, expected);
}

#[test]
fn test_quicksort_already_sorted() {
    let mut arr: Vec<i32> = (0..100).collect();
    quicksort(&mut arr);
    let expected: Vec<i32> = (0..100).collect();
    assert_eq!(arr, expected);
}

#[test]
fn test_quicksort_with_duplicates() {
    let mut arr = vec![5, 2, 8, 2, 9, 5, 3, 5];
    quicksort(&mut arr);
    assert_eq!(arr, vec![2, 2, 3, 5, 5, 5, 8, 9]);
}

#[test]
fn test_quicksort_target_workload() {
    // Test with a smaller version of the main workload
    let mut arr: Vec<i32> = (0..10_000).rev().collect();
    quicksort(&mut arr);
    let expected: Vec<i32> = (0..10_000).collect();
    assert_eq!(arr, expected);
}

#[test]
fn test_parse_and_sum_empty() {
    assert_eq!(parse_and_sum(""), 0);
}

#[test]
fn test_parse_and_sum_single() {
    assert_eq!(parse_and_sum("42"), 42);
}

#[test]
fn test_parse_and_sum_multiple() {
    assert_eq!(parse_and_sum("1\n2\n3\n4\n5"), 15);
}

#[test]
fn test_parse_and_sum_with_invalid() {
    assert_eq!(parse_and_sum("1\ninvalid\n3\n4"), 8);
}

#[test]
fn test_parse_and_sum_target_workload() {
    // Sum of 1 to 1,000,000 = n(n+1)/2 = 500,000,500,000
    let input = (1..=1_000_000)
        .map(|i| i.to_string())
        .collect::<Vec<_>>()
        .join("\n");
    assert_eq!(parse_and_sum(&input), 500_000_500_000);
}

#[test]
fn parse_and_sum_line_endings_and_signs() {
    assert_eq!(parse_and_sum("-5\r\n+7\n 3\n"), 2);
    assert_eq!(parse_and_sum("9223372036854775807\n-1"), 9223372036854775806);
    assert_eq!(parse_and_sum("-9223372036854775808"), i64::MIN);
    assert_eq!(parse_and_sum("9223372036854775808\n4"), 4);
    assert_eq!(parse_and_sum("-\n+\n\n"), 0);
}

#[test]
fn quicksort_extremes_and_negatives() {
    let mut arr = vec![i32::MAX, -3, 0, i32::MIN, -3, 7];
    quicksort(&mut arr);
    assert_eq!(arr, vec![i32::MIN, -3, -3, 0, 7, i32::MAX]);
}
