use std::collections::{HashMap, HashSet};

use sync_lab::couples::{
    chunk_couples, compute_all_couples, compute_final_result_without_threads, compute_valid_couples, interleaved_couples,
    NUMBERS, N_THREADS,
};
use sync_lab::letter_frequency::{compute_letter_count, create_chunks};

#[test]
fn all_couples_of_repeated_digits() {
    let mut all = Vec::new();
    compute_all_couples(&mut all, "111111", "+-*/");
    assert_eq!(all.len(), 1024);
    assert!(all.iter().all(|(d, o)| d == &vec!['1'; NUMBERS] && o.len() == NUMBERS - 1));
    let distinct: HashSet<&Vec<char>> = all.iter().map(|(_, o)| o).collect();
    assert_eq!(distinct.len(), 1024);
}

#[test]
fn all_couples_keep_each_digit_order_once() {
    let mut all = vec![(vec!['0'], vec![])];
    compute_all_couples(&mut all, "112222", "+");
    assert_eq!(all.len(), 1 + 15);
    assert_eq!(all[0], (vec!['0'], vec![]));
    assert_eq!(all[1], (vec!['1', '1', '2', '2', '2', '2'], vec!['+'; 5]));
    let digits: HashSet<&Vec<char>> = all[1..].iter().map(|(d, _)| d).collect();
    assert_eq!(digits.len(), 15);
}

#[test]
fn valid_couples_are_written_out() {
    let couples = vec![
        (vec!['1', '2', '3'], vec!['+', '-']),
        (vec!['4', '5'], vec!['*', '/']),
        (vec!['7'], vec![]),
    ];
    let mut out = vec!["kept".to_string()];
    compute_valid_couples(&couples, &vec![true, false, true], &mut out);
    assert_eq!(out, vec!["kept".to_string(), "1+2-3".to_string(), "7".to_string()]);
    assert_eq!(compute_final_result_without_threads(&couples, &vec![false, true, false]), vec!["4*5".to_string()]);
    assert!(compute_final_result_without_threads(&couples, &vec![false, false, false]).is_empty());
}

#[test]
fn chunks_split_ascii_evenly() {
    let input = "abcdef".to_string();
    assert_eq!(create_chunks(&input, 3), vec!["ab", "cd", "ef"]);
    assert_eq!(create_chunks(&input, 4), vec!["a", "bc", "d", "ef"]);
    assert!(create_chunks(&input, 0).is_empty());
}

#[test]
fn chunks_cover_non_ascii_input() {
    let input = "héllo wörld".to_string();
    for w in 1..6 {
        let chunks = create_chunks(&input, w);
        assert_eq!(chunks.len(), w);
        assert_eq!(chunks.concat(), input);
    }
    assert_eq!(create_chunks(&"héllo".to_string(), 2), vec!["hél", "lo"]);
}

#[test]
fn letters_are_counted_case_insensitively() {
    let mut counts: HashMap<u32, usize> = HashMap::new();
    compute_letter_count("Hello, World! 42", &mut counts);
    let expected: HashMap<u32, usize> =
        [('h', 1), ('e', 1), ('l', 3), ('o', 2), ('w', 1), ('r', 1), ('d', 1)].iter().map(|&(c, n)| (c as u32, n)).collect();
    assert_eq!(counts, expected);
    compute_letter_count("HH", &mut counts);
    assert_eq!(counts[&('h' as u32)], 3);
}

#[test]
fn non_ascii_uppercase_letters_count_as_lowercase() {
    let mut counts: HashMap<u32, usize> = HashMap::new();
    compute_letter_count("ÉéAa1!", &mut counts);
    let expected: HashMap<u32, usize> = [('é' as u32, 2), ('a' as u32, 2)].into_iter().collect();
    assert_eq!(counts, expected);
    compute_letter_count("ΣσÜ", &mut counts);
    assert_eq!(counts[&('σ' as u32)], 2);
    assert_eq!(counts[&('ü' as u32)], 1);
}

#[test]
fn counting_chunks_in_any_order_counts_the_input() {
    let input = "The quick brown fox, 1 2 3, jumps over the lazy dog".to_string();
    let chunks = create_chunks(&input, 4);
    let mut whole: HashMap<u32, usize> = HashMap::new();
    compute_letter_count(&input, &mut whole);
    let mut reversed: HashMap<u32, usize> = HashMap::new();
    for c in chunks.iter().rev() {
        compute_letter_count(c, &mut reversed);
    }
    assert_eq!(whole, reversed);
}

fn numbered_couples(n: usize) -> Vec<(Vec<char>, Vec<char>)> {
    (0..n).map(|i| (vec![char::from_digit((i % 10) as u32, 10).unwrap()], vec![char::from_digit((i / 10) as u32, 10).unwrap()])).collect()
}

#[test]
fn interleaved_shares_take_every_nth_couple() {
    let all = numbered_couples(10);
    assert_eq!(interleaved_couples(&all, 4, 0), vec![all[0].clone(), all[4].clone(), all[8].clone()]);
    assert_eq!(interleaved_couples(&all, 4, 1), vec![all[1].clone(), all[5].clone(), all[9].clone()]);
    assert_eq!(interleaved_couples(&all, 4, 3), vec![all[3].clone(), all[7].clone()]);
    assert!(interleaved_couples(&numbered_couples(2), 4, 3).is_empty());
    let mut together: Vec<_> = (0..N_THREADS).flat_map(|i| interleaved_couples(&all, N_THREADS, i)).collect();
    together.sort();
    let mut sorted = all.clone();
    sorted.sort();
    assert_eq!(together, sorted);
}

#[test]
fn chunks_of_couples_drop_the_remainder() {
    let all = numbered_couples(10);
    assert_eq!(chunk_couples(&all, 4, 0), vec![all[0].clone(), all[1].clone()]);
    assert_eq!(chunk_couples(&all, 4, 3), vec![all[6].clone(), all[7].clone()]);
    let total: usize = (0..4).map(|i| chunk_couples(&all, 4, i).len()).sum();
    assert_eq!(total, 8);
    assert_eq!(chunk_couples(&all, 1, 0), all);
}

fn expression_couples(n: usize) -> (Vec<(Vec<char>, Vec<char>)>, Vec<bool>) {
    let couples: Vec<(Vec<char>, Vec<char>)> = (0..n)
        .map(|i| (vec![char::from_digit((i % 10) as u32, 10).unwrap(), '1'], vec!['+']))
        .collect();
    let hits: Vec<bool> = (0..n).map(|i| i % 3 != 1).collect();
    (couples, hits)
}

#[test]
fn interleaved_threads_find_what_one_thread_finds() {
    for n in 0..11 {
        let (all, hits) = expression_couples(n);
        let mut together: Vec<String> = Vec::new();
        for i in 0..N_THREADS {
            let share = interleaved_couples(&all, N_THREADS, i);
            let share_hits: Vec<bool> = (0..n).filter(|j| j % N_THREADS == i).map(|j| hits[j]).collect();
            compute_valid_couples(&share, &share_hits, &mut together);
        }
        let mut sequential = compute_final_result_without_threads(&all, &hits);
        together.sort();
        sequential.sort();
        assert_eq!(together, sequential);
    }
}

#[test]
fn chunked_threads_find_what_one_thread_finds_in_order() {
    let (all, hits) = expression_couples(8);
    let mut in_order: Vec<String> = Vec::new();
    for i in 0..4 {
        let chunk = chunk_couples(&all, 4, i);
        compute_valid_couples(&chunk, &hits[2 * i..2 * i + 2].to_vec(), &mut in_order);
    }
    assert_eq!(in_order, compute_final_result_without_threads(&all, &hits));
}
