use judge_harness::partition::split_in_packs;

fn numbers(n: usize) -> Vec<usize> {
    (0..n).collect()
}

fn sizes(packs: &[Vec<usize>]) -> Vec<usize> {
    packs.iter().map(|pack| pack.len()).collect()
}

#[test]
fn five_tests_for_two_workers_make_packs_of_three_and_two() {
    let packs = split_in_packs(numbers(5), 2);
    assert_eq!(packs, vec![vec![0, 1, 2], vec![3, 4]]);
    assert_eq!(sizes(&packs), vec![3, 2]);
    assert_eq!(packs.len(), 2);
}

#[test]
fn an_empty_catalog_makes_no_pack() {
    let packs = split_in_packs(Vec::<usize>::new(), 10);
    assert!(packs.is_empty());
    let packs = split_in_packs(Vec::<usize>::new(), 0);
    assert!(packs.is_empty());
}

#[test]
fn a_limit_of_zero_workers_is_read_as_one() {
    let packs = split_in_packs(numbers(4), 0);
    assert_eq!(packs, vec![vec![0, 1, 2, 3]]);
    assert_eq!(packs, split_in_packs(numbers(4), 1));
}

#[test]
fn fewer_tests_than_workers_make_one_pack_for_each_test() {
    let packs = split_in_packs(numbers(3), 10);
    assert_eq!(packs, vec![vec![0], vec![1], vec![2]]);
}

#[test]
fn an_uneven_split_leaves_the_last_pack_short() {
    let packs = split_in_packs(numbers(10), 4);
    assert_eq!(sizes(&packs), vec![3, 3, 3, 1]);
    assert_eq!(packs[3], vec![9]);
}

#[test]
fn rounding_up_can_leave_workers_without_a_pack() {
    let packs = split_in_packs(numbers(9), 4);
    assert_eq!(sizes(&packs), vec![3, 3, 3]);
    let packs = split_in_packs(numbers(6), 4);
    assert_eq!(sizes(&packs), vec![2, 2, 2]);
}

#[test]
fn an_even_split_fills_every_pack() {
    let packs = split_in_packs(numbers(12), 4);
    assert_eq!(sizes(&packs), vec![3, 3, 3, 3]);
}

#[test]
fn the_packs_joined_are_the_catalog() {
    for n in 0..60 {
        for workers in 0..14 {
            let catalog = numbers(n);
            let packs = split_in_packs(catalog.clone(), workers);
            let joined: Vec<usize> = packs.iter().flatten().copied().collect();
            assert_eq!(joined, catalog, "n = {n}, workers = {workers}");
            let most = if workers == 0 { 1 } else { workers };
            assert!(packs.len() <= most, "n = {n}, workers = {workers}");
            let capacity = (n + most - 1) / most;
            for (i, pack) in packs.iter().enumerate() {
                assert!(!pack.is_empty());
                if i + 1 < packs.len() {
                    assert_eq!(pack.len(), capacity);
                } else {
                    assert!(pack.len() <= capacity);
                }
            }
        }
    }
}

#[test]
fn partitioning_twice_gives_the_same_packs() {
    for n in [0, 1, 5, 17, 100] {
        for workers in [1, 2, 3, 10] {
            let first = split_in_packs(numbers(n), workers);
            let second = split_in_packs(numbers(n), workers);
            assert_eq!(first, second);
        }
    }
}

#[test]
fn where_the_packs_are_cut_depends_on_the_count_alone() {
    let letters: Vec<String> = (0..7).map(|i| format!("case{i}")).collect();
    let packs_of_letters = split_in_packs(letters, 3);
    let packs_of_numbers = split_in_packs(numbers(7), 3);
    let letter_sizes: Vec<usize> = packs_of_letters.iter().map(|p| p.len()).collect();
    assert_eq!(letter_sizes, sizes(&packs_of_numbers));
    assert_eq!(letter_sizes, vec![3, 3, 1]);
    assert_eq!(packs_of_letters[2], vec!["case6".to_string()]);
}

#[test]
fn the_capacity_is_exact_for_a_large_catalog() {
    let n = (1usize << 24) + 1;
    let packs = split_in_packs(vec![0u8; n], 1);
    assert_eq!(packs.len(), 1);
    assert_eq!(packs[0].len(), n);
    let packs = split_in_packs(vec![0u8; n], 2);
    let lengths: Vec<usize> = packs.iter().map(|p| p.len()).collect();
    assert_eq!(lengths, vec![(1usize << 23) + 1, 1usize << 23]);
}
