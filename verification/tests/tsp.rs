use mahf::problems::tsp::symmetric::{eq_bytes, greedy_route, lines, parse_opt_file, parse_usize, read_tour, Instances};

fn keys(rows: &[&[u64]]) -> Vec<Vec<u64>> {
    rows.iter().map(|r| r.to_vec()).collect()
}

#[test]
fn greedy_route_takes_nearest_city() {
    let k = keys(&[
        &[0, 5, 1, 9],
        &[5, 0, 2, 3],
        &[1, 2, 0, 7],
        &[9, 3, 7, 0],
    ]);
    assert_eq!(greedy_route(&k), vec![0, 2, 1, 3]);
}

#[test]
fn greedy_route_breaks_ties_by_smallest_city() {
    let k = keys(&[&[0, 4, 4, 4], &[4, 0, 1, 1], &[4, 1, 0, 1], &[4, 1, 1, 0]]);
    assert_eq!(greedy_route(&k), vec![0, 1, 2, 3]);
}

#[test]
fn greedy_route_of_no_or_one_city() {
    assert_eq!(greedy_route(&[]), vec![0]);
    assert_eq!(greedy_route(&keys(&[&[0]])), vec![0]);
}

#[test]
fn lines_split_as_str_lines() {
    for text in [
        "",
        "a",
        "a\n",
        "a\nb",
        "a\r\nb\r\n",
        "foo\nbar\n\r\nbaz\r",
        "\n\n",
        "x\r",
        "\r\n",
    ] {
        let expected: Vec<Vec<u8>> = text.lines().map(|l| l.as_bytes().to_vec()).collect();
        assert_eq!(lines(text.as_bytes()), expected, "lines of {:?}", text);
    }
}

#[test]
fn parse_usize_reads_decimal() {
    assert_eq!(parse_usize(b"0"), 0);
    assert_eq!(parse_usize(b"+17"), 17);
    assert_eq!(parse_usize(b"18446744073709551615"), usize::MAX);
    assert_eq!(parse_usize(b"052"), "052".parse::<usize>().unwrap());
}

#[test]
fn eq_bytes_compares_contents() {
    assert!(eq_bytes(b"-1", b"-1"));
    assert!(!eq_bytes(b"-1", b"-10"));
    assert!(!eq_bytes(b"ab", b"ac"));
}

#[test]
fn opt_file_with_value_and_tour() {
    let text = "NAME : test.opt.tour\nBEST_SOLUTION: 7542\nTYPE : TOUR\nTOUR_SECTION\n1\n3\n2\n-1\nEOF\n";
    let opt = parse_opt_file(text.as_bytes());
    assert_eq!(opt.best_solution, Some(b"7542".to_vec()));
    assert_eq!(opt.solution, Some(vec![0, 2, 1]));
}

#[test]
fn opt_file_with_tour_only() {
    let text = "TOUR_SECTION\r\n4\r\n1\r\n-1\r\n";
    let opt = parse_opt_file(text.as_bytes());
    assert_eq!(opt.best_solution, None);
    assert_eq!(opt.solution, Some(vec![3, 0]));
}

#[test]
fn opt_file_with_value_only() {
    let opt = parse_opt_file(b"BEST_SOLUTION: 12.5\n");
    assert_eq!(opt.best_solution, Some(b"12.5".to_vec()));
    assert_eq!(opt.solution, None);
}

#[test]
fn tour_runs_to_end_without_end_marker() {
    let ls = lines(b"TOUR_SECTION\n2\n1");
    assert_eq!(read_tour(&ls), vec![1, 0]);
    let ls = lines(b"no tour here\n");
    assert_eq!(read_tour(&ls), Vec::<usize>::new());
}

#[test]
fn greedy_route_is_a_valid_permutation() {
    let n = 9;
    let k: Vec<Vec<u64>> = (0..n)
        .map(|a| (0..n).map(|b| ((a * 7 + b * 13) % 5) as u64).collect())
        .collect();
    let route = greedy_route(&k);
    assert_eq!(route.len(), n);
    assert_eq!(route[0], 0);
    assert!(mahf::problems::encoding::valid_permutation(&route));
    assert!(route.iter().all(|c| *c < n));
}

#[test]
fn instances_are_named_as_in_the_tsplib() {
    assert_eq!(Instances::A280.name(), "A280");
    assert_eq!(Instances::BERLIN52.name(), "BERLIN52");
    assert_eq!(Instances::ULYSSES16.name(), "ULYSSES16");
    assert_eq!(Instances::VM1748.name(), "VM1748");
    assert_eq!(format!("{:?}", Instances::KROA100), Instances::KROA100.name());
}
