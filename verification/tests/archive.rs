use mahf::state::archive::{add_elitists, select_elitists, ElitistArchive};

#[test]
fn select_elitists_takes_the_best_first() {
    let keys = [5, 1, 4, 1, 9];
    let idx = select_elitists(&keys, 3);
    let selected: Vec<u64> = idx.iter().map(|i| keys[*i]).collect();
    assert_eq!(selected, vec![1, 1, 4]);
    assert!(idx.contains(&1) && idx.contains(&3) && idx.contains(&2));
    assert_eq!(select_elitists(&keys, 10).len(), 5);
    assert_eq!(select_elitists(&keys, 0), Vec::<usize>::new());
}

#[test]
fn add_elitists_appends_missing_ones_once() {
    let mut population = vec![3, 4];
    add_elitists(&mut population, &[4, 7, 7, 1]);
    assert_eq!(population, vec![3, 4, 7, 1]);
}

#[test]
fn archive_keeps_clones_of_the_best() {
    let mut archive: ElitistArchive<&str> = ElitistArchive::new();
    archive.state_update(&["c", "a", "b"], &[3, 1, 2], 2);
    assert_eq!(archive.elitists(), &["a", "b"]);
    archive.elitists_mut()[0] = "z";
    assert_eq!(archive.elitists(), &["z", "b"]);
}
