use mahf::state::pso::{best_index, update_bests};

#[test]
fn best_index_is_first_smallest() {
    assert_eq!(best_index(&[4, 2, 7, 2]), 1);
    assert_eq!(best_index(&[9]), 0);
}

#[test]
fn update_bests_replaces_worse_bests() {
    let population = ["p0", "p1", "p2"];
    let keys = [5, 1, 9];
    let mut bests = vec!["b0", "b1", "b2"];
    let mut best_keys = vec![6, 3, 2];
    let mut global = "g";
    let mut global_key = 2;
    update_bests(&population, &keys, &mut bests, &mut best_keys, &mut global, &mut global_key);
    assert_eq!(bests, vec!["p0", "p1", "b2"]);
    assert_eq!(best_keys, vec![5, 1, 2]);
    assert_eq!(global, "p1");
    assert_eq!(global_key, 1);
}

#[test]
fn update_bests_compares_only_common_particles() {
    let mut bests = vec!["b0"];
    let mut best_keys = vec![8];
    let mut global = "g";
    let mut global_key = 0;
    update_bests(&["p0", "p1"], &[1, 0], &mut bests, &mut best_keys, &mut global, &mut global_key);
    assert_eq!(bests, vec!["p0"]);
    assert_eq!(global, "g");
}
