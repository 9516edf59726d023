use mahf::problems::coco::suits::bbob::{
    flatten_ranges, generator, instances_by_year, new, BbobFunction, Years,
};
use mahf::problems::coco::suits::progress::{ProgressStep, SuiteProgress};
use mahf::problems::coco::suits::Suite;

#[test]
fn flatten_ranges_concatenates_inclusive_ranges() {
    assert_eq!(flatten_ranges(&[]), Vec::<usize>::new());
    assert_eq!(flatten_ranges(&[(1, 3), (7, 8)]), vec![1, 2, 3, 7, 8]);
    assert_eq!(flatten_ranges(&[(4, 4)]), vec![4]);
    assert_eq!(flatten_ranges(&[(5, 4), (2, 2)]), vec![2]);
    assert_eq!(
        flatten_ranges(&[(usize::MAX - 1, usize::MAX)]),
        vec![usize::MAX - 1, usize::MAX]
    );
}

#[test]
fn instances_of_each_year() {
    let first: Vec<usize> = (1..=5).collect();
    let mut y2009 = first.clone();
    y2009.extend(1..=5);
    y2009.extend(1..=5);
    assert_eq!(instances_by_year(Years::Y2009), y2009);
    assert_eq!(instances_by_year(Years::Y2010), (1..=15).collect::<Vec<usize>>());
    for (year, start) in [
        (Years::Y2012, 21),
        (Years::Y2013, 31),
        (Years::Y2015, 41),
        (Years::Y2016, 51),
        (Years::Y2017, 61),
        (Years::Y2018, 71),
    ] {
        let mut expected = first.clone();
        expected.extend(start..=start + 9);
        assert_eq!(instances_by_year(year), expected);
    }
}

#[test]
fn years_are_numbered() {
    assert_eq!(Years::Y2009.year(), 2009);
    assert_eq!(Years::Y2018.year(), 2018);
}

#[test]
fn bbob_suite_has_all_functions_and_dimensions() {
    let suite = new(Years::Y2010);
    assert_eq!(suite.functions(), (1..=24).collect::<Vec<usize>>().as_slice());
    assert_eq!(suite.instances().len(), 15);
    assert_eq!(suite.dimensions(), &[2, 3, 5, 10, 20, 40]);
    assert_eq!(suite.total_instances(), 24 * 15 * 6);
}

#[test]
fn suite_visits_instances_fastest_then_functions_then_dimensions() {
    let mut suite = Suite::new(vec![1, 2], vec![7, 8, 9], vec![10, 20]);
    assert_eq!(suite.total_instances(), 12);
    let mut visited = Vec::new();
    while let Some(entry) = suite.next_instance() {
        visited.push(entry);
    }
    assert_eq!(
        visited,
        vec![
            (1, 7, 10),
            (1, 8, 10),
            (1, 9, 10),
            (2, 7, 10),
            (2, 8, 10),
            (2, 9, 10),
            (1, 7, 20),
            (1, 8, 20),
            (1, 9, 20),
            (2, 7, 20),
            (2, 8, 20),
            (2, 9, 20),
        ]
    );
    assert_eq!(suite.next_instance(), None);
}

#[test]
fn empty_suite_visits_nothing() {
    let mut suite = Suite::new(vec![1, 2], vec![], vec![2]);
    assert_eq!(suite.total_instances(), 0);
    assert_eq!(suite.next_instance(), None);
    let mut suite = Suite::new(vec![], vec![1], vec![2]);
    assert_eq!(suite.next_instance(), None);
}

#[test]
fn bbob_suite_visit_count() {
    let mut suite = new(Years::Y2009);
    let mut count = 0;
    while suite.next_instance().is_some() {
        count += 1;
    }
    assert_eq!(count, 24 * 15 * 6);
}

#[test]
fn generator_chooses_function_and_seed() {
    let sphere = generator(1, 1, 10);
    assert_eq!(sphere.problem.function, BbobFunction::Sphere);
    assert_eq!(sphere.problem.rseed, 10001);
    assert_eq!((sphere.function, sphere.instance, sphere.dimension), (1, 1, 10));
    assert_eq!(generator(2, 1, 2).problem.function, BbobFunction::Ellipsoid);
    assert_eq!(generator(3, 1, 2).problem.function, BbobFunction::Rastrigin);
    let brs = generator(4, 1, 5);
    assert_eq!(brs.problem.function, BbobFunction::BuecheRastrigin);
    assert_eq!(brs.problem.rseed, 10003);
    let slope = generator(5, 1, 3);
    assert_eq!(slope.problem.function, BbobFunction::LinearSlope);
    assert_eq!(slope.problem.rseed, 10005);
}

#[test]
fn suite_progress_counts_every_run_until_done() {
    let suite = Suite::new(vec![1, 2], vec![1], vec![2, 3, 5]);
    let mut progress = SuiteProgress::for_suite(&suite, 1);
    assert_eq!(progress.total(), 6);
    assert_eq!(progress.finished(), 0);
    for _ in 0..5 {
        assert!(!progress.is_done());
        assert_eq!(progress.report(true), ProgressStep::Wait);
    }
    assert_eq!(progress.report(true), ProgressStep::Done);
    assert!(progress.is_done());
    assert_eq!(progress.finished(), 6);
    assert_eq!(SuiteProgress::for_suite(&suite, 2).total(), 12);
    assert_eq!(SuiteProgress::for_suite(&suite, 0).total(), 0);
}

#[test]
fn suite_progress_aborts_at_a_failure() {
    let mut progress = SuiteProgress::new(3);
    assert_eq!(progress.report(true), ProgressStep::Wait);
    assert_eq!(progress.report(false), ProgressStep::Abort);
    assert_eq!(progress.finished(), 1);
    assert!(!progress.is_done());
    assert!(SuiteProgress::new(0).is_done());
}
