use mahf::problems::coco::suits::toy::{self, ToyFunction};
use mahf::problems::objective::{check_objective_values, pareto_order, Comparison, ValueKind};
use mahf::problems::IllegalObjective;

fn compare(a: f64, b: f64) -> Comparison {
    if a < b {
        Comparison::Less
    } else if a > b {
        Comparison::Greater
    } else {
        Comparison::Equal
    }
}

/// The Pareto order of two objective vectors, from the comparisons of their values.
fn pareto(a: &[f64], b: &[f64]) -> Option<Comparison> {
    let comparisons: Vec<Comparison> = if a.len() == b.len() {
        a.iter().zip(b).map(|(x, y)| compare(*x, *y)).collect()
    } else {
        Vec::new()
    };
    pareto_order(a.len(), b.len(), &comparisons)
}

fn kind(value: f64) -> ValueKind {
    if value.is_nan() {
        ValueKind::NaN
    } else if value.is_infinite() && value.is_sign_negative() {
        ValueKind::NegativeInfinity
    } else {
        ValueKind::Legal
    }
}

fn check(values: &[f64]) -> Result<(), IllegalObjective> {
    let kinds: Vec<ValueKind> = values.iter().map(|v| kind(*v)).collect();
    check_objective_values(&kinds)
}

#[test]
fn partial_ord_implements_pareto_domination() {
    let a = [0., 0.];
    let b = [1., 1.];
    let c = [1., 0.];
    let d = [0., 1.];

    // All are equal to self.
    assert_eq!(pareto(&a, &a), Some(Comparison::Equal));
    assert_eq!(pareto(&b, &b), Some(Comparison::Equal));
    assert_eq!(pareto(&c, &c), Some(Comparison::Equal));
    assert_eq!(pareto(&d, &d), Some(Comparison::Equal));

    // `a` dominates `b`, `c`, and `d`.
    assert_eq!(pareto(&a, &b), Some(Comparison::Less));
    assert_eq!(pareto(&a, &c), Some(Comparison::Less));
    assert_eq!(pareto(&a, &d), Some(Comparison::Less));

    // `b` is dominated by `a`, `c`, and `d`.
    assert_eq!(pareto(&b, &a), Some(Comparison::Greater));
    assert_eq!(pareto(&b, &c), Some(Comparison::Greater));
    assert_eq!(pareto(&b, &d), Some(Comparison::Greater));

    // `c` is dominated by `a`, dominates `b` and incomparable with `d`.
    assert_eq!(pareto(&c, &a), Some(Comparison::Greater));
    assert_eq!(pareto(&c, &b), Some(Comparison::Less));
    assert_eq!(pareto(&c, &d), None);

    // `d` is dominated by `a`, dominates `b` and incomparable with `c`.
    assert_eq!(pareto(&d, &a), Some(Comparison::Greater));
    assert_eq!(pareto(&d, &b), Some(Comparison::Less));
    assert_eq!(pareto(&d, &c), None);
}

#[test]
fn pareto_of_different_lengths_is_incomparable() {
    assert_eq!(pareto(&[0.], &[0., 0.]), None);
    assert_eq!(pareto(&[], &[]), Some(Comparison::Equal));
}

#[test]
fn multi_try_from_invalid_is_err() {
    assert!(check(&[f64::NAN, 0.]).is_err());
    assert!(check(&[f64::NAN, f64::NEG_INFINITY]).is_err());

    assert!(check(&[f64::NEG_INFINITY, 0.]).is_err());
    assert!(check(&[f64::NEG_INFINITY, f64::NEG_INFINITY]).is_err());
}

#[test]
fn single_try_from_invalid_is_err() {
    assert!(check(&[f64::NAN]).is_err());
    assert!(check(&[f64::NEG_INFINITY]).is_err());
}

#[test]
fn nan_is_reported_before_negative_infinity() {
    assert_eq!(check(&[f64::NEG_INFINITY, f64::NAN]), Err(IllegalObjective::NaN));
    assert_eq!(check(&[1.0, f64::NEG_INFINITY]), Err(IllegalObjective::NegativeInfinity));
    assert_eq!(check(&[1.0, f64::INFINITY, -3.0]), Ok(()));
    assert_eq!(check(&[]), Ok(()));
}

#[test]
fn toy_suite_functions_and_generator() {
    let mut suite = toy::new();
    assert_eq!(suite.functions(), &[1, 2, 3, 4, 5, 6]);
    assert_eq!(suite.instances(), &[1]);
    assert_eq!(suite.total_instances(), 36);
    assert_eq!(suite.next_instance(), Some((1, 1, 2)));
    assert_eq!(suite.next_instance(), Some((2, 1, 2)));
    let chosen = toy::generator(6, 1, 40);
    assert_eq!(chosen.problem, ToyFunction::Rosenbrock);
    assert_eq!((chosen.function, chosen.instance, chosen.dimension), (6, 1, 40));
    assert_eq!(toy::generator(4, 1, 2).problem, ToyFunction::BuecheRastrigin);
}

#[test]
fn swapping_vectors_swaps_domination() {
    let pairs: [(&[f64], &[f64]); 4] = [
        (&[0., 0.], &[1., 1.]),
        (&[1., 0.], &[0., 1.]),
        (&[2., 2.], &[2., 2.]),
        (&[3., 1.], &[3., 2.]),
    ];
    for (a, b) in pairs {
        let forward = pareto(a, b);
        let backward = pareto(b, a);
        let flipped = match forward {
            Some(Comparison::Less) => Some(Comparison::Greater),
            Some(Comparison::Greater) => Some(Comparison::Less),
            other => other,
        };
        assert_eq!(backward, flipped);
    }
}
