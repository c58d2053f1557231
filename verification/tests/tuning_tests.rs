use rust_rocket_sim::mpc_tuning::{plan_from_draws, plan_next_generation, rank_by_score, Offspring};

#[test]
fn ranking_is_stable_ascending() {
    let keys = vec![30, 10, 20, 10, 5];
    assert_eq!(rank_by_score(&keys), vec![4, 1, 3, 2, 0]);
    assert_eq!(rank_by_score(&vec![]), Vec::<usize>::new());
    assert_eq!(rank_by_score(&vec![7, 7, 7]), vec![0, 1, 2]);
}

#[test]
fn ranking_matches_std_stable_sort() {
    let keys: Vec<u64> = (0..200u64).map(|i| (i * 7919 + 13) % 37).collect();
    let mut expected: Vec<usize> = (0..keys.len()).collect();
    expected.sort_by_key(|&i| keys[i]);
    assert_eq!(rank_by_score(&keys), expected);
}

#[test]
fn generation_plan_shape() {
    let keys: Vec<u64> = (0..40u64).rev().collect();
    let ranking = rank_by_score(&keys);
    let mut rng = rand::rng();
    for _ in 0..20 {
        let plan = plan_next_generation(&ranking, 5, 40, &mut rng);
        assert_eq!(plan.len(), 40);
        for i in 0..5 {
            assert_eq!(plan[i], Offspring::Elite(39 - i));
        }
        for child in &plan[5..] {
            match *child {
                // the better half: the candidates with the 20 lowest keys, i.e. indices 20..40
                Offspring::Child { parent1, parent2 } => {
                    assert!(parent1 >= 20 && parent2 >= 20, "{:?}", child);
                }
                Offspring::Elite(_) => panic!("elite after the elites"),
            }
        }
    }
}

#[test]
fn more_elites_than_population() {
    let ranking = rank_by_score(&vec![3, 1, 2]);
    let mut rng = rand::rng();
    let plan = plan_next_generation(&ranking, 3, 2, &mut rng);
    assert_eq!(plan, vec![Offspring::Elite(1), Offspring::Elite(2), Offspring::Elite(0)]);
}

#[test]
fn plan_from_drawn_positions() {
    // ranking: candidate 4 best, then 1, 3, 2, 0
    let ranking = rank_by_score(&vec![30, 10, 20, 10, 5]);
    let plan = plan_from_draws(&ranking, 1, 5, &vec![(0, 1), (1, 1), (1, 0), (0, 0)]);
    assert_eq!(
        plan,
        vec![
            Offspring::Elite(4),
            Offspring::Child { parent1: 4, parent2: 1 },
            Offspring::Child { parent1: 1, parent2: 1 },
            Offspring::Child { parent1: 1, parent2: 4 },
            Offspring::Child { parent1: 4, parent2: 4 },
        ]
    );
}

#[test]
fn plan_without_children() {
    let ranking = rank_by_score(&vec![2, 1]);
    assert_eq!(plan_from_draws(&ranking, 2, 2, &vec![]), vec![Offspring::Elite(1), Offspring::Elite(0)]);
}
