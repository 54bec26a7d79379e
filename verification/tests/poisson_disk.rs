use kanoko::point_set::poisson_disk::{Index, Sampler};

/// A small generator with a fixed seed, so that a run can be repeated.
struct Lcg(u64);

impl Lcg {
    fn next(&mut self) -> u64 {
        self.0 = self.0.wrapping_mul(6364136223846793005).wrapping_add(1442695040888963407);
        self.0 >> 11
    }

    fn unit(&mut self) -> f64 {
        self.next() as f64 / (1u64 << 53) as f64
    }
}

fn cell_of(point: (f64, f64), cell_size: f64) -> Index {
    Index { x: (point.0 / cell_size).floor() as u16, y: (point.1 / cell_size).floor() as u16 }
}

fn dist(a: (f64, f64), b: (f64, f64)) -> f64 {
    ((a.0 - b.0).powi(2) + (a.1 - b.1).powi(2)).sqrt()
}

/// Runs the sampling with candidates drawn here and the bookkeeping done by
/// the sampler.
fn sample(size: (f64, f64), r: f64, k: u16, seed: u64, pick_at_random: bool) -> (Sampler, Vec<(f64, f64)>) {
    let cell_size = r / std::f64::consts::SQRT_2;
    let mut rng = Lcg(seed);
    let init = (rng.unit() * size.0, rng.unit() * size.1);
    let mut points = vec![init];
    let mut sampler = Sampler::new(k, cell_of(init, cell_size));
    loop {
        let around = if pick_at_random {
            sampler.next_probe()
        } else {
            sampler.next_probe_with(rng.next() as usize)
        };
        let around = match around {
            Some(around) => around,
            None => break,
        };
        let center = points[around];
        let radius = r + rng.unit() * r;
        let phi = rng.unit() * std::f64::consts::TAU;
        let candidate = (center.0 + radius * phi.cos(), center.1 + radius * phi.sin());
        let in_bounds = (0.0..size.0).contains(&candidate.0) && (0.0..size.1).contains(&candidate.1);
        let cell = cell_of(candidate, cell_size);
        if in_bounds && sampler.neighbours(cell).iter().all(|&number| r <= dist(candidate, points[number])) {
            assert_eq!(sampler.accept(cell), Some(points.len()));
            points.push(candidate);
        } else {
            sampler.reject();
        }
    }
    (sampler, points)
}

fn check_blue_noise(size: (f64, f64), r: f64, sampler: &Sampler, points: &[(f64, f64)]) {
    let cells = sampler.index_iter();
    assert_eq!(sampler.placed(), points.len());
    assert_eq!(cells.len(), points.len());
    let placed: Vec<(f64, f64)> =
        cells.iter().map(|&cell| points[sampler.point_at(cell).unwrap()]).collect();
    for (i, a) in placed.iter().enumerate() {
        assert!(0.0 <= a.0 && a.0 < size.0 && 0.0 <= a.1 && a.1 < size.1);
        for b in &placed[i + 1..] {
            assert!(r <= dist(*a, *b));
        }
    }
}

#[test]
fn placed_points_keep_their_distance() {
    for seed in 0..20 {
        let size = (200.0, 120.0);
        let r = 7.0 + seed as f64;
        let (sampler, points) = sample(size, r, 30, seed, false);
        assert!(points.len() > 1);
        check_blue_noise(size, r, &sampler, &points);
    }
}

#[test]
fn placed_points_keep_their_distance_with_random_picks() {
    for seed in 0..5 {
        let size = (300.0, 300.0);
        let r = 15.0;
        let (sampler, points) = sample(size, r, 30, 1000 + seed, true);
        assert!(points.len() > 1);
        check_blue_noise(size, r, &sampler, &points);
    }
}

#[test]
fn the_rectangle_is_filled() {
    // No room is left for a circle of radius r around a point that keeps
    // clear of all placed points: with thirty tries it is all but sure that
    // the cells are mostly taken.
    let size = (100.0, 100.0);
    let r = 5.0;
    let (_, points) = sample(size, r, 30, 7, false);
    let most = (size.0 / r) * (size.1 / r) * 2.0 / 3.0_f64.sqrt();
    assert!(points.len() as f64 <= most * 1.2);
    assert!(points.len() as f64 >= most * 0.4);
}

#[test]
fn a_run_starts_with_the_seed_point() {
    let seed = Index { x: 3, y: 4 };
    let sampler = Sampler::new(30, seed);
    assert_eq!(sampler.placed(), 1);
    assert_eq!(sampler.point_at(seed), Some(0));
    assert_eq!(sampler.point_at(Index { x: 4, y: 3 }), None);
    assert_eq!(sampler.index_iter(), vec![seed]);
    assert_eq!(sampler.neighbours(seed), vec![0]);
}

#[test]
fn a_point_is_tried_until_its_tries_are_used_up() {
    let mut sampler = Sampler::new(3, Index { x: 0, y: 0 });
    assert_eq!(sampler.next_probe_with(0), Some(0));
    sampler.reject();
    assert_eq!(sampler.next_probe_with(0), Some(0));
    sampler.reject();
    assert_eq!(sampler.next_probe_with(0), Some(0));
    sampler.reject();
    assert_eq!(sampler.next_probe_with(0), None);
    assert_eq!(sampler.next_probe_with(5), None);
    assert_eq!(sampler.placed(), 1);
}

#[test]
fn asking_again_does_not_use_up_a_try() {
    let mut sampler = Sampler::new(1, Index { x: 0, y: 0 });
    for pick in 0..10 {
        assert_eq!(sampler.next_probe_with(pick), Some(0));
    }
    sampler.reject();
    assert_eq!(sampler.next_probe_with(0), None);
}

#[test]
fn without_tries_only_the_seed_is_placed() {
    let mut sampler = Sampler::new(0, Index { x: 9, y: 9 });
    assert_eq!(sampler.next_probe_with(0), None);
    assert_eq!(sampler.next_probe(), None);
    assert_eq!(sampler.index_iter(), vec![Index { x: 9, y: 9 }]);
    let mut sampler = Sampler::new(0, Index { x: 9, y: 9 });
    assert_eq!(sampler.next_probe(), None);
}

#[test]
fn an_accepted_candidate_becomes_active_and_ends_the_trying() {
    let mut sampler = Sampler::new(2, Index { x: 5, y: 5 });
    assert_eq!(sampler.next_probe_with(0), Some(0));
    assert_eq!(sampler.accept(Index { x: 7, y: 5 }), Some(1));
    assert_eq!(sampler.placed(), 2);
    // Both are active now: the pick decides, modulo their number.
    assert_eq!(sampler.next_probe_with(1), Some(1));
    sampler.reject();
    sampler.reject();
    // Point 1 was given up; point 0 is the only one left, with all its tries.
    assert_eq!(sampler.next_probe_with(1), Some(0));
    sampler.reject();
    assert_eq!(sampler.next_probe_with(1), Some(0));
    sampler.reject();
    assert_eq!(sampler.next_probe_with(0), None);
}

#[test]
fn the_pick_wraps_around_the_active_points() {
    let mut sampler = Sampler::new(1, Index { x: 5, y: 5 });
    assert_eq!(sampler.next_probe_with(0), Some(0));
    assert_eq!(sampler.accept(Index { x: 8, y: 5 }), Some(1));
    assert_eq!(sampler.next_probe_with(0), Some(0));
    assert_eq!(sampler.accept(Index { x: 5, y: 8 }), Some(2));
    assert_eq!(sampler.next_probe_with(7), Some(1));
    sampler.reject();
    // The last active point took the place of the one given up.
    assert_eq!(sampler.next_probe_with(1), Some(2));
    sampler.reject();
    assert_eq!(sampler.next_probe_with(usize::MAX), Some(0));
    sampler.reject();
    assert_eq!(sampler.next_probe_with(0), None);
}

#[test]
fn nothing_is_recorded_while_no_point_is_tried() {
    let mut sampler = Sampler::new(2, Index { x: 1, y: 1 });
    assert_eq!(sampler.accept(Index { x: 4, y: 4 }), None);
    sampler.reject();
    assert_eq!(sampler.placed(), 1);
    assert_eq!(sampler.point_at(Index { x: 4, y: 4 }), None);
    assert_eq!(sampler.next_probe_with(0), Some(0));
}

#[test]
fn neighbours_are_the_points_at_most_two_cells_away() {
    let mut sampler = Sampler::new(30, Index { x: 10, y: 10 });
    let others = [(12, 10), (13, 10), (10, 8), (8, 12), (10, 13), (7, 10)];
    for (number, &(x, y)) in others.iter().enumerate() {
        assert_eq!(sampler.next_probe_with(0), Some(0));
        assert_eq!(sampler.accept(Index { x, y }), Some(number + 1));
    }
    // Column by column, from the top: (8, 12), (10, 8), (10, 10), (12, 10).
    assert_eq!(sampler.neighbours(Index { x: 10, y: 10 }), vec![4, 3, 0, 1]);
    assert_eq!(sampler.neighbours(Index { x: 11, y: 10 }), vec![3, 0, 1, 2]);
    assert_eq!(sampler.neighbours(Index { x: 10, y: 15 }), vec![5]);
    assert!(sampler.neighbours(Index { x: 20, y: 20 }).is_empty());
}

#[test]
fn the_block_is_cut_off_at_the_edges() {
    let mut sampler = Sampler::new(30, Index { x: 0, y: 0 });
    for (number, &(x, y)) in [(2, 2), (3, 0), (65535, 65535), (65533, 65534), (65532, 65535)]
        .iter()
        .enumerate()
    {
        assert_eq!(sampler.next_probe_with(0), Some(0));
        assert_eq!(sampler.accept(Index { x, y }), Some(number + 1));
    }
    assert_eq!(sampler.neighbours(Index { x: 0, y: 0 }), vec![0, 1]);
    assert_eq!(sampler.neighbours(Index { x: 1, y: 0 }), vec![0, 1, 2]);
    assert_eq!(sampler.neighbours(Index { x: 65535, y: 65535 }), vec![4, 3]);
    assert_eq!(sampler.neighbours(Index { x: 65534, y: 65535 }), vec![5, 4, 3]);
    assert_eq!(sampler.neighbours(Index { x: 0, y: 65535 }), vec![]);
}

#[test]
fn a_later_point_takes_the_cell() {
    let cell = Index { x: 6, y: 6 };
    let mut sampler = Sampler::new(30, Index { x: 4, y: 4 });
    assert_eq!(sampler.next_probe_with(0), Some(0));
    assert_eq!(sampler.accept(cell), Some(1));
    assert_eq!(sampler.next_probe_with(0), Some(0));
    assert_eq!(sampler.accept(cell), Some(2));
    assert_eq!(sampler.placed(), 3);
    assert_eq!(sampler.point_at(cell), Some(2));
    assert_eq!(sampler.index_iter(), vec![Index { x: 4, y: 4 }, cell]);
    assert_eq!(sampler.neighbours(Index { x: 5, y: 5 }), vec![0, 2]);
}

#[test]
fn indices_come_in_the_order_of_placing() {
    let mut sampler = Sampler::new(30, Index { x: 50, y: 50 });
    let cells = [(40, 40), (60, 40), (40, 60), (1, 2), (2, 1)];
    for &(x, y) in &cells {
        assert_eq!(sampler.next_probe_with(0), Some(0));
        sampler.accept(Index { x, y });
    }
    let mut expected = vec![Index { x: 50, y: 50 }];
    expected.extend(cells.iter().map(|&(x, y)| Index { x, y }));
    assert_eq!(sampler.index_iter(), expected);
    for (number, &cell) in expected.iter().enumerate() {
        assert_eq!(sampler.point_at(cell), Some(number));
    }
}

#[test]
fn random_picks_reach_every_active_point() {
    let mut picked = [false; 3];
    for _ in 0..400 {
        let mut sampler = Sampler::new(5, Index { x: 5, y: 5 });
        assert_eq!(sampler.next_probe(), Some(0));
        assert_eq!(sampler.accept(Index { x: 8, y: 5 }), Some(1));
        assert_eq!(sampler.next_probe_with(0), Some(0));
        assert_eq!(sampler.accept(Index { x: 5, y: 8 }), Some(2));
        let around = sampler.next_probe().unwrap();
        assert!(around < 3);
        picked[around] = true;
        // The same point is tried until it is accepted or given up.
        assert_eq!(sampler.next_probe(), Some(around));
    }
    assert_eq!(picked, [true, true, true]);
}

#[test]
fn a_copy_of_a_sampler_goes_its_own_way() {
    let mut sampler = Sampler::new(1, Index { x: 5, y: 5 });
    let mut copy = sampler.clone();
    assert_eq!(sampler.next_probe_with(0), Some(0));
    assert_eq!(sampler.accept(Index { x: 8, y: 5 }), Some(1));
    assert_eq!(copy.placed(), 1);
    assert_eq!(copy.next_probe_with(0), Some(0));
    copy.reject();
    assert_eq!(copy.next_probe_with(0), None);
    assert_eq!(sampler.placed(), 2);
}
