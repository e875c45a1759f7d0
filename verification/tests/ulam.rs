use ulam::Ulam;

/// Pull from the generator as a bounded lazy sequence would: at most
/// `remaining` more values, then `None`.
fn take_next(u: &mut Ulam, remaining: &mut usize) -> Option<(isize, isize)> {
    if *remaining == 0 {
        None
    } else {
        *remaining -= 1;
        Some(u.produce_next())
    }
}

fn chebyshev(c: (isize, isize)) -> isize {
    c.0.abs().max(c.1.abs())
}

#[test]
fn twenty_five() {
    let reference: [(isize, isize); 25] = [
        (0, 0),
        (1, 0),
        (1, 1),
        (0, 1),
        (-1, 1),
        (-1, 0),
        (-1, -1),
        (0, -1),
        (1, -1),
        (2, -1),
        (2, 0),
        (2, 1),
        (2, 2),
        (1, 2),
        (0, 2),
        (-1, 2),
        (-2, 2),
        (-2, 1),
        (-2, 0),
        (-2, -1),
        (-2, -2),
        (-1, -2),
        (0, -2),
        (1, -2),
        (2, -2),
    ];
    let mut ulam = Ulam::new();
    let mut remaining: usize = 25;
    for i in 0..reference.len() {
        assert_eq!(Some(reference[i]), take_next(&mut ulam, &mut remaining));
    }
    assert_eq!(None, take_next(&mut ulam, &mut remaining));
}

#[test]
fn infinite() {
    let count = 10000;
    let mut ulam = Ulam::new();
    let mut produced: usize = 0;
    let mut remaining: usize = count;
    while take_next(&mut ulam, &mut remaining).is_some() {
        produced += 1;
    }
    assert_eq!(count, produced);
}

#[test]
fn ten_thousand_distinct() {
    let mut ulam = Ulam::new();
    let mut seen: Vec<(isize, isize)> = Vec::new();
    for _ in 0..10000 {
        seen.push(ulam.produce_next());
    }
    assert_eq!(10000, seen.len());
    seen.sort();
    for i in 1..seen.len() {
        assert_ne!(seen[i - 1], seen[i]);
    }
}

#[test]
fn ring_zero_to_one_transition() {
    let mut ulam = Ulam::new();
    assert!(ulam.at_ring_end());
    assert_eq!((0, 0), ulam.produce_next());
    assert!(!ulam.at_ring_end());
    assert_eq!((1, 0), ulam.produce_next());
}

#[test]
fn terminal_corner_of_ring_one() {
    let mut ulam = Ulam::new();
    for _ in 0..8 {
        ulam.produce_next();
    }
    assert!(ulam.at_ring_end());
    assert_eq!((1, -1), ulam.produce_next());
    assert!(!ulam.at_ring_end());
    assert_eq!((2, -1), ulam.produce_next());
}

#[test]
fn edge_thresholds() {
    let mut ulam = Ulam::new();
    ulam.produce_next();
    assert_eq!(1, ulam.edge_end(0));
    assert_eq!(3, ulam.edge_end(1));
    assert_eq!(5, ulam.edge_end(2));
    for _ in 0..8 {
        ulam.produce_next();
    }
    assert_eq!(3, ulam.edge_end(0));
    assert_eq!(7, ulam.edge_end(1));
    assert_eq!(11, ulam.edge_end(2));
}

#[test]
fn ring_sizes_and_membership() {
    let mut ulam = Ulam::new();
    assert_eq!(0, chebyshev(ulam.produce_next()));
    for k in 1..=5 {
        for _ in 0..8 * k {
            assert_eq!(k, chebyshev(ulam.produce_next()));
        }
    }
    assert_eq!(6, chebyshev(ulam.produce_next()));
}

#[test]
fn ring_starts() {
    let mut ulam = Ulam::new();
    let mut produced: usize = 0;
    for k in 1..=4 {
        let d: usize = 2 * k - 1;
        while produced < d * d {
            ulam.produce_next();
            produced += 1;
        }
        let first_of_ring = ulam.produce_next();
        produced += 1;
        assert_eq!((k as isize, 1 - k as isize), first_of_ring);
    }
}

#[test]
fn ordering_non_decreasing() {
    let mut ulam = Ulam::new();
    let mut previous = chebyshev(ulam.produce_next());
    for _ in 0..400 {
        let current = chebyshev(ulam.produce_next());
        assert!(previous <= current);
        previous = current;
    }
}

#[test]
fn determinism() {
    let mut left = Ulam::new();
    let mut right = Ulam::new();
    for _ in 0..1000 {
        assert_eq!(left.produce_next(), right.produce_next());
    }
}
