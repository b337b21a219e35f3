use fenwick::index::{one_based, zero_based};

fn collect_one_down(mut it: fenwick::index_iter::one_based::Down) -> Vec<usize> {
    let mut v = Vec::new();
    while let Some(x) = it.next() {
        v.push(x);
    }
    v
}

fn collect_one_up(mut it: fenwick::index_iter::one_based::Up) -> Vec<usize> {
    let mut v = Vec::new();
    while let Some(x) = it.next() {
        v.push(x);
    }
    v
}

fn collect_zero_down(mut it: fenwick::index_iter::zero_based::Down) -> Vec<usize> {
    let mut v = Vec::new();
    while let Some(x) = it.next() {
        v.push(x);
    }
    v
}

fn collect_zero_up(mut it: fenwick::index_iter::zero_based::Up) -> Vec<usize> {
    let mut v = Vec::new();
    while let Some(x) = it.next() {
        v.push(x);
    }
    v
}

#[test]
fn index_down_example() {
    let init_one = 0b1101110101011010000usize;
    let ans_one = vec![
        0b1101110101011010000usize,
        0b1101110101011000000usize,
        0b1101110101010000000usize,
        0b1101110101000000000usize,
        0b1101110100000000000usize,
        0b1101110000000000000usize,
        0b1101100000000000000usize,
        0b1101000000000000000usize,
        0b1100000000000000000usize,
        0b1000000000000000000usize,
    ];

    assert_eq!(collect_one_down(one_based::down(init_one)), ans_one);
    assert_eq!(
        collect_zero_down(zero_based::down(init_one - 1))
            .into_iter()
            .map(|x| x + 1)
            .collect::<Vec<usize>>(),
        ans_one
    );
}

#[test]
fn index_up_example() {
    let init_one = 0b1101110101011010000usize;
    let limit = 0b100000000000000000000usize;
    let ans_one = vec![
        0b001101110101011010000usize,
        0b001101110101011100000usize,
        0b001101110101100000000usize,
        0b001101110110000000000usize,
        0b001101111000000000000usize,
        0b001110000000000000000usize,
        0b010000000000000000000usize,
        0b100000000000000000000usize,
    ];
    assert_eq!(collect_one_up(one_based::up(init_one, limit)), ans_one);
    assert_eq!(
        collect_zero_up(zero_based::up(init_one - 1, limit))
            .into_iter()
            .map(|x| x + 1)
            .collect::<Vec<usize>>(),
        ans_one
    );
}

#[test]
fn index_boundaries() {
    assert_eq!(collect_zero_down(zero_based::down(0)), vec![0usize]);
    assert_eq!(collect_one_down(one_based::down(1)), vec![1usize]);
    assert_eq!(collect_one_up(one_based::up(0b100, 0b100)), vec![0b100usize]);
    assert_eq!(collect_zero_up(zero_based::up(0b100, 0b101)), vec![0b100usize]);
    assert_eq!(collect_zero_up(zero_based::up(0, 1)), vec![0usize]);
}

#[test]
fn index_conventions_agree() {
    for limit in 1..200usize {
        for i in 0..limit {
            let zero_dn = collect_zero_down(zero_based::down(i));
            let one_dn: Vec<usize> =
                collect_one_down(one_based::down(i + 1)).into_iter().map(|x| x - 1).collect();
            assert_eq!(zero_dn, one_dn);
            let zero_up = collect_zero_up(zero_based::up(i, limit));
            let one_up: Vec<usize> =
                collect_one_up(one_based::up(i + 1, limit)).into_iter().map(|x| x - 1).collect();
            assert_eq!(zero_up, one_up);
        }
    }
}

#[test]
fn index_walk_examples() {
    assert_eq!(collect_zero_down(zero_based::down(6)), vec![6usize, 5, 3]);
    assert_eq!(collect_zero_up(zero_based::up(2, 16)), vec![2usize, 3, 7, 15]);
    assert_eq!(collect_one_down(one_based::down(7)), vec![7usize, 6, 4]);
    assert_eq!(collect_one_up(one_based::up(3, 16)), vec![3usize, 4, 8, 16]);
}
