use fenwick::index_iter::{one_based, zero_based};

fn collect_one_down(mut it: one_based::Down) -> Vec<usize> {
    let mut v = Vec::new();
    while let Some(x) = it.next() {
        v.push(x);
    }
    v
}

fn collect_one_up(mut it: one_based::Up) -> Vec<usize> {
    let mut v = Vec::new();
    while let Some(x) = it.next() {
        v.push(x);
    }
    v
}

fn collect_zero_down(mut it: zero_based::Down) -> Vec<usize> {
    let mut v = Vec::new();
    while let Some(x) = it.next() {
        v.push(x);
    }
    v
}

fn collect_zero_up(mut it: zero_based::Up) -> Vec<usize> {
    let mut v = Vec::new();
    while let Some(x) = it.next() {
        v.push(x);
    }
    v
}

#[test]
fn index_iter_down_boundary() {
    assert_eq!(collect_one_down(one_based::down(0)), Vec::<usize>::new());
    assert_eq!(collect_one_down(one_based::down(1)), vec![1usize]);
}

#[test]
fn index_iter_up_boundary() {
    assert_eq!(
        collect_one_up(one_based::up(1usize, 0b100usize)),
        vec![0b1usize, 0b10usize, 0b100usize]
    );
    assert_eq!(
        collect_one_up(one_based::up(0b100usize, 0b100usize)),
        vec![0b100usize]
    );
    assert_eq!(collect_one_up(one_based::up(0b111usize, 0b100usize)), Vec::<usize>::new());
}

#[test]
fn down_boundary() {
    assert_eq!(collect_zero_down(zero_based::down(!0)), Vec::<usize>::new());
    assert_eq!(collect_zero_down(zero_based::down(0)), vec![0usize]);
}

#[test]
fn up_boundary() {
    assert_eq!(
        collect_zero_up(zero_based::up(0usize, 0b1111usize)),
        vec![0b0usize, 0b1usize, 0b11usize, 0b111usize]
    );
    assert_eq!(
        collect_zero_up(zero_based::up(0b100usize, 0b101usize)),
        vec![0b100usize]
    );
    assert_eq!(collect_zero_up(zero_based::up(0b100usize, 0b100usize)), Vec::<usize>::new());
}

#[test]
fn index_iter_down_example() {
    let init_one = 0b1101110101011010000usize;
    let ans_one = vec![
        0b1101110101011010000usize,
        0b1101110101011000000usize,
        0b1101110101010000000usize,
        0b1101110101000000000usize,
        0b1101110100000000000usize,
        0b1101110000000000000usize,
        0b1101100000000000000usize,
        0b1101000000000000000usize,
        0b1100000000000000000usize,
        0b1000000000000000000usize,
    ];

    assert_eq!(collect_one_down(one_based::down(init_one)), ans_one);
    assert_eq!(
        collect_zero_down(zero_based::down(init_one - 1))
            .into_iter()
            .map(|x| x + 1)
            .collect::<Vec<usize>>(),
        ans_one
    );
}

#[test]
fn index_iter_up_example() {
    let init_one = 0b1101110101011010000usize;
    let limit = 0b100000000000000000000usize;
    let ans_one = vec![
        0b001101110101011010000usize,
        0b001101110101011100000usize,
        0b001101110101100000000usize,
        0b001101110110000000000usize,
        0b001101111000000000000usize,
        0b001110000000000000000usize,
        0b010000000000000000000usize,
        0b100000000000000000000usize,
    ];
    assert_eq!(collect_one_up(one_based::up(init_one, limit)), ans_one);
    assert_eq!(
        collect_zero_up(zero_based::up(init_one - 1, limit))
            .into_iter()
            .map(|x| x + 1)
            .collect::<Vec<usize>>(),
        ans_one
    );
}

#[test]
fn index_iter_steps() {
    assert_eq!(zero_based::next_down(6), 5);
    assert_eq!(zero_based::next_down(3), usize::MAX);
    assert_eq!(zero_based::next_down(usize::MAX), usize::MAX);
    assert_eq!(zero_based::next_up(2), 3);
    assert_eq!(zero_based::next_up(usize::MAX), usize::MAX);
    assert_eq!(one_based::next_down(12), 8);
    assert_eq!(one_based::next_down(0), 0);
    assert_eq!(one_based::next_up(12), 16);
    assert_eq!(one_based::next_up(0), 0);
    assert_eq!(one_based::next_up(1usize << (usize::BITS - 1)), 0);
}

#[test]
fn index_iter_walk_stays_exhausted() {
    let mut dn = zero_based::down(0);
    assert_eq!(dn.next(), Some(0));
    assert_eq!(dn.next(), None);
    assert_eq!(dn.next(), None);
    let mut up = one_based::up(4, 4);
    assert_eq!(up.next(), Some(4));
    assert_eq!(up.next(), None);
    assert_eq!(up.next(), None);
}
