use fenwick::array::{prefix_sum, update};
use rand::distributions::Uniform;
use rand::seq::SliceRandom;
use rand::{thread_rng, Rng};

fn random_one<TRng: Rng>(rng: &mut TRng, len: usize) {
    let dist = Uniform::new_inclusive(-100, 100);
    let data: Vec<i32> = rng.sample_iter(dist).take(len).collect();
    let mut s = 0;
    let psum: Vec<i32> = data
        .iter()
        .map(|x| {
            s += x;
            s
        })
        .collect();

    let mut fenwick = vec![0i32; len];

    let mut ops: Vec<(usize, &i32)> = data.iter().enumerate().collect();
    ops.shuffle(rng);
    for (i, x) in ops {
        update(&mut fenwick, i, *x);
    }

    for (i, s) in psum.iter().enumerate() {
        assert_eq!(prefix_sum(&fenwick, i), *s);
    }
}

#[test]
fn array_randoms() {
    let mut rng = thread_rng();
    for len in 0..256 {
        random_one(&mut rng, len);
    }
}

#[test]
fn array_end_to_end() {
    let fw = &mut [0i32; 10];
    assert_eq!(prefix_sum(fw, 0), 0);
    assert_eq!(prefix_sum(fw, 9), 0);
    update(fw, 0, 3);
    assert_eq!(prefix_sum(fw, 0), 3);
    assert_eq!(prefix_sum(fw, 9), 3);
    update(fw, 5, 9);
    assert_eq!(prefix_sum(fw, 4), 3);
    assert_eq!(prefix_sum(fw, 5), 12);
    assert_eq!(prefix_sum(fw, 6), 12);
    update(fw, 4, -5);
    assert_eq!(prefix_sum(fw, 4), -2);
    assert_eq!(prefix_sum(fw, 5), 7);
    update(fw, 0, -2);
    assert_eq!(prefix_sum(fw, 4), -4);
    assert_eq!(prefix_sum(fw, 5), 5);
}

#[test]
fn array_backing_layout() {
    // Node j holds the sum of a[j & (j + 1) ..= j].
    let mut fw = vec![0i64; 8];
    for i in 0..8 {
        update(&mut fw, i, (i as i64) + 1);
    }
    assert_eq!(fw, vec![1i64, 3, 3, 10, 5, 11, 7, 36]);
}

#[test]
fn array_update_touches_covering_nodes_only() {
    let mut fw = vec![0u32; 10];
    update(&mut fw, 2, 5);
    assert_eq!(fw, vec![0u32, 0, 5, 5, 0, 0, 0, 5, 0, 0]);
}

#[test]
fn array_length_one() {
    let mut fw = vec![0u64; 1];
    update(&mut fw, 0, 7);
    update(&mut fw, 0, 5);
    assert_eq!(prefix_sum(&fw, 0), 12);
}

#[test]
fn array_boundary_lengths() {
    for len in [1usize, 2, 3, 4, 5, 7, 8, 9, 15, 16, 17, 31, 32, 33, 63, 64, 65] {
        let mut fw = vec![0isize; len];
        let mut a = vec![0isize; len];
        for (k, i) in (0..len).rev().chain(0..len).enumerate() {
            let d = (k as isize % 7) - 3;
            update(&mut fw, i, d);
            a[i] += d;
        }
        let mut s = 0isize;
        for i in 0..len {
            s += a[i];
            assert_eq!(prefix_sum(&fw, i), s);
        }
    }
}

#[test]
fn array_repeated_index() {
    let mut fw = vec![0usize; 6];
    for _ in 0..4 {
        update(&mut fw, 3, 2);
    }
    assert_eq!(prefix_sum(&fw, 2), 0);
    assert_eq!(prefix_sum(&fw, 3), 8);
    assert_eq!(prefix_sum(&fw, 5), 8);
}

#[test]
fn array_wrapping_addition() {
    let mut fw = vec![0i32; 3];
    update(&mut fw, 0, i32::MAX);
    update(&mut fw, 1, 1);
    assert_eq!(prefix_sum(&fw, 0), i32::MAX);
    assert_eq!(prefix_sum(&fw, 1), i32::MIN);
    let mut gw = vec![0u64; 2];
    update(&mut gw, 0, u64::MAX);
    update(&mut gw, 1, 2);
    assert_eq!(prefix_sum(&gw, 1), 1);
}
