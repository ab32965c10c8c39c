use cvr::rgb::{make_iter, make_iter_mut, Image, Iter, IterMut};

#[test]
fn rgb_resize() {
    let mut img = Image::<u8>::new();

    let width = 640;
    let height = 480;

    img.resize(width, height);

    assert_eq!(img.height(), height);
    assert_eq!(img.width(), width);

    let big_width = 1920;
    let big_height = 1440;

    img.resize(big_width, big_height);

    assert_eq!(img.height(), big_height);
    assert_eq!(img.width(), big_width);

    let small_width = 64;
    let small_height = 64;

    img.resize(small_width, small_height);

    assert_eq!(img.height(), small_height);
    assert_eq!(img.width(), small_width);

    img.resize(big_width, big_height);

    assert_eq!(img.height(), big_height);
    assert_eq!(img.width(), big_width);
}

#[test]
fn resize_sets_plane_lengths_and_zero_fills() {
    let mut img = Image::<u8>::new();
    assert_eq!(img.total(), 0);
    assert!(img.r().is_empty());
    img.resize(3, 2);
    assert_eq!(img.total(), 6);
    assert_eq!(img.r(), &[0; 6]);
    assert_eq!(img.g(), &[0; 6]);
    assert_eq!(img.b(), &[0; 6]);
    {
        let (r, g, b) = img.rgb_mut();
        r[0] = 5;
        g[1] = 6;
        b[5] = 7;
    }
    img.resize(2, 1);
    assert_eq!(img.r(), &[5, 0]);
    assert_eq!(img.g(), &[0, 6]);
    assert_eq!(img.b(), &[0, 0]);
}

#[test]
fn iter_yields_pixels_in_order() {
    let r = [1_u8, 2, 3];
    let g = [4_u8, 5, 6];
    let b = [7_u8, 8, 9];
    let mut it = make_iter(&r, &g, &b);
    assert_eq!(it.next(), Some([1, 4, 7]));
    assert_eq!(it.next(), Some([2, 5, 8]));
    assert_eq!(it.next(), Some([3, 6, 9]));
    assert_eq!(it.next(), None);
    assert_eq!(it.next(), None);
}

#[test]
fn iter_stops_at_shortest_plane() {
    let r = [1_u8, 2, 3];
    let g = [4_u8, 5];
    let b = [7_u8, 8, 9];
    let mut it = Iter::new(&r, &g, &b);
    let mut n = 0;
    while it.next().is_some() {
        n += 1;
    }
    assert_eq!(n, 2);
}

#[test]
fn iter_mut_writes_packed_pixels() {
    let mut r = vec![0_u8; 2];
    let mut g = vec![0_u8; 2];
    let mut b = vec![0_u8; 2];
    {
        let mut it = make_iter_mut(&mut r, &mut g, &mut b);
        let pixels = [1_u8, 2, 3, 4, 5, 6];
        for chunk in pixels.chunks_exact(3) {
            assert!(it.put([chunk[0], chunk[1], chunk[2]]));
        }
        assert!(!it.put([9, 9, 9]));
        assert_eq!(it.pos, 2);
    }
    assert_eq!(r, [1, 4]);
    assert_eq!(g, [2, 5]);
    assert_eq!(b, [3, 6]);
}

#[test]
fn image_iterators_walk_planes() {
    let mut img = Image::<u8>::new();
    img.resize(2, 1);
    {
        let mut it = img.rgb_iter_mut();
        assert!(it.put([1, 2, 3]));
        assert!(it.put([4, 5, 6]));
        assert!(!it.put([7, 8, 9]));
    }
    let mut it = img.rgb_iter();
    assert_eq!(it.next(), Some([1, 2, 3]));
    assert_eq!(it.next(), Some([4, 5, 6]));
    assert_eq!(it.next(), None);
    let mut r = [0_u8; 1];
    let mut g = [0_u8; 1];
    let mut b = [0_u8; 1];
    let mut single = IterMut::new(&mut r, &mut g, &mut b);
    assert!(single.put([1, 1, 1]));
}
