use cvr::rgba::{Iter, IterMut};

#[test]
fn rgba_iter_yields_pixels() {
    let r = vec![1_u8, 2, 3];
    let g = vec![4_u8, 5, 6];
    let b = vec![7_u8, 8, 9];
    let a = vec![255_u8, 255, 255];
    let mut it = Iter::new(&r, &g, &b, &a);
    assert_eq!(it.next(), Some([1, 4, 7, 255]));
    assert_eq!(it.next(), Some([2, 5, 8, 255]));
    assert_eq!(it.next(), Some([3, 6, 9, 255]));
    assert_eq!(it.next(), None);
}

#[test]
fn rgba_iter_mut_fills_planes() {
    let mut r = vec![0_u8; 2];
    let mut g = vec![0_u8; 2];
    let mut b = vec![0_u8; 2];
    let mut a = vec![0_u8; 2];
    {
        let mut it = IterMut::new(&mut r, &mut g, &mut b, &mut a);
        let pixels = [1_u8, 2, 3, 4, 5, 6];
        for chunk in pixels.chunks_exact(3) {
            assert!(it.put([chunk[0], chunk[1], chunk[2], 128]));
        }
        assert!(!it.put([0, 0, 0, 0]));
    }
    assert_eq!(r, [1, 4]);
    assert_eq!(g, [2, 5]);
    assert_eq!(b, [3, 6]);
    assert_eq!(a, [128, 128]);
}

#[test]
fn default_images_are_empty() {
    let img = cvr::rgba::Image::<u8>::default();
    assert_eq!((img.width(), img.height()), (0, 0));
    assert!(img.r().is_empty() && img.g().is_empty() && img.b().is_empty() && img.a().is_empty());
    let mut it = img.rgba_iter();
    assert_eq!(it.next(), None);

    let img = cvr::rgb::Image::<u8>::default();
    assert_eq!((img.width(), img.height(), img.total()), (0, 0, 0));
    let img = cvr::gray::Image::<u8>::default();
    assert_eq!(img.iter().count(), 0);
}
