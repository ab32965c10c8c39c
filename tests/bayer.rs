use cvr::debayer::{
    debayer_blue_channel, debayer_green_channel, debayer_red_channel, demosaic, demosaic_rg8,
    interpolate, Pixels,
};

fn mosaic(rows: usize, cols: usize) -> Vec<u8> {
    (0..rows * cols).map(|i| ((i * 37 + 11) % 256) as u8).collect()
}

#[test]
fn test_complete_fill() {
    let rows = 1024;
    let cols = 1024;

    let xs: Vec<u8> = (0..rows * cols).map(|_| -> u8 { 17 }).collect();

    let mut r = vec![0_u8; rows * cols];
    let mut g = vec![0_u8; rows * cols];
    let mut b = vec![0_u8; rows * cols];

    debayer_red_channel(&xs, rows, cols, &mut r);
    debayer_green_channel(&xs, rows, cols, &mut g);
    debayer_blue_channel(&xs, rows, cols, &mut b);

    assert_eq!(r, vec![17_u8; rows * cols]);
    assert_eq!(g, vec![17_u8; rows * cols]);
    assert_eq!(b, vec![17_u8; rows * cols]);
}

#[test]
fn uniform_mosaic_gives_uniform_planes() {
    for &(rows, cols) in &[(2_usize, 2_usize), (3, 5), (6, 4)] {
        let xs = vec![200_u8; rows * cols];
        let (r, g, b) = demosaic(&xs, rows, cols);
        assert_eq!(r, vec![800_u16; rows * cols]);
        assert_eq!(g, vec![800_u16; rows * cols]);
        assert_eq!(b, vec![800_u16; rows * cols]);
    }
}

#[test]
fn known_two_by_two() {
    let data = [1_u8, 2, 3, 4];
    let (r, g, b) = demosaic(&data, 2, 2);
    assert_eq!(r, vec![4, 4, 4, 4]);
    assert_eq!(g, vec![10, 8, 12, 10]);
    assert_eq!(b, vec![16, 16, 16, 16]);

    let normalized: Vec<f32> = g.iter().map(|&q| f32::from(q) / 1020.0).collect();
    let expected = [0.009_803_923_f32, 0.007_843_138, 0.011_764_707, 0.009_803_923];
    for (x, y) in normalized.iter().zip(expected.iter()) {
        assert!((x - y).abs() < 1e-7);
    }
    assert!((f32::from(r[0]) / 1020.0 - 0.003_921_569).abs() < 1e-7);
    assert!((f32::from(b[0]) / 1020.0 - 0.015_686_275).abs() < 1e-7);

    let mut img = cvr::rgb::Image::new();
    demosaic_rg8(&data, 2, 2, &mut img);
    assert_eq!(img.r(), &[1, 1, 1, 1]);
    assert_eq!(img.g(), &[2, 2, 3, 2]);
    assert_eq!(img.b(), &[4, 4, 4, 4]);
}

#[test]
fn interpolation_rule_on_each_site() {
    // 4 x 4 mosaic:
    //  10  20  30  40
    //  50  60  70  80
    //  90 100 110 120
    // 130 140 150 160
    let data: Vec<u8> = (1..=16).map(|i| (i * 10) as u8).collect();
    // red site, interior-adjacent (2, 2)
    assert_eq!(
        interpolate(&data, 4, 4, 2, 2),
        (4 * 110, 100 + 120 + 70 + 150, 60 + 80 + 140 + 160)
    );
    // green site on a red row (0, 1): top border mirrors row 1 onto row -1
    assert_eq!(interpolate(&data, 4, 4, 0, 1), (2 * (10 + 30), 4 * 20, 2 * (60 + 60)));
    // green site on a blue row (1, 0): left border mirrors column 1 onto column -1
    assert_eq!(interpolate(&data, 4, 4, 1, 0), (2 * (10 + 90), 4 * 50, 2 * (60 + 60)));
    // blue site (3, 3): bottom-right corner mirrors onto row 2 and column 2
    assert_eq!(interpolate(&data, 4, 4, 3, 3), (4 * 110, 2 * 150 + 2 * 120, 4 * 160));
}

#[test]
fn border_row_reflects_inner_row() {
    let rows = 4;
    let cols = 6;
    let data = mosaic(rows, cols);
    // Pad the mosaic with a reflected row -1 (a copy of row 1), then read the green and blue
    // contributions of row 0 as an interior row of the padded image.
    let mut padded = data[cols..2 * cols].to_vec();
    padded.extend_from_slice(&data);
    let at = |r: usize, c: usize| u16::from(padded[r * cols + c]);
    for col in 1..cols - 1 {
        let (_, g, b) = interpolate(&data, rows, cols, 0, col);
        if col % 2 == 0 {
            // red site: green from the orthogonal, blue from the diagonal neighbours
            assert_eq!(g, at(1, col - 1) + at(1, col + 1) + at(0, col) + at(2, col));
            assert_eq!(b, at(0, col - 1) + at(0, col + 1) + at(2, col - 1) + at(2, col + 1));
        } else {
            // green site: blue from the vertical neighbours
            assert_eq!(g, 4 * at(1, col));
            assert_eq!(b, 2 * (at(0, col) + at(2, col)));
        }
    }
    // changing row 0 alone leaves the vertical contributions at row 0 unchanged
    let mut changed = data.clone();
    for c in 0..cols {
        changed[c] = 255 - changed[c];
    }
    for col in (1..cols).step_by(2) {
        assert_eq!(
            interpolate(&data, rows, cols, 0, col).2,
            interpolate(&changed, rows, cols, 0, col).2
        );
    }
}

#[test]
fn entry_points_agree() {
    for &(rows, cols) in &[(2_usize, 2_usize), (2, 3), (5, 7), (8, 40)] {
        let data = mosaic(rows, cols);
        let (r, g, b) = demosaic(&data, rows, cols);
        let mut img = cvr::rgb::Image::new();
        demosaic_rg8(&data, cols, rows, &mut img);
        let mut pixels = Pixels::new(&data, rows, cols);
        let mut k = 0;
        while let Some((qr, qg, qb)) = pixels.next() {
            assert_eq!((qr, qg, qb), (r[k], g[k], b[k]));
            assert_eq!(img.r()[k], (qr / 4) as u8);
            assert_eq!(img.g()[k], (qg / 4) as u8);
            assert_eq!(img.b()[k], (qb / 4) as u8);
            k += 1;
        }
        assert_eq!(k, rows * cols);
        assert!(pixels.next().is_none());
    }
}

#[test]
fn four_sample_mean_truncates() {
    // red at the blue site (1, 1) averages 1, 0, 0, 2 (diagonals), whose mean 0.75 truncates
    let data = [1_u8, 0, 0, 0, 9, 0, 0, 0, 2, 0, 0, 0, 0, 0, 0, 0];
    let (r, _, _) = demosaic(&data, 4, 4);
    assert_eq!(r[5], 1 + 0 + 2 + 0);
    let mut out = vec![0_u8; 16];
    debayer_red_channel(&data, 4, 4, &mut out);
    assert_eq!(out[5], 0);
}

#[test]
fn plane_lengths_match_shape() {
    for &(rows, cols) in &[(2_usize, 2_usize), (3, 2), (2, 9), (7, 5)] {
        let data = mosaic(rows, cols);
        let (r, g, b) = demosaic(&data, rows, cols);
        assert_eq!((r.len(), g.len(), b.len()), (rows * cols, rows * cols, rows * cols));
        let mut img = cvr::rgb::Image::new();
        img.resize(100, 100);
        demosaic_rg8(&data, cols, rows, &mut img);
        assert_eq!((img.width(), img.height()), (cols, rows));
        assert_eq!(img.r().len(), rows * cols);
        assert_eq!(img.g().len(), rows * cols);
        assert_eq!(img.b().len(), rows * cols);
        let mut pixels = Pixels::new(&data, rows, cols);
        let mut n = 0;
        while pixels.next().is_some() {
            n += 1;
        }
        assert_eq!(n, rows * cols);
    }
}

#[test]
fn channel_writes_leave_tail_alone() {
    let data = mosaic(2, 2);
    let mut r = vec![7_u8; 6];
    debayer_red_channel(&data, 2, 2, &mut r);
    assert_eq!(&r[4..], &[7, 7]);
    assert_eq!(&r[..4], &[data[0]; 4]);
}
