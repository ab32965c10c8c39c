//! `debayer` rebuilds the three colour planes of an image from single-channel mosaic data laid
//! out in repeating `R G / G B` tiles, interpolating the two missing channels at every position
//! from the neighbouring samples and mirroring the neighbours at the image border.
//!
//! Interpolated values are exact means of one, two or four samples. The scaled entry points
//! report them in quarter steps (four times the mean, so `q / 1020` is the normalized value);
//! the 8-bit entry points truncate the mean, so an 8-bit sample is always `q / 4`.

use vstd::prelude::*;

use crate::rgb::Image;

verus! {

/// The neighbour before index `i` on an axis of `n` samples; at either border it is the
/// adjacent inner sample.
pub open spec fn prev_index(i: int, n: int) -> int {
    if i == 0 {
        1
    } else if i == n - 1 {
        n - 2
    } else {
        i - 1
    }
}

/// The neighbour after index `i` on an axis of `n` samples; at either border it is the
/// adjacent inner sample.
pub open spec fn next_index(i: int, n: int) -> int {
    if i == 0 {
        1
    } else if i == n - 1 {
        n - 2
    } else {
        i + 1
    }
}

/// The mosaic sample at `(row, col)` of a row-major buffer with `cols` columns.
pub open spec fn sample(data: Seq<u8>, cols: int, row: int, col: int) -> int {
    data[row * cols + col] as int
}

/// Sum of the left and right neighbours of `(row, col)`.
pub open spec fn horizontal_sum(data: Seq<u8>, cols: int, row: int, col: int) -> int {
    sample(data, cols, row, prev_index(col, cols)) + sample(data, cols, row, next_index(col, cols))
}

/// Sum of the upper and lower neighbours of `(row, col)`.
pub open spec fn vertical_sum(data: Seq<u8>, rows: int, cols: int, row: int, col: int) -> int {
    sample(data, cols, prev_index(row, rows), col) + sample(data, cols, next_index(row, rows), col)
}

/// Sum of the four orthogonal neighbours of `(row, col)`.
pub open spec fn orthogonal_sum(data: Seq<u8>, rows: int, cols: int, row: int, col: int) -> int {
    horizontal_sum(data, cols, row, col) + vertical_sum(data, rows, cols, row, col)
}

/// Sum of the four diagonal neighbours of `(row, col)`.
pub open spec fn diagonal_sum(data: Seq<u8>, rows: int, cols: int, row: int, col: int) -> int {
    let (pr, nr) = (prev_index(row, rows), next_index(row, rows));
    let (pc, nc) = (prev_index(col, cols), next_index(col, cols));
    sample(data, cols, pr, pc) + sample(data, cols, pr, nc) + sample(data, cols, nr, pc)
        + sample(data, cols, nr, nc)
}

/// Red at `(row, col)`, in quarter steps: the sample itself on red sites, the mean of the two
/// horizontal (even rows) or vertical (odd rows) neighbours on green sites, and the mean of the
/// four diagonal neighbours on blue sites.
pub open spec fn red_quarters(data: Seq<u8>, rows: int, cols: int, row: int, col: int) -> int {
    if row % 2 == 0 && col % 2 == 0 {
        4 * sample(data, cols, row, col)
    } else if row % 2 == 0 {
        2 * horizontal_sum(data, cols, row, col)
    } else if col % 2 == 0 {
        2 * vertical_sum(data, rows, cols, row, col)
    } else {
        diagonal_sum(data, rows, cols, row, col)
    }
}

/// Green at `(row, col)`, in quarter steps: the sample itself on green sites, the mean of the
/// four orthogonal neighbours on red and blue sites.
pub open spec fn green_quarters(data: Seq<u8>, rows: int, cols: int, row: int, col: int) -> int {
    if row % 2 == col % 2 {
        orthogonal_sum(data, rows, cols, row, col)
    } else {
        4 * sample(data, cols, row, col)
    }
}

/// Blue at `(row, col)`, in quarter steps: the mean of the four diagonal neighbours on red
/// sites, of the two vertical (even rows) or horizontal (odd rows) neighbours on green sites,
/// and the sample itself on blue sites.
pub open spec fn blue_quarters(data: Seq<u8>, rows: int, cols: int, row: int, col: int) -> int {
    if row % 2 == 0 && col % 2 == 0 {
        diagonal_sum(data, rows, cols, row, col)
    } else if row % 2 == 0 {
        2 * vertical_sum(data, rows, cols, row, col)
    } else if col % 2 == 0 {
        2 * horizontal_sum(data, cols, row, col)
    } else {
        4 * sample(data, cols, row, col)
    }
}

/// The pixel at `(row, col)` as a `(red, green, blue)` triple in quarter steps.
pub open spec fn pixel_quarters(data: Seq<u8>, rows: int, cols: int, row: int, col: int) -> (
    u16,
    u16,
    u16,
) {
    (
        red_quarters(data, rows, cols, row, col) as u16,
        green_quarters(data, rows, cols, row, col) as u16,
        blue_quarters(data, rows, cols, row, col) as u16,
    )
}

/// One of the three colour planes.
#[derive(Clone, Copy, PartialEq, Eq, Debug)]
pub enum Channel {
    Red,
    Green,
    Blue,
}

/// The value of `channel` at `(row, col)`, in quarter steps.
pub open spec fn channel_quarters(
    channel: Channel,
    data: Seq<u8>,
    rows: int,
    cols: int,
    row: int,
    col: int,
) -> int {
    match channel {
        Channel::Red => red_quarters(data, rows, cols, row, col),
        Channel::Green => green_quarters(data, rows, cols, row, col),
        Channel::Blue => blue_quarters(data, rows, cols, row, col),
    }
}

/// The whole plane of `channel` in row-major order, in quarter steps.
pub open spec fn quarter_plane(channel: Channel, data: Seq<u8>, rows: int, cols: int) -> Seq<u16> {
    Seq::new(
        (rows * cols) as nat,
        |k: int| channel_quarters(channel, data, rows, cols, k / cols, k % cols) as u16,
    )
}

/// The whole plane of `channel` in row-major order as 8-bit samples: each is the interpolated
/// mean, truncated.
pub open spec fn byte_plane(channel: Channel, data: Seq<u8>, rows: int, cols: int) -> Seq<u8> {
    Seq::new(
        (rows * cols) as nat,
        |k: int| (channel_quarters(channel, data, rows, cols, k / cols, k % cols) / 4) as u8,
    )
}

/// Every pixel of the image in row-major order, as `(red, green, blue)` in quarter steps.
pub open spec fn pixel_sequence(data: Seq<u8>, rows: int, cols: int) -> Seq<(u16, u16, u16)> {
    Seq::new((rows * cols) as nat, |k: int| pixel_quarters(data, rows, cols, k / cols, k % cols))
}

/// The index `i` of an axis of `n` samples, extended past either border by reflection:
/// `-1` mirrors to `1`, and `n` to `n - 2`.
pub open spec fn reflect(i: int, n: int) -> int {
    if i < 0 {
        -i
    } else if i >= n {
        2 * (n - 1) - i
    } else {
        i
    }
}

/// What every entry point asks of a mosaic: at least a 2x2 image, and enough samples.
pub open spec fn valid_mosaic(data: Seq<u8>, rows: int, cols: int) -> bool {
    &&& rows >= 2
    &&& cols >= 2
    &&& rows * cols <= data.len()
}

proof fn lemma_flat_index(row: int, col: int, rows: int, cols: int)
    requires
        0 <= row < rows,
        0 <= col < cols,
    ensures
        0 <= row * cols,
        0 <= row * cols + col < rows * cols,
        (row * cols + col) / cols == row,
        (row * cols + col) % cols == col,
{
    assert(0 <= row * cols && row * cols + col < rows * cols) by (nonlinear_arith)
        requires
            0 <= row < rows,
            0 <= col < cols,
    ;
    vstd::arithmetic::div_mod::lemma_fundamental_div_mod_converse(row * cols + col, cols, row, col);
}

fn prev_neighbour(i: usize, n: usize) -> (r: usize)
    requires
        n >= 2,
        i < n,
    ensures
        r == prev_index(i as int, n as int),
{
    if i == 0 {
        1
    } else if i == n - 1 {
        n - 2
    } else {
        i - 1
    }
}

fn next_neighbour(i: usize, n: usize) -> (r: usize)
    requires
        n >= 2,
        i < n,
    ensures
        r == next_index(i as int, n as int),
{
    if i == 0 {
        1
    } else if i == n - 1 {
        n - 2
    } else {
        i + 1
    }
}

fn sample_at(data: &[u8], rows: usize, cols: usize, row: usize, col: usize) -> (s: u8)
    requires
        valid_mosaic(data@, rows as int, cols as int),
        row < rows,
        col < cols,
    ensures
        s == sample(data@, cols as int, row as int, col as int),
{
    proof {
        lemma_flat_index(row as int, col as int, rows as int, cols as int);
        assert(data@.len() == data.len());
    }
    data[row * cols + col]
}


fn horizontal_pair(data: &[u8], rows: usize, cols: usize, row: usize, col: usize) -> (s: u16)
    requires
        valid_mosaic(data@, rows as int, cols as int),
        row < rows,
        col < cols,
    ensures
        s == horizontal_sum(data@, cols as int, row as int, col as int),
        s <= 510,
{
    let pc = prev_neighbour(col, cols);
    let nc = next_neighbour(col, cols);
    sample_at(data, rows, cols, row, pc) as u16 + sample_at(data, rows, cols, row, nc) as u16
}

fn vertical_pair(data: &[u8], rows: usize, cols: usize, row: usize, col: usize) -> (s: u16)
    requires
        valid_mosaic(data@, rows as int, cols as int),
        row < rows,
        col < cols,
    ensures
        s == vertical_sum(data@, rows as int, cols as int, row as int, col as int),
        s <= 510,
{
    let pr = prev_neighbour(row, rows);
    let nr = next_neighbour(row, rows);
    sample_at(data, rows, cols, pr, col) as u16 + sample_at(data, rows, cols, nr, col) as u16
}

fn diagonal_four(data: &[u8], rows: usize, cols: usize, row: usize, col: usize) -> (s: u16)
    requires
        valid_mosaic(data@, rows as int, cols as int),
        row < rows,
        col < cols,
    ensures
        s == diagonal_sum(data@, rows as int, cols as int, row as int, col as int),
        s <= 1020,
{
    let pr = prev_neighbour(row, rows);
    let nr = next_neighbour(row, rows);
    let pc = prev_neighbour(col, cols);
    let nc = next_neighbour(col, cols);
    sample_at(data, rows, cols, pr, pc) as u16 + sample_at(data, rows, cols, pr, nc) as u16
        + sample_at(data, rows, cols, nr, pc) as u16 + sample_at(data, rows, cols, nr, nc) as u16
}

fn red_at(data: &[u8], rows: usize, cols: usize, row: usize, col: usize) -> (q: u16)
    requires
        valid_mosaic(data@, rows as int, cols as int),
        row < rows,
        col < cols,
    ensures
        q == red_quarters(data@, rows as int, cols as int, row as int, col as int),
        q <= 1020,
{
    if row % 2 == 0 && col % 2 == 0 {
        4 * sample_at(data, rows, cols, row, col) as u16
    } else if row % 2 == 0 {
        2 * horizontal_pair(data, rows, cols, row, col)
    } else if col % 2 == 0 {
        2 * vertical_pair(data, rows, cols, row, col)
    } else {
        diagonal_four(data, rows, cols, row, col)
    }
}

fn green_at(data: &[u8], rows: usize, cols: usize, row: usize, col: usize) -> (q: u16)
    requires
        valid_mosaic(data@, rows as int, cols as int),
        row < rows,
        col < cols,
    ensures
        q == green_quarters(data@, rows as int, cols as int, row as int, col as int),
        q <= 1020,
{
    if row % 2 == col % 2 {
        horizontal_pair(data, rows, cols, row, col) + vertical_pair(data, rows, cols, row, col)
    } else {
        4 * sample_at(data, rows, cols, row, col) as u16
    }
}

fn blue_at(data: &[u8], rows: usize, cols: usize, row: usize, col: usize) -> (q: u16)
    requires
        valid_mosaic(data@, rows as int, cols as int),
        row < rows,
        col < cols,
    ensures
        q == blue_quarters(data@, rows as int, cols as int, row as int, col as int),
        q <= 1020,
{
    if row % 2 == 0 && col % 2 == 0 {
        diagonal_four(data, rows, cols, row, col)
    } else if row % 2 == 0 {
        2 * vertical_pair(data, rows, cols, row, col)
    } else if col % 2 == 0 {
        2 * horizontal_pair(data, rows, cols, row, col)
    } else {
        4 * sample_at(data, rows, cols, row, col) as u16
    }
}

/// `interpolate` reconstructs the pixel at `(row, col)`: its red, green and blue values in
/// quarter steps.
pub fn interpolate(data: &[u8], rows: usize, cols: usize, row: usize, col: usize) -> (px: (
    u16,
    u16,
    u16,
))
    requires
        valid_mosaic(data@, rows as int, cols as int),
        row < rows,
        col < cols,
    ensures
        px == pixel_quarters(data@, rows as int, cols as int, row as int, col as int),
{
    (
        red_at(data, rows, cols, row, col),
        green_at(data, rows, cols, row, col),
        blue_at(data, rows, cols, row, col),
    )
}

fn channel_at(channel: Channel, data: &[u8], rows: usize, cols: usize, row: usize, col: usize) -> (q:
    u16)
    requires
        valid_mosaic(data@, rows as int, cols as int),
        row < rows,
        col < cols,
    ensures
        q == channel_quarters(channel, data@, rows as int, cols as int, row as int, col as int),
        q <= 1020,
{
    match channel {
        Channel::Red => red_at(data, rows, cols, row, col),
        Channel::Green => green_at(data, rows, cols, row, col),
        Channel::Blue => blue_at(data, rows, cols, row, col),
    }
}

/// Writes the 8-bit plane of `channel` over the first `rows * cols` entries of `out`.
fn fill_channel(channel: Channel, data: &[u8], rows: usize, cols: usize, out: &mut [u8])
    requires
        valid_mosaic(data@, rows as int, cols as int),
        old(out)@.len() >= rows * cols,
    ensures
        final(out)@ == byte_plane(channel, data@, rows as int, cols as int) + old(out)@.skip(
            rows * cols,
        ),
{
    let ghost n = rows * cols;
    let ghost plane = byte_plane(channel, data@, rows as int, cols as int);
    assert(data@.len() == data.len());
    let mut row: usize = 0;
    let mut base: usize = 0;
    while row < rows
        invariant
            valid_mosaic(data@, rows as int, cols as int),
            n == rows * cols,
            n <= usize::MAX,
            plane == byte_plane(channel, data@, rows as int, cols as int),
            row <= rows,
            base == row * cols,
            base <= n,
            out@.len() == old(out)@.len(),
            old(out)@.len() >= n,
            forall|k: int| 0 <= k < base ==> out@[k] == plane[k],
            forall|k: int| n <= k < out@.len() ==> out@[k] == old(out)@[k],
        decreases rows - row,
    {
        let mut col: usize = 0;
        while col < cols
            invariant
                valid_mosaic(data@, rows as int, cols as int),
                n == rows * cols,
                n <= usize::MAX,
                plane == byte_plane(channel, data@, rows as int, cols as int),
                row < rows,
                col <= cols,
                base == row * cols,
                out@.len() == old(out)@.len(),
                old(out)@.len() >= n,
                forall|k: int| 0 <= k < base + col ==> out@[k] == plane[k],
                forall|k: int| n <= k < out@.len() ==> out@[k] == old(out)@[k],
            decreases cols - col,
        {
            proof {
                lemma_flat_index(row as int, col as int, rows as int, cols as int);
            }
            let q = channel_at(channel, data, rows, cols, row, col);
            out[base + col] = (q / 4) as u8;
            col += 1;
        }
        proof {
            assert((row + 1) * cols == row * cols + cols && (row + 1) * cols <= rows * cols)
                by (nonlinear_arith)
                requires
                    row < rows,
                    cols >= 0,
            ;
        }
        base = base + cols;
        row += 1;
    }
    assert(out@ =~= plane + old(out)@.skip(n));
}

/// `debayer_red_channel` writes the red plane of the mosaic, as 8-bit samples, over the first
/// `rows * cols` entries of `r`; the entries after them are left as they were.
pub fn debayer_red_channel(data: &[u8], rows: usize, cols: usize, r: &mut [u8])
    requires
        valid_mosaic(data@, rows as int, cols as int),
        old(r)@.len() >= rows * cols,
    ensures
        final(r)@ == byte_plane(Channel::Red, data@, rows as int, cols as int) + old(r)@.skip(
            rows * cols,
        ),
{
    fill_channel(Channel::Red, data, rows, cols, r);
}

/// `debayer_green_channel` writes the green plane of the mosaic, as 8-bit samples, over the
/// first `rows * cols` entries of `g`; the entries after them are left as they were.
pub fn debayer_green_channel(data: &[u8], rows: usize, cols: usize, g: &mut [u8])
    requires
        valid_mosaic(data@, rows as int, cols as int),
        old(g)@.len() >= rows * cols,
    ensures
        final(g)@ == byte_plane(Channel::Green, data@, rows as int, cols as int) + old(g)@.skip(
            rows * cols,
        ),
{
    fill_channel(Channel::Green, data, rows, cols, g);
}

/// `debayer_blue_channel` writes the blue plane of the mosaic, as 8-bit samples, over the first
/// `rows * cols` entries of `b`; the entries after them are left as they were.
pub fn debayer_blue_channel(data: &[u8], rows: usize, cols: usize, b: &mut [u8])
    requires
        valid_mosaic(data@, rows as int, cols as int),
        old(b)@.len() >= rows * cols,
    ensures
        final(b)@ == byte_plane(Channel::Blue, data@, rows as int, cols as int) + old(b)@.skip(
            rows * cols,
        ),
{
    fill_channel(Channel::Blue, data, rows, cols, b);
}

/// `demosaic_rg8` converts the `width` x `height` mosaic into a full three-channel RGB image:
/// `img` is resized to `width` x `height` and each of its planes is overwritten with the
/// interpolated 8-bit samples.
pub fn demosaic_rg8(data: &[u8], width: usize, height: usize, img: &mut Image<u8>)
    requires
        valid_mosaic(data@, height as int, width as int),
    ensures
        final(img).wf(),
        final(img).cols() == width,
        final(img).rows() == height,
        final(img).red() == byte_plane(Channel::Red, data@, height as int, width as int),
        final(img).green() == byte_plane(Channel::Green, data@, height as int, width as int),
        final(img).blue() == byte_plane(Channel::Blue, data@, height as int, width as int),
{
    assert(data@.len() == data.len());
    img.resize(width, height);
    let (rows, cols) = (height, width);
    let (r, g, b) = img.rgb_mut();
    debayer_red_channel(data, rows, cols, r);
    debayer_green_channel(data, rows, cols, g);
    debayer_blue_channel(data, rows, cols, b);
    assert(img.red() =~= byte_plane(Channel::Red, data@, height as int, width as int));
    assert(img.green() =~= byte_plane(Channel::Green, data@, height as int, width as int));
    assert(img.blue() =~= byte_plane(Channel::Blue, data@, height as int, width as int));
}

/// `demosaic` reconstructs the red, green and blue planes of the `rows` x `cols` mosaic, each
/// in row-major order and in quarter steps (`q / 1020` is the normalized value of `q`).
pub fn demosaic(data: &[u8], rows: usize, cols: usize) -> (planes: (Vec<u16>, Vec<u16>, Vec<u16>))
    requires
        valid_mosaic(data@, rows as int, cols as int),
    ensures
        planes.0@ == quarter_plane(Channel::Red, data@, rows as int, cols as int),
        planes.1@ == quarter_plane(Channel::Green, data@, rows as int, cols as int),
        planes.2@ == quarter_plane(Channel::Blue, data@, rows as int, cols as int),
{
    let ghost n = rows * cols;
    assert(data@.len() == data.len());
    let mut r: Vec<u16> = Vec::new();
    let mut g: Vec<u16> = Vec::new();
    let mut b: Vec<u16> = Vec::new();
    let mut row: usize = 0;
    while row < rows
        invariant
            valid_mosaic(data@, rows as int, cols as int),
            n == rows * cols,
            row <= rows,
            r@.len() == row * cols,
            g@.len() == row * cols,
            b@.len() == row * cols,
            forall|k: int|
                0 <= k < r@.len() ==> r@[k] == quarter_plane(
                    Channel::Red,
                    data@,
                    rows as int,
                    cols as int,
                )[k],
            forall|k: int|
                0 <= k < g@.len() ==> g@[k] == quarter_plane(
                    Channel::Green,
                    data@,
                    rows as int,
                    cols as int,
                )[k],
            forall|k: int|
                0 <= k < b@.len() ==> b@[k] == quarter_plane(
                    Channel::Blue,
                    data@,
                    rows as int,
                    cols as int,
                )[k],
        decreases rows - row,
    {
        let mut col: usize = 0;
        while col < cols
            invariant
                valid_mosaic(data@, rows as int, cols as int),
                n == rows * cols,
                row < rows,
                col <= cols,
                r@.len() == row * cols + col,
                g@.len() == row * cols + col,
                b@.len() == row * cols + col,
                forall|k: int|
                    0 <= k < r@.len() ==> r@[k] == quarter_plane(
                        Channel::Red,
                        data@,
                        rows as int,
                        cols as int,
                    )[k],
                forall|k: int|
                    0 <= k < g@.len() ==> g@[k] == quarter_plane(
                        Channel::Green,
                        data@,
                        rows as int,
                        cols as int,
                    )[k],
                forall|k: int|
                    0 <= k < b@.len() ==> b@[k] == quarter_plane(
                        Channel::Blue,
                        data@,
                        rows as int,
                        cols as int,
                    )[k],
            decreases cols - col,
        {
            proof {
                lemma_flat_index(row as int, col as int, rows as int, cols as int);
            }
            let (qr, qg, qb) = interpolate(data, rows, cols, row, col);
            r.push(qr);
            g.push(qg);
            b.push(qb);
            col += 1;
        }
        proof {
            assert((row + 1) * cols == row * cols + cols) by (nonlinear_arith);
        }
        row += 1;
    }
    assert(r@ =~= quarter_plane(Channel::Red, data@, rows as int, cols as int));
    assert(g@ =~= quarter_plane(Channel::Green, data@, rows as int, cols as int));
    assert(b@ =~= quarter_plane(Channel::Blue, data@, rows as int, cols as int));
    (r, g, b)
}

/// `Pixels` is the lazy form of [`demosaic`]: it borrows the mosaic and yields one
/// reconstructed pixel at a time, in row-major order, as `(red, green, blue)` in quarter steps.
/// The cursor only advances; a new `Pixels` starts over.
pub struct Pixels<'a> {
    data: &'a [u8],
    rows: usize,
    cols: usize,
    row: usize,
    col: usize,
}

impl<'a> View for Pixels<'a> {
    type V = Seq<(u16, u16, u16)>;

    /// The pixels still to come.
    closed spec fn view(&self) -> Seq<(u16, u16, u16)> {
        pixel_sequence(self.data@, self.rows as int, self.cols as int).skip(
            self.row * self.cols + self.col,
        )
    }
}

impl<'a> Pixels<'a> {
    #[verifier::type_invariant]
    closed spec fn wf(&self) -> bool {
        &&& valid_mosaic(self.data@, self.rows as int, self.cols as int)
        &&& self.col < self.cols
        &&& self.row <= self.rows
        &&& self.row == self.rows ==> self.col == 0
    }

    /// `new` returns the pixels of the `rows` x `cols` mosaic `data`.
    pub fn new(data: &'a [u8], rows: usize, cols: usize) -> (px: Self)
        requires
            valid_mosaic(data@, rows as int, cols as int),
        ensures
            px@ == pixel_sequence(data@, rows as int, cols as int),
    {
        let px = Pixels { data, rows, cols, row: 0, col: 0 };
        assert(px@ =~= pixel_sequence(data@, rows as int, cols as int));
        px
    }

    /// `next` yields the next pixel, or `None` once all `rows * cols` have been yielded.
    pub fn next(&mut self) -> (px: Option<(u16, u16, u16)>)
        ensures
            old(self)@.len() == 0 ==> px is None && final(self)@ == old(self)@,
            old(self)@.len() > 0 ==> px == Some(old(self)@[0]) && final(self)@
                == old(self)@.drop_first(),
    {
        proof {
            use_type_invariant(&*self);
        }
        let ghost k = self.row * self.cols + self.col;
        let ghost all = pixel_sequence(self.data@, self.rows as int, self.cols as int);
        if self.row == self.rows {
            proof {
                assert(k == self.rows * self.cols);
            }
            return None;
        }
        proof {
            lemma_flat_index(self.row as int, self.col as int, self.rows as int, self.cols as int);
        }
        let px = interpolate(self.data, self.rows, self.cols, self.row, self.col);
        if self.col + 1 < self.cols {
            self.col = self.col + 1;
        } else {
            proof {
                assert((self.row + 1) * self.cols == self.row * self.cols + self.cols)
                    by (nonlinear_arith);
            }
            self.col = 0;
            self.row = self.row + 1;
        }
        assert(self@ =~= old(self)@.drop_first());
        Some(px)
    }
}

proof fn lemma_index_split(k: int, rows: int, cols: int)
    requires
        cols > 0,
        0 <= k < rows * cols,
    ensures
        0 <= k / cols < rows,
        0 <= k % cols < cols,
{
    vstd::arithmetic::div_mod::lemma_fundamental_div_mod(k, cols);
    vstd::arithmetic::div_mod::lemma_div_pos_is_pos(k, cols);
    vstd::arithmetic::div_mod::lemma_mod_bound(k, cols);
    let q = k / cols;
    let r = k % cols;
    if q >= rows {
        assert(false) by (nonlinear_arith)
            requires
                q >= rows,
                cols > 0,
                k == cols * q + r,
                r >= 0,
                k < rows * cols,
        ;
    }
}

proof fn lemma_uniform_pixel(data: Seq<u8>, rows: int, cols: int, v: u8, row: int, col: int)
    requires
        valid_mosaic(data, rows, cols),
        forall|k: int| 0 <= k < data.len() ==> data[k] == v,
        0 <= row < rows,
        0 <= col < cols,
    ensures
        forall|ch: Channel| channel_quarters(ch, data, rows, cols, row, col) == 4 * v,
{
    let rs = seq![prev_index(row, rows), row, next_index(row, rows)];
    let cs = seq![prev_index(col, cols), col, next_index(col, cols)];
    assert forall|i: int, j: int| 0 <= i < 3 && 0 <= j < 3 implies sample(
        data,
        cols,
        #[trigger] rs[i],
        #[trigger] cs[j],
    ) == v by {
        lemma_flat_index(rs[i], cs[j], rows, cols);
    }
    assert(rs[0] == prev_index(row, rows) && rs[1] == row && rs[2] == next_index(row, rows));
    assert(cs[0] == prev_index(col, cols) && cs[1] == col && cs[2] == next_index(col, cols));
}

/// Debayering a mosaic whose samples all equal `v` gives three planes whose samples all equal
/// `v`: interpolating a constant changes nothing.
pub proof fn lemma_uniform_mosaic(data: Seq<u8>, rows: int, cols: int, v: u8)
    requires
        valid_mosaic(data, rows, cols),
        forall|k: int| 0 <= k < data.len() ==> data[k] == v,
    ensures
        forall|ch: Channel|
            byte_plane(ch, data, rows, cols) == Seq::new((rows * cols) as nat, |k: int| v),
        forall|ch: Channel|
            quarter_plane(ch, data, rows, cols) == Seq::new(
                (rows * cols) as nat,
                |k: int| (4 * v) as u16,
            ),
{
    assert forall|ch: Channel, k: int| 0 <= k < rows * cols implies #[trigger] channel_quarters(
        ch,
        data,
        rows,
        cols,
        k / cols,
        k % cols,
    ) == 4 * v by {
        lemma_index_split(k, rows, cols);
        lemma_uniform_pixel(data, rows, cols, v, k / cols, k % cols);
    }
    assert forall|ch: Channel|
        #[trigger] byte_plane(ch, data, rows, cols) == Seq::new(
            (rows * cols) as nat,
            |k: int| v,
        ) by {
        assert(byte_plane(ch, data, rows, cols) =~= Seq::new((rows * cols) as nat, |k: int| v));
    }
    assert forall|ch: Channel|
        #[trigger] quarter_plane(ch, data, rows, cols) == Seq::new(
            (rows * cols) as nat,
            |k: int| (4 * v) as u16,
        ) by {
        assert(quarter_plane(ch, data, rows, cols) =~= Seq::new(
            (rows * cols) as nat,
            |k: int| (4 * v) as u16,
        ));
    }
}

proof fn lemma_quarters_bound(ch: Channel, data: Seq<u8>, rows: int, cols: int, row: int, col: int)
    ensures
        0 <= channel_quarters(ch, data, rows, cols, row, col) <= 1020,
{
}

/// The three ways of debayering agree at every pixel: the `k`-th pixel that [`Pixels`] yields
/// holds the `k`-th sample of each plane of [`demosaic`], and each 8-bit sample of
/// [`demosaic_rg8`] is the corresponding scaled sample divided by four, truncated.
pub proof fn lemma_entry_points_agree(data: Seq<u8>, rows: int, cols: int)
    requires
        valid_mosaic(data, rows, cols),
    ensures
        forall|k: int|
            0 <= k < rows * cols ==> {
                let px = #[trigger] pixel_sequence(data, rows, cols)[k];
                &&& px.0 == quarter_plane(Channel::Red, data, rows, cols)[k]
                &&& px.1 == quarter_plane(Channel::Green, data, rows, cols)[k]
                &&& px.2 == quarter_plane(Channel::Blue, data, rows, cols)[k]
            },
        forall|ch: Channel, k: int|
            0 <= k < rows * cols ==> #[trigger] byte_plane(ch, data, rows, cols)[k] as int
                == quarter_plane(ch, data, rows, cols)[k] as int / 4,
{
    assert forall|ch: Channel, k: int| 0 <= k < rows * cols implies #[trigger] byte_plane(
        ch,
        data,
        rows,
        cols,
    )[k] as int == quarter_plane(ch, data, rows, cols)[k] as int / 4 by {
        lemma_quarters_bound(ch, data, rows, cols, k / cols, k % cols);
    }
}

/// Border mirroring: on an axis of `n >= 2` samples the neighbours used for averaging are those
/// of an axis extended past each border by reflection, where index `-1` stands for index `1`
/// and index `n` for index `n - 2`. In particular both neighbours of the first index are index
/// `1`, and both neighbours of the last are index `n - 2`.
pub proof fn lemma_border_mirroring(n: int)
    requires
        n >= 2,
    ensures
        prev_index(0, n) == 1 && next_index(0, n) == 1,
        prev_index(n - 1, n) == n - 2 && next_index(n - 1, n) == n - 2,
        forall|i: int|
            0 <= i < n ==> prev_index(i, n) == reflect(i - 1, n) && next_index(i, n) == reflect(
                i + 1,
                n,
            ),
        forall|i: int| 0 <= i < n ==> 0 <= #[trigger] prev_index(i, n) < n && 0 <= next_index(i, n) < n,
{
}

/// Every plane that debayering produces, and the lazy pixel sequence, has exactly
/// `rows * cols` entries.
pub proof fn lemma_plane_lengths(data: Seq<u8>, rows: int, cols: int)
    requires
        valid_mosaic(data, rows, cols),
    ensures
        pixel_sequence(data, rows, cols).len() == rows * cols,
        forall|ch: Channel|
            #[trigger] quarter_plane(ch, data, rows, cols).len() == rows * cols && byte_plane(
                ch,
                data,
                rows,
                cols,
            ).len() == rows * cols,
{
    assert(rows * cols >= 0) by (nonlinear_arith)
        requires
            rows >= 2,
            cols >= 2,
    ;
}

} // verus!
