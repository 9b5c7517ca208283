//! Images as the library holds them: rows of bytes, top row first, each row from left to right.

use vstd::prelude::*;

verus! {

/// What an image holds: its size, and its bytes row after row.
pub struct Raster {
    pub width: nat,
    pub height: nat,
    pub data: Seq<u8>,
}

impl Raster {
    /// Four bytes for each pixel: red, green, blue, opacity.
    pub open spec fn is_rgba(self) -> bool {
        self.data.len() == self.height * (self.width * 4)
    }

    /// One byte for each pixel.
    pub open spec fn is_gray(self) -> bool {
        self.data.len() == self.height * self.width
    }

    /// One colour channel of the pixel at column `x` of row `y`.
    pub open spec fn rgba(self, x: int, y: int, channel: int) -> u8 {
        self.data[y * (self.width * 4) + x * 4 + channel]
    }

    /// The brightness of the pixel at column `x` of row `y`.
    pub open spec fn gray(self, x: int, y: int) -> u8 {
        self.data[y * self.width + x]
    }

    /// The `count` rows from row `top` on, in an image whose rows take `stride` bytes.
    pub open spec fn rows(self, top: int, count: int, stride: int) -> Raster {
        Raster {
            width: self.width,
            height: count as nat,
            data: self.data.subrange(top * stride, (top + count) * stride),
        }
    }

    /// Rows of a colour image.
    pub open spec fn rgba_rows(self, top: int, count: int) -> Raster {
        self.rows(top, count, (self.width * 4) as int)
    }

    /// Rows of a gray image.
    pub open spec fn gray_rows(self, top: int, count: int) -> Raster {
        self.rows(top, count, self.width as int)
    }

    /// The bytes of columns `left..right` in the first `count` rows of a gray image.
    pub open spec fn column_bytes(self, left: int, right: int, count: nat) -> Seq<u8>
        decreases count,
    {
        if count == 0 {
            Seq::empty()
        } else {
            let start = (count - 1) * self.width;
            self.column_bytes(left, right, (count - 1) as nat) + self.data.subrange(
                start + left,
                start + right,
            )
        }
    }

    /// Columns `left..right` of a gray image.
    pub open spec fn gray_columns(self, left: int, right: int) -> Raster {
        Raster {
            width: (right - left) as nat,
            height: self.height,
            data: self.column_bytes(left, right, self.height),
        }
    }

    /// The bytes of the first `count` rows of a gray image, each set into a row of zeros of the
    /// given width, from column `left` on.
    pub open spec fn padded_bytes(self, left: int, width: int, count: nat) -> Seq<u8>
        decreases count,
    {
        if count == 0 {
            Seq::empty()
        } else {
            let start = (count - 1) * self.width;
            self.padded_bytes(left, width, (count - 1) as nat) + zeros(left)
                + self.data.subrange(start, start + self.width) + zeros(width - left - self.width)
        }
    }

    /// A gray image set into a wider one that is zero elsewhere, from column `left` on.
    pub open spec fn padded(self, left: int, width: int) -> Raster {
        Raster {
            width: width as nat,
            height: self.height,
            data: self.padded_bytes(left, width, self.height),
        }
    }
}

/// So many zeros.
pub open spec fn zeros(count: int) -> Seq<u8> {
    Seq::new(count as nat, |i: int| 0u8)
}

/// A captured frame, in colour.
#[derive(Clone, Debug, PartialEq, Eq)]
pub struct Frame {
    pub width: u32,
    pub height: u32,
    pub data: Vec<u8>,
}

impl View for Frame {
    type V = Raster;

    open spec fn view(&self) -> Raster {
        Raster { width: self.width as nat, height: self.height as nat, data: self.data@ }
    }
}

/// A gray image.
#[derive(Clone, Debug, PartialEq, Eq)]
pub struct GrayMap {
    pub width: u32,
    pub height: u32,
    pub data: Vec<u8>,
}

impl View for GrayMap {
    type V = Raster;

    open spec fn view(&self) -> Raster {
        Raster { width: self.width as nat, height: self.height as nat, data: self.data@ }
    }
}

/// A place inside a grid of `height` rows of `stride` bytes lies inside its bytes.
pub proof fn lemma_place(y: int, height: int, offset: int, stride: int)
    requires
        0 <= y < height,
        0 <= offset < stride,
    ensures
        0 <= y * stride,
        0 <= y * stride + offset < height * stride,
{
    assert(0 <= y * stride && (y + 1) * stride <= height * stride && (y + 1) * stride == y * stride
        + stride) by (nonlinear_arith)
        requires
            0 <= y,
            y + 1 <= height,
            0 < stride,
    ;
}

/// The bytes of some rows lie inside the bytes of the image, and take `count` strides.
pub proof fn lemma_row_span(top: int, count: int, height: int, stride: int)
    requires
        0 <= top,
        0 <= count,
        top + count <= height,
        0 <= stride,
    ensures
        0 <= top * stride <= (top + count) * stride <= height * stride,
        (top + count) * stride - top * stride == count * stride,
{
    assert(0 <= top * stride && top * stride <= (top + count) * stride && (top + count) * stride
        <= height * stride && (top + count) * stride - top * stride == count * stride)
        by (nonlinear_arith)
        requires
            0 <= top,
            0 <= count,
            top + count <= height,
            0 <= stride,
    ;
}

/// Rows cut out of a colour image hold the pixels of those rows.
pub proof fn lemma_rgba_rows(image: Raster, top: int, count: int)
    requires
        image.is_rgba(),
        0 <= top,
        0 <= count,
        top + count <= image.height,
    ensures
        image.rgba_rows(top, count).is_rgba(),
        forall|x: int, y: int, c: int|
            0 <= x < image.width && 0 <= y < count && 0 <= c < 4 ==> image.rgba_rows(
                top,
                count,
            ).rgba(x, y, c) == image.rgba(x, top + y, c),
{
    let stride = (image.width * 4) as int;
    lemma_row_span(top, count, image.height as int, stride);
    assert forall|x: int, y: int, c: int|
        0 <= x < image.width && 0 <= y < count && 0 <= c < 4 implies image.rgba_rows(
        top,
        count,
    ).rgba(x, y, c) == image.rgba(x, top + y, c) by {
        lemma_place(y, count, x * 4 + c, stride);
        assert((top + y) * stride == top * stride + y * stride) by (nonlinear_arith);
    }
}

/// Rows of rows are rows of the whole.
pub proof fn rows_of_rows(image: Raster, top: int, count: int, inner: int, part: int)
    requires
        image.is_rgba(),
        0 <= top,
        top + count <= image.height,
        0 <= inner,
        0 <= part,
        inner + part <= count,
    ensures
        image.rgba_rows(top, count).rgba_rows(inner, part) == image.rgba_rows(top + inner, part),
{
    let stride = (image.width * 4) as int;
    lemma_row_span(top, count, image.height as int, stride);
    lemma_row_span(inner, part, count, stride);
    lemma_row_span(top + inner, part, image.height as int, stride);
    assert((top + inner) * stride == top * stride + inner * stride) by (nonlinear_arith);
    assert((top + inner + part) * stride == top * stride + (inner + part) * stride)
        by (nonlinear_arith);
    assert(image.rgba_rows(top, count).rgba_rows(inner, part).data =~= image.rgba_rows(
        top + inner,
        part,
    ).data);
}

/// Neighbouring rows, one below the other, are rows of the whole.
pub proof fn rows_join(image: Raster, top: int, upper: int, lower: int)
    requires
        image.is_rgba(),
        0 <= top,
        0 <= upper,
        0 <= lower,
        top + upper + lower <= image.height,
    ensures
        image.rgba_rows(top, upper).data + image.rgba_rows(top + upper, lower).data
            == image.rgba_rows(top, upper + lower).data,
{
    let stride = (image.width * 4) as int;
    lemma_row_span(top, upper, image.height as int, stride);
    lemma_row_span(top + upper, lower, image.height as int, stride);
    lemma_row_span(top, upper + lower, image.height as int, stride);
    assert(image.rgba_rows(top, upper).data + image.rgba_rows(top + upper, lower).data
        =~= image.rgba_rows(top, upper + lower).data);
}

/// Rows cut out of a gray image hold the pixels of those rows.
pub proof fn lemma_gray_rows(image: Raster, top: int, count: int)
    requires
        image.is_gray(),
        0 <= top,
        0 <= count,
        top + count <= image.height,
    ensures
        image.gray_rows(top, count).is_gray(),
        forall|x: int, y: int|
            0 <= x < image.width && 0 <= y < count ==> image.gray_rows(top, count).gray(x, y)
                == image.gray(x, top + y),
{
    let stride = image.width as int;
    lemma_row_span(top, count, image.height as int, stride);
    assert forall|x: int, y: int| 0 <= x < image.width && 0 <= y < count implies image.gray_rows(
        top,
        count,
    ).gray(x, y) == image.gray(x, top + y) by {
        lemma_place(y, count, x, stride);
        assert((top + y) * stride == top * stride + y * stride) by (nonlinear_arith);
    }
}

/// The bytes of a column range in the first rows: how many there are, and which.
proof fn lemma_column_bytes(image: Raster, left: int, right: int, count: nat)
    requires
        image.is_gray(),
        0 <= left <= right <= image.width,
        count <= image.height,
    ensures
        image.column_bytes(left, right, count).len() == count * (right - left),
        forall|x: int, y: int|
            0 <= x < right - left && 0 <= y < count ==> #[trigger] image.column_bytes(
                left,
                right,
                count,
            )[y * (right - left) + x] == image.gray(left + x, y),
    decreases count,
{
    let span = right - left;
    if count > 0 {
        let last = count - 1;
        lemma_column_bytes(image, left, right, last as nat);
        lemma_row_span(last as int, 1, image.height as int, image.width as int);
        assert((last + 1) * image.width == last * image.width + image.width) by (nonlinear_arith);
        assert(count * span == last * span + span) by (nonlinear_arith)
            requires
                count == last + 1,
        ;
        let start = last * image.width;
        let row = image.data.subrange(start + left, start + right);
        let above = image.column_bytes(left, right, last as nat);
        assert(image.column_bytes(left, right, count) == above + row);
        assert forall|x: int, y: int| 0 <= x < span && 0 <= y < count implies #[trigger] (above
            + row)[y * span + x] == image.gray(left + x, y) by {
            if y < last {
                lemma_place(y, last as int, x, span);
                assert(above[y * span + x] == image.gray(left + x, y));
            } else {
                assert(y == last);
                assert((above + row)[last * span + x] == row[x]);
            }
        }
    } else {
        assert(count * span == 0) by (nonlinear_arith)
            requires
                count == 0,
        ;
    }
}

/// Columns cut out of a gray image hold the pixels of those columns.
pub proof fn lemma_gray_columns(image: Raster, left: int, right: int)
    requires
        image.is_gray(),
        0 <= left <= right <= image.width,
    ensures
        image.gray_columns(left, right).is_gray(),
        forall|x: int, y: int|
            0 <= x < right - left && 0 <= y < image.height ==> #[trigger] image.gray_columns(
                left,
                right,
            ).gray(x, y) == image.gray(left + x, y),
{
    lemma_column_bytes(image, left, right, image.height);
    assert forall|x: int, y: int| 0 <= x < right - left && 0 <= y < image.height implies
        #[trigger] image.gray_columns(left, right).gray(x, y) == image.gray(left + x, y) by {
        assert(image.column_bytes(left, right, image.height)[y * (right - left) + x] == image.gray(
            left + x,
            y,
        ));
    }
}

/// The bytes of padded rows: how many there are, and which.
proof fn lemma_padded_bytes(image: Raster, left: int, width: int, count: nat)
    requires
        image.is_gray(),
        0 <= left,
        left + image.width <= width,
        count <= image.height,
    ensures
        image.padded_bytes(left, width, count).len() == count * width,
        forall|x: int, y: int|
            0 <= x < width && 0 <= y < count ==> #[trigger] image.padded_bytes(left, width, count)[y
                * width + x] == if left <= x < left + image.width {
                image.gray(x - left, y)
            } else {
                0
            },
    decreases count,
{
    if count > 0 {
        let last = count - 1;
        lemma_padded_bytes(image, left, width, last as nat);
        lemma_row_span(last as int, 1, image.height as int, image.width as int);
        assert((last + 1) * image.width == last * image.width + image.width) by (nonlinear_arith);
        assert(count * width == last * width + width) by (nonlinear_arith)
            requires
                count == last + 1,
        ;
        let start = last * image.width;
        let above = image.padded_bytes(left, width, last as nat);
        let row = zeros(left) + image.data.subrange(start, start + image.width) + zeros(
            width - left - image.width,
        );
        assert(image.padded_bytes(left, width, count) =~= above + row);
        assert forall|x: int, y: int| 0 <= x < width && 0 <= y < count implies #[trigger] (above
            + row)[y * width + x] == if left <= x < left + image.width {
            image.gray(x - left, y)
        } else {
            0
        } by {
            if y < last {
                lemma_place(y, last as int, x, width);
                assert(above[y * width + x] == if left <= x < left + image.width {
                    image.gray(x - left, y)
                } else {
                    0
                });
            } else {
                assert(y == last);
                assert((above + row)[last * width + x] == row[x]);
            }
        }
    } else {
        assert(count * width == 0) by (nonlinear_arith)
            requires
                count == 0,
        ;
    }
}

/// A padded gray image holds its pixels in place, and zeros beside them.
pub proof fn lemma_padded(image: Raster, left: int, width: int)
    requires
        image.is_gray(),
        0 <= left,
        left + image.width <= width,
    ensures
        image.padded(left, width).is_gray(),
        forall|x: int, y: int|
            0 <= x < width && 0 <= y < image.height ==> #[trigger] image.padded(left, width).gray(
                x,
                y,
            ) == if left <= x < left + image.width {
                image.gray(x - left, y)
            } else {
                0
            },
{
    lemma_padded_bytes(image, left, width, image.height);
    assert forall|x: int, y: int| 0 <= x < width && 0 <= y < image.height implies
        #[trigger] image.padded(left, width).gray(x, y) == if left <= x < left + image.width {
        image.gray(x - left, y)
    } else {
        0
    } by {
        assert(image.padded_bytes(left, width, image.height)[y * width + x] == if left <= x < left
            + image.width {
            image.gray(x - left, y)
        } else {
            0
        });
    }
}

/// Appends zeros.
fn append_zeros(bytes: &mut Vec<u8>, count: u32)
    ensures
        final(bytes)@ == old(bytes)@ + zeros(count as int),
{
    let ghost before = bytes@;
    let mut i: u32 = 0;
    while i < count
        invariant
            i <= count,
            bytes@ == before + zeros(i as int),
        decreases count - i,
    {
        bytes.push(0);
        assert(bytes@ =~= before + zeros(i + 1));
        i += 1;
    }
}

/// Appends part of a byte sequence.
pub(crate) fn append_bytes(bytes: &mut Vec<u8>, source: &Vec<u8>, start: usize, end: usize)
    requires
        start <= end <= source.len(),
    ensures
        final(bytes)@ == old(bytes)@ + source@.subrange(start as int, end as int),
{
    let ghost before = bytes@;
    bytes.extend_from_slice(&source.as_slice()[start..end]);
    assert(bytes@ =~= before + source@.subrange(start as int, end as int));
}

impl Frame {
    /// The bytes fill the size.
    pub open spec fn wf(&self) -> bool {
        self@.is_rgba()
    }

    /// Takes over bytes as an image, where they fill its size exactly.
    pub fn from_raw(width: u32, height: u32, data: Vec<u8>) -> (frame: Option<Frame>)
        ensures
            frame is Some <==> data.len() == height * (width * 4),
            frame matches Some(f) ==> f.wf() && f.width == width && f.height == height && f.data
                == data,
    {
        let bytes: u128 = width as u128 * 4;
        assert(height * bytes <= 0xffff_ffff * (0xffff_ffff * 4)) by (nonlinear_arith)
            requires
                0 <= height <= 0xffff_ffff,
                0 <= bytes <= 0xffff_ffff * 4,
        ;
        if data.len() as u128 == height as u128 * bytes {
            Some(Frame { width, height, data })
        } else {
            None
        }
    }

    /// One colour channel of one pixel.
    pub fn channel(&self, x: u32, y: u32, c: usize) -> (value: u8)
        requires
            self.wf(),
            x < self.width,
            y < self.height,
            c < 4,
        ensures
            value == self@.rgba(x as int, y as int, c as int),
    {
        proof {
            let stride = (self@.width * 4) as int;
            lemma_place(y as int, self.height as int, x * 4 + c, stride);
            lemma_small_stride(self.height as int, stride, self.data.len() as int);
        }
        let stride: usize = self.width as usize * 4;
        self.data[y as usize * stride + x as usize * 4 + c]
    }

    /// Cuts out whole rows.
    pub fn crop_rows(&self, top: u32, count: u32) -> (cut: Frame)
        requires
            self.wf(),
            top + count <= self.height,
        ensures
            cut.wf(),
            cut@ == self@.rgba_rows(top as int, count as int),
    {
        let ghost stride = (self@.width * 4) as int;
        proof {
            lemma_row_span(top as int, count as int, self.height as int, stride);
            lemma_rgba_rows(self@, top as int, count as int);
            lemma_small_stride(self.height as int, stride, self.data.len() as int);
        }
        let mut data: Vec<u8> = Vec::new();
        if top + count > 0 {
            let stride: usize = self.width as usize * 4;
            append_bytes(
                &mut data,
                &self.data,
                top as usize * stride,
                (top + count) as usize * stride,
            );
        }
        assert(data@ =~= self.data@.subrange(top * stride, (top + count) * stride));
        Frame { width: self.width, height: count, data }
    }
}

/// In an image with a row, a row is no longer than all bytes.
proof fn lemma_small_stride(height: int, stride: int, len: int)
    requires
        0 <= stride,
        0 <= height,
        len == height * stride,
    ensures
        height > 0 ==> stride <= len,
{
    if height > 0 {
        assert(stride <= height * stride) by (nonlinear_arith)
            requires
                height >= 1,
                0 <= stride,
        ;
    }
}

impl GrayMap {
    /// The bytes fill the size.
    pub open spec fn wf(&self) -> bool {
        self@.is_gray()
    }

    /// The brightness of one pixel.
    pub fn value(&self, x: u32, y: u32) -> (value: u8)
        requires
            self.wf(),
            x < self.width,
            y < self.height,
        ensures
            value == self@.gray(x as int, y as int),
    {
        proof {
            lemma_place(y as int, self.height as int, x as int, self.width as int);
            assert(self@.data.len() == self.data.len());
        }
        self.data[y as usize * self.width as usize + x as usize]
    }

    /// The same image once more.
    pub fn duplicate(&self) -> (copy: GrayMap)
        ensures
            copy@ == self@,
    {
        let mut data: Vec<u8> = Vec::new();
        append_bytes(&mut data, &self.data, 0, self.data.len());
        assert(data@ =~= self.data@);
        GrayMap { width: self.width, height: self.height, data }
    }

    /// Cuts out whole rows.
    pub fn crop_rows(&self, top: u32, count: u32) -> (cut: GrayMap)
        requires
            self.wf(),
            top + count <= self.height,
        ensures
            cut.wf(),
            cut@ == self@.gray_rows(top as int, count as int),
    {
        let ghost stride = self.width as int;
        proof {
            lemma_row_span(top as int, count as int, self.height as int, stride);
            lemma_gray_rows(self@, top as int, count as int);
            lemma_small_stride(self.height as int, stride, self.data.len() as int);
        }
        let mut data: Vec<u8> = Vec::new();
        append_bytes(
            &mut data,
            &self.data,
            top as usize * self.width as usize,
            (top + count) as usize * self.width as usize,
        );
        assert(data@ =~= self.data@.subrange(top * stride, (top + count) * stride));
        GrayMap { width: self.width, height: count, data }
    }

    /// Cuts out whole columns.
    pub fn crop_columns(&self, left: u32, right: u32) -> (cut: GrayMap)
        requires
            self.wf(),
            left <= right <= self.width,
        ensures
            cut.wf(),
            cut@ == self@.gray_columns(left as int, right as int),
    {
        let mut data: Vec<u8> = Vec::new();
        let mut y: u32 = 0;
        while y < self.height
            invariant
                self.wf(),
                left <= right <= self.width,
                y <= self.height,
                data@ == self@.column_bytes(left as int, right as int, y as nat),
            decreases self.height - y,
        {
            proof {
                lemma_row_span(y as int, 1, self.height as int, self.width as int);
                assert((y + 1) * self.width == y * self.width + self.width) by (nonlinear_arith);
                assert(self@.data.len() == self.data.len());
            }
            let start: usize = y as usize * self.width as usize;
            append_bytes(&mut data, &self.data, start + left as usize, start + right as usize);
            y += 1;
        }
        proof {
            lemma_gray_columns(self@, left as int, right as int);
        }
        GrayMap { width: right - left, height: self.height, data }
    }

    /// Sets the image into a wider one that is zero elsewhere.
    pub fn pad_columns(&self, left: u32, width: u32) -> (wide: GrayMap)
        requires
            self.wf(),
            left + self.width <= width,
        ensures
            wide.wf(),
            wide@ == self@.padded(left as int, width as int),
    {
        let mut data: Vec<u8> = Vec::new();
        let mut y: u32 = 0;
        while y < self.height
            invariant
                self.wf(),
                left + self.width <= width,
                y <= self.height,
                data@ == self@.padded_bytes(left as int, width as int, y as nat),
            decreases self.height - y,
        {
            proof {
                lemma_row_span(y as int, 1, self.height as int, self.width as int);
                assert((y + 1) * self.width == y * self.width + self.width) by (nonlinear_arith);
                assert(self@.data.len() == self.data.len());
            }
            let start: usize = y as usize * self.width as usize;
            append_zeros(&mut data, left);
            append_bytes(&mut data, &self.data, start, start + self.width as usize);
            append_zeros(&mut data, width - left - self.width);
            y += 1;
        }
        proof {
            lemma_padded(self@, left as int, width as int);
        }
        GrayMap { width, height: self.height, data }
    }
}

} // verus!
