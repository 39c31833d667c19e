//! RGBA pixel images: sprite sheets and the frames cut from them, kept as
//! plain pixel rows so that cutting and padding can be reasoned about.
use vstd::prelude::*;

verus! {

/// A pixel's red, green, blue and alpha.
pub type Rgba = (u8, u8, u8, u8);

/// The fully transparent pixel a fresh canvas holds.
pub open spec fn transparent() -> Rgba {
    (0, 0, 0, 0)
}

/// The content of a [`Frame`]: its size and its pixels, row by row.
pub struct FrameView {
    pub width: nat,
    pub height: nat,
    pub pixels: Seq<Rgba>,
}

impl FrameView {
    /// One pixel per position.
    pub open spec fn wf(self) -> bool {
        self.pixels.len() == self.width * self.height
    }

    /// The pixel at column `x`, row `y`.
    pub open spec fn at(self, x: int, y: int) -> Rgba {
        self.pixels[y * self.width + x]
    }
}

/// The `w` × `h` part of `v` whose top-left corner is at column `x`, row `y`.
pub open spec fn cropped(v: FrameView, x: int, y: int, w: nat, h: nat) -> FrameView {
    FrameView { width: w, height: h, pixels: Seq::new(w * h, |k: int| v.at(x + k % (w as int), y + k / (w as int))) }
}

/// An RGBA image: `width` × `height` pixels stored row by row.
pub struct Frame {
    width: u32,
    height: u32,
    pixels: Vec<Rgba>,
}

impl View for Frame {
    type V = FrameView;

    closed spec fn view(&self) -> FrameView {
        FrameView { width: self.width as nat, height: self.height as nat, pixels: self.pixels@ }
    }
}

/// `(y * w + x)` splits back into `x` and `y`.
pub proof fn lemma_pixel_index(x: int, y: int, w: int)
    requires
        0 <= x < w,
        0 <= y,
    ensures
        (y * w + x) % w == x,
        (y * w + x) / w == y,
{
    vstd::arithmetic::div_mod::lemma_fundamental_div_mod_converse(y * w + x, w, y, x);
}

/// A position inside a `w` × `h` image has an index below `w * h`.
pub proof fn lemma_pixel_index_bound(x: int, y: int, w: int, h: int)
    requires
        0 <= x < w,
        0 <= y < h,
    ensures
        0 <= y * w + x < w * h,
{
    assert(0 <= y * w + x < w * h) by (nonlinear_arith)
        requires
            0 <= x < w,
            0 <= y < h,
    ;
}

/// Index `k` of a `w`-wide image lies at column `k % w`, row `k / w`.
pub proof fn lemma_split_index(k: int, w: int, h: int)
    requires
        0 <= k < w * h,
        w > 0,
    ensures
        0 <= k % w < w,
        0 <= k / w < h,
        (k / w) * w + k % w == k,
{
    vstd::arithmetic::div_mod::lemma_fundamental_div_mod(k, w);
    vstd::arithmetic::div_mod::lemma_div_pos_is_pos(k, w);
    vstd::arithmetic::div_mod::lemma_mod_bound(k, w);
    assert(k / w < h) by (nonlinear_arith)
        requires
            k == w * (k / w) + k % w,
            0 <= k % w,
            k < w * h,
            w > 0,
    ;
    assert((k / w) * w == w * (k / w)) by (nonlinear_arith);
}

impl Frame {
    #[verifier::type_invariant]
    pub(crate) closed spec fn inv(self) -> bool {
        self.pixels@.len() == self.width as int * self.height as int
    }

    /// An image of the given size holding `pixels`, row by row; `None` when
    /// the number of pixels is not `width * height`.
    pub fn new(width: u32, height: u32, pixels: Vec<Rgba>) -> (r: Option<Frame>)
        ensures
            r is Some <==> pixels@.len() == width * height,
            r matches Some(f) ==> f@ == (FrameView { width: width as nat, height: height as nat, pixels: pixels@ }),
    {
        let n = pixels.len() as u64;
        assert((width as int) * (height as int) <= 0xffff_ffff * 0xffff_ffffint) by (nonlinear_arith)
            requires
                width <= 0xffff_ffffu32,
                height <= 0xffff_ffffu32,
        ;
        if (width as u64) * (height as u64) == n {
            Some(Frame { width, height, pixels })
        } else {
            None
        }
    }

    /// A fully transparent image of the given size.
    pub fn blank(width: u32, height: u32) -> (f: Frame)
        requires
            width * height <= usize::MAX,
        ensures
            f@.width == width,
            f@.height == height,
            f@.pixels == Seq::new((width * height) as nat, |k: int| transparent()),
    {
        let n: usize = (width as usize) * (height as usize);
        let mut pixels: Vec<Rgba> = Vec::new();
        let mut k: usize = 0;
        while k < n
            invariant
                k <= n,
                pixels@.len() == k,
                forall|j: int| 0 <= j < k ==> #[trigger] pixels@[j] == transparent(),
            decreases n - k,
        {
            pixels.push((0, 0, 0, 0));
            k = k + 1;
        }
        assert(pixels@ =~= Seq::new((width * height) as nat, |k: int| transparent()));
        Frame { width, height, pixels }
    }

    /// Width in pixels.
    pub fn width(&self) -> (w: u32)
        ensures
            w == self@.width,
            self@.wf(),
    {
        proof {
            use_type_invariant(self);
        }
        self.width
    }

    /// Height in pixels.
    pub fn height(&self) -> (h: u32)
        ensures
            h == self@.height,
            self@.wf(),
    {
        proof {
            use_type_invariant(self);
        }
        self.height
    }

    /// Width and height in pixels.
    pub fn dimensions(&self) -> (d: (u32, u32))
        ensures
            d.0 == self@.width,
            d.1 == self@.height,
    {
        (self.width, self.height)
    }

    /// The pixels, row by row.
    pub fn pixels(&self) -> (p: &Vec<Rgba>)
        ensures
            p@ == self@.pixels,
            self@.wf(),
    {
        proof {
            use_type_invariant(self);
        }
        &self.pixels
    }

    /// The pixel at column `x`, row `y`.
    pub fn pixel(&self, x: u32, y: u32) -> (p: Rgba)
        requires
            x < self@.width,
            y < self@.height,
        ensures
            p == self@.at(x as int, y as int),
    {
        proof {
            use_type_invariant(self);
            lemma_pixel_index_bound(x as int, y as int, self.width as int, self.height as int);
        }
        let _len = self.pixels.len();
        self.pixels[(y as usize) * (self.width as usize) + (x as usize)]
    }

    /// The `w` × `h` part of the image whose top-left corner is at
    /// column `x`, row `y`.
    pub fn crop(&self, x: u32, y: u32, w: u32, h: u32) -> (c: Frame)
        requires
            x + w <= self@.width,
            y + h <= self@.height,
        ensures
            c@ == cropped(self@, x as int, y as int, w as nat, h as nat),
            c@.wf(),
            forall|cx: int, cy: int| 0 <= cx < w && 0 <= cy < h ==> #[trigger] c@.at(cx, cy) == self@.at(x + cx, y + cy),
    {
        proof {
            use_type_invariant(self);
            assert(w * h <= self.width as int * self.height as int) by (nonlinear_arith)
                requires
                    w <= self.width,
                    h <= self.height,
            ;
        }
        let len = self.pixels.len();
        let sw: usize = self.width as usize;
        let n: usize = (w as usize) * (h as usize);
        let mut out: Vec<Rgba> = Vec::new();
        let mut k: usize = 0;
        while k < n
            invariant
                k <= n == w * h,
                w * h <= self.width * self.height,
                sw == self.width,
                self.pixels@.len() == self.width * self.height,
                len == self.pixels@.len(),
                x + w <= self.width,
                y + h <= self.height,
                out@.len() == k,
                forall|j: int| 0 <= j < k ==> #[trigger] out@[j] == self@.at(x + j % (w as int), y + j / (w as int)),
            decreases n - k,
        {
            proof {
                lemma_split_index(k as int, w as int, h as int);
                lemma_pixel_index_bound(
                    x + k as int % (w as int),
                    y + k as int / (w as int),
                    self.width as int,
                    self.height as int,
                );
            }
            let cx = k % (w as usize);
            let cy = k / (w as usize);
            let p = self.pixels[((y as usize) + cy) * sw + (x as usize) + cx];
            out.push(p);
            k = k + 1;
        }
        let c = Frame { width: w, height: h, pixels: out };
        assert(c@.pixels =~= cropped(self@, x as int, y as int, w as nat, h as nat).pixels);
        proof {
            assert forall|cx: int, cy: int| 0 <= cx < w && 0 <= cy < h implies #[trigger] c@.at(cx, cy) == self@.at(
                x + cx,
                y + cy,
            ) by {
                lemma_pixel_index(cx, cy, w as int);
                lemma_pixel_index_bound(cx, cy, w as int, h as int);
            }
        }
        c
    }
}

/// What decoding the PNG file `bytes` gives: the image converted to RGBA
/// pixels, or the message of the decoding error.
pub uninterp spec fn decoded_sheet(bytes: Seq<u8>) -> Result<FrameView, Seq<char>>;

/// Decodes the PNG file `bytes` with `image::ImageReader::with_format(..,
/// ImageFormat::Png).decode()` and converts the image with `to_rgba8`; an
/// error becomes its `Display` text. The result is `decoded_sheet` of the
/// bytes, and a decoded image holds one pixel per position.
#[verifier::external_body]
pub(crate) fn decode_sheet(bytes: &Vec<u8>) -> (r: Result<Frame, String>)
    ensures
        match r {
            Ok(f) => decoded_sheet(bytes@) == Ok::<FrameView, Seq<char>>(f@) && f@.wf(),
            Err(m) => decoded_sheet(bytes@) == Err::<FrameView, Seq<char>>(m@),
        },
{
    let reader = image::ImageReader::with_format(std::io::Cursor::new(bytes.as_slice()), image::ImageFormat::Png);
    match reader.decode() {
        Ok(img) => {
            let rgba = img.to_rgba8();
            let pixels: Vec<Rgba> = rgba.pixels().map(|p| (p[0], p[1], p[2], p[3])).collect();
            Ok(Frame { width: rgba.width(), height: rgba.height(), pixels })
        },
        Err(e) => Err(e.to_string()),
    }
}

impl Clone for Frame {
    fn clone(&self) -> (r: Self)
        ensures
            r@ == self@,
    {
        proof {
            use_type_invariant(self);
        }
        let mut pixels: Vec<Rgba> = Vec::new();
        let mut k: usize = 0;
        while k < self.pixels.len()
            invariant
                k <= self.pixels@.len(),
                pixels@ == self.pixels@.take(k as int),
            decreases self.pixels@.len() - k,
        {
            pixels.push(self.pixels[k]);
            k = k + 1;
            assert(pixels@ =~= self.pixels@.take(k as int));
        }
        assert(self.pixels@.take(k as int) =~= self.pixels@);
        Frame { width: self.width, height: self.height, pixels }
    }
}

} // verus!
