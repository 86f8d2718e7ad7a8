//! Sprites: frames of encoded image data and their size, and their
//! mirror images.
use vstd::prelude::*;
use base64::Engine;
use image::AnimationDecoder;
use image::GenericImageView;
use crate::text::dec;

verus! {

#[derive(Debug)]
pub struct SpriteFrame {
    pub payload: String,
    pub width: u32,
    pub height: u32,
    pub format: u32,
}

#[derive(Debug)]
pub struct SpriteData {
    pub frames: Vec<SpriteFrame>,
    pub width: u32,
    pub height: u32,
}

impl Clone for SpriteFrame {
    /// An equal copy.
    fn clone(&self) -> (c: Self)
        ensures
            c == *self,
    {
        SpriteFrame { payload: self.payload.clone(), width: self.width, height: self.height, format: self.format }
    }
}

impl Clone for SpriteData {
    /// A copy with equal frames.
    fn clone(&self) -> (c: Self)
        ensures
            c.frames@ == self.frames@,
            c.width == self.width && c.height == self.height,
    {
        let mut frames: Vec<SpriteFrame> = Vec::new();
        let mut i: usize = 0;
        while i < self.frames.len()
            invariant
                i <= self.frames@.len(),
                frames@ == self.frames@.take(i as int),
            decreases self.frames.len() - i,
        {
            frames.push(self.frames[i].clone());
            assert(frames@ =~= self.frames@.take(i + 1));
            i = i + 1;
        }
        assert(self.frames@.take(self.frames@.len() as int) =~= self.frames@);
        SpriteData { frames, width: self.width, height: self.height }
    }
}

impl SpriteData {
    /// The frame shown at animation step `index`, cycling through the frames.
    pub fn frame(&self, index: usize) -> (f: &SpriteFrame)
        requires
            self.frames@.len() > 0,
        ensures
            *f == self.frames@[(index as int) % (self.frames@.len() as int)],
    {
        let idx = index % self.frames.len();
        &self.frames[idx]
    }
}

/// What the standard base64 engine decodes a text to; `None` when the text
/// is not valid base64.
pub uninterp spec fn base64_decoded(text: Seq<char>) -> Option<Seq<u8>>;

/// What the standard base64 engine encodes bytes to.
pub uninterp spec fn base64_encoded(bytes: Seq<u8>) -> Seq<char>;

/// What mirroring an encoded image gives: the image read from its bytes,
/// flipped left to right, and written as PNG; `None` when it cannot be read
/// or written.
pub uninterp spec fn image_mirrored(bytes: Seq<u8>) -> Option<Seq<u8>>;

/// Whether bytes are few enough for `STANDARD.encode` to encode them without
/// its length overflowing `usize`.
pub open spec fn encodable(bytes: Seq<u8>) -> bool {
    (bytes.len() + 2) / 3 * 4 <= usize::MAX
}

/// Calls `base64::engine::general_purpose::STANDARD.decode`. The result is a
/// function of the text alone; the contract names it `base64_decoded`, the
/// error becoming `None`, and says that the bytes, being a `Vec`, number at
/// most `isize::MAX`, and that a text which the same engine encoded from
/// some bytes decodes to those bytes (its padded output is canonical).
#[verifier::external_body]
fn decode_base64(text: &str) -> (r: Option<Vec<u8>>)
    ensures
        match r {
            Some(v) => base64_decoded(text@) == Some(v@),
            None => base64_decoded(text@) is None,
        },
        r matches Some(v) ==> v@.len() <= isize::MAX,
        r matches Some(v) ==> forall|b: Seq<u8>| encodable(b) && #[trigger] base64_encoded(b) == text@ ==> v@ == b,
        r is None ==> forall|b: Seq<u8>| encodable(b) ==> #[trigger] base64_encoded(b) != text@,
{
    base64::engine::general_purpose::STANDARD.decode(text).ok()
}

/// Calls `base64::engine::general_purpose::STANDARD.encode`, which panics
/// only when the encoded length overflows `usize`; the contract names the
/// result `base64_encoded`, and says that the same engine decodes it back
/// to the bytes (padded standard base64 round-trips).
#[verifier::external_body]
fn encode_base64(bytes: &[u8]) -> (r: String)
    requires
        encodable(bytes@),
    ensures
        r@ == base64_encoded(bytes@),
        base64_decoded(r@) == Some(bytes@),
{
    base64::engine::general_purpose::STANDARD.encode(bytes)
}

/// Calls `image::load_from_memory`, `image::imageops::flip_horizontal` on
/// what it read, and `write_to` with `image::ImageFormat::Png` on the
/// flipped image; each failure becomes `None`. The result is a function of
/// the bytes alone; the contract names it `image_mirrored`, and says that
/// the written bytes, being a `Vec`, number at most `isize::MAX`.
#[verifier::external_body]
fn mirror_image(bytes: &[u8]) -> (r: Option<Vec<u8>>)
    ensures
        match r {
            Some(v) => image_mirrored(bytes@) == Some(v@),
            None => image_mirrored(bytes@) is None,
        },
        r matches Some(v) ==> v@.len() <= isize::MAX,
{
    let img = image::load_from_memory(bytes).ok()?;
    let flipped = image::imageops::flip_horizontal(&img);
    let mut buf: Vec<u8> = Vec::new();
    flipped.write_to(&mut std::io::Cursor::new(&mut buf), image::ImageFormat::Png).ok()?;
    Some(buf)
}

/// The byte of a row of `w` four-byte pixels that lands at `k` when the row
/// is mirrored.
pub open spec fn pixel_from(w: int, k: int) -> int {
    (w - 1 - k / 4) * 4 + k % 4
}

/// A row of `w` four-byte pixels, mirrored.
pub open spec fn mirrored_row(row: Seq<u8>, w: int) -> Seq<u8> {
    Seq::new(row.len(), |k: int| row[pixel_from(w, k)])
}

/// The first `y` rows of `w` four-byte pixels, each mirrored.
pub open spec fn mirrored_rows(bytes: Seq<u8>, w: int, y: nat) -> Seq<u8>
    decreases y,
{
    if y == 0 {
        seq![]
    } else {
        mirrored_rows(bytes, w, (y - 1) as nat) + mirrored_row(bytes.subrange((y - 1) * (4 * w), y * (4 * w)), w)
    }
}

/// Raw pixels of `h` rows of `w` four-byte pixels, each row mirrored, and
/// the bytes after them as they are.
pub open spec fn mirrored_image(bytes: Seq<u8>, w: int, h: nat) -> Seq<u8> {
    mirrored_rows(bytes, w, h) + bytes.subrange(h * (4 * w), bytes.len() as int)
}

proof fn lemma_rows_len(bytes: Seq<u8>, w: int, y: nat)
    requires
        w >= 0,
        y * (4 * w) <= bytes.len(),
    ensures
        mirrored_rows(bytes, w, y).len() == y * (4 * w),
    decreases y,
{
    if y > 0 {
        assert((y - 1) * (4 * w) <= y * (4 * w)) by (nonlinear_arith)
            requires
                y >= 1,
                w >= 0,
        ;
        assert((y - 1) * (4 * w) + 4 * w == y * (4 * w)) by (nonlinear_arith);
        assert(0 <= (y - 1) * (4 * w)) by (nonlinear_arith)
            requires
                y >= 1,
                w >= 0,
        ;
        lemma_rows_len(bytes, w, (y - 1) as nat);
        let row = bytes.subrange((y - 1) * (4 * w), y * (4 * w));
        assert(row.len() == 4 * w);
        assert(mirrored_row(row, w).len() == 4 * w);
    } else {
        assert(y * (4 * w) == 0) by (nonlinear_arith)
            requires
                y == 0,
        ;
    }
}

proof fn lemma_pixel_in_row(w: int, k: int)
    requires
        0 <= k < 4 * w,
    ensures
        0 <= pixel_from(w, k) < 4 * w,
{
    assert(0 <= k / 4 < w) by (nonlinear_arith)
        requires
            0 <= k < 4 * w,
    ;
    assert(0 <= k % 4 < 4) by (nonlinear_arith);
}

proof fn lemma_pixel_twice(w: int, k: int)
    requires
        0 <= k < 4 * w,
    ensures
        pixel_from(w, pixel_from(w, k)) == k,
{
    let q = k / 4;
    let r = k % 4;
    assert(k == q * 4 + r && 0 <= r < 4 && 0 <= q < w) by (nonlinear_arith)
        requires
            0 <= k < 4 * w,
            q == k / 4,
            r == k % 4,
    ;
    let p = (w - 1 - q) * 4 + r;
    assert(p / 4 == w - 1 - q && p % 4 == r) by (nonlinear_arith)
        requires
            p == (w - 1 - q) * 4 + r,
            0 <= r < 4,
            0 <= w - 1 - q,
    ;
}

proof fn lemma_row_split(i: int, y: int, s: int)
    requires
        s > 0,
        y * s <= i < (y + 1) * s,
    ensures
        i / s == y,
        i % s == i - y * s,
{
    assert(i / s == y && i % s == i - y * s) by (nonlinear_arith)
        requires
            s > 0,
            y * s <= i < (y + 1) * s,
    ;
}

proof fn lemma_rows_at(bytes: Seq<u8>, w: int, y: nat, i: int)
    requires
        w >= 1,
        y * (4 * w) <= bytes.len(),
        0 <= i < y * (4 * w),
    ensures
        mirrored_rows(bytes, w, y).len() == y * (4 * w),
        0 <= (i / (4 * w)) * (4 * w) + pixel_from(w, i % (4 * w)) < y * (4 * w),
        mirrored_rows(bytes, w, y)[i] == bytes[(i / (4 * w)) * (4 * w) + pixel_from(w, i % (4 * w))],
    decreases y,
{
    let s = 4 * w;
    lemma_rows_len(bytes, w, y);
    assert((y - 1) * s + s == y * s) by (nonlinear_arith);
    assert(0 <= (y - 1) * s) by (nonlinear_arith)
        requires
            y >= 1,
            s >= 0,
    ;
    if i < (y - 1) * s {
        lemma_rows_at(bytes, w, (y - 1) as nat, i);
        lemma_rows_len(bytes, w, (y - 1) as nat);
    } else {
        lemma_rows_len(bytes, w, (y - 1) as nat);
        lemma_row_split(i, y - 1, s);
        let k = i - (y - 1) * s;
        lemma_pixel_in_row(w, k);
    }
}

/// The pixels of a mirrored image: a byte of the first `h` rows comes from
/// the mirrored place in its row; the bytes after them stay.
proof fn lemma_image_at(bytes: Seq<u8>, w: int, h: nat, i: int)
    requires
        w >= 1,
        h * (4 * w) <= bytes.len(),
        0 <= i < bytes.len(),
    ensures
        mirrored_image(bytes, w, h).len() == bytes.len(),
        i < h * (4 * w) ==> 0 <= (i / (4 * w)) * (4 * w) + pixel_from(w, i % (4 * w)) < h * (4 * w)
            && mirrored_image(bytes, w, h)[i] == bytes[(i / (4 * w)) * (4 * w) + pixel_from(w, i % (4 * w))],
        i >= h * (4 * w) ==> mirrored_image(bytes, w, h)[i] == bytes[i],
{
    lemma_rows_len(bytes, w, h);
    if i < h * (4 * w) {
        lemma_rows_at(bytes, w, h, i);
    }
}

/// Mirroring the raw pixels of an image twice gives them back.
pub proof fn law_mirror_twice(bytes: Seq<u8>, w: int, h: nat)
    requires
        w >= 0,
        h * (4 * w) <= bytes.len(),
    ensures
        mirrored_image(mirrored_image(bytes, w, h), w, h) == bytes,
{
    if w == 0 {
        assert(h * (4 * w) == 0) by (nonlinear_arith)
            requires
                w == 0,
        ;
        assert(mirrored_rows(bytes, w, h) =~= Seq::<u8>::empty()) by {
            lemma_rows_len(bytes, w, h);
        }
        let m = mirrored_image(bytes, w, h);
        assert(m =~= bytes);
        assert(mirrored_rows(m, w, h) =~= Seq::<u8>::empty()) by {
            lemma_rows_len(m, w, h);
        }
        assert(mirrored_image(m, w, h) =~= bytes);
    } else {
        let s = 4 * w;
        let m = mirrored_image(bytes, w, h);
        lemma_rows_len(bytes, w, h);
        assert(m.len() == bytes.len());
        assert forall|i: int| 0 <= i < bytes.len() implies #[trigger] mirrored_image(m, w, h)[i] == bytes[i] by {
            lemma_image_at(m, w, h, i);
            if i < h * s {
                let y = i / s;
                let k = i % s;
                let j = y * s + pixel_from(w, k);
                assert(0 <= k < s && i == y * s + k) by (nonlinear_arith)
                    requires
                        s > 0,
                        0 <= i,
                        y == i / s,
                        k == i % s,
                ;
                lemma_pixel_in_row(w, k);
                assert((y + 1) * s == y * s + s) by (nonlinear_arith);
                lemma_row_split(j, y, s);
                lemma_image_at(bytes, w, h, j);
                lemma_pixel_twice(w, k);
            } else {
                lemma_image_at(bytes, w, h, i);
            }
        }
        assert(mirrored_image(m, w, h) =~= bytes) by {
            if bytes.len() > 0 {
                lemma_image_at(m, w, h, 0);
            } else {
                lemma_rows_len(m, w, h);
            }
        }
    }
}

/// Whether a frame holds raw four-byte pixels (format 32) whose payload is
/// the standard base64 encoding of `bytes`, which fill its rows.
pub open spec fn pixels_encoded(f: SpriteFrame, bytes: Seq<u8>) -> bool {
    &&& f.format == 32
    &&& f.width * 4 <= u32::MAX
    &&& f.height * (f.width * 4) <= bytes.len()
    &&& encodable(bytes)
    &&& f.payload@ == base64_encoded(bytes)
}

/// Whether `g` is the frame `f` mirrored left to right: same size and
/// format, the payload that `flipped_payload` gives, and, where `f` holds
/// encoded raw pixels, the encoding of those pixels mirrored.
pub open spec fn is_flip_of(g: SpriteFrame, f: SpriteFrame) -> bool {
    &&& g.width == f.width && g.height == f.height && g.format == f.format
    &&& g.payload@ == flipped_payload(f)
    &&& forall|b: Seq<u8>| #[trigger] pixels_encoded(f, b)
        ==> g.payload@ == base64_encoded(mirrored_image(b, f.width as int, f.height as nat))
}

/// Whether `t` is the sprite `s` with every frame mirrored.
pub open spec fn is_sprite_flip_of(t: SpriteData, s: SpriteData) -> bool {
    &&& t.width == s.width && t.height == s.height
    &&& t.frames@.len() == s.frames@.len()
    &&& forall|i: int| 0 <= i < s.frames@.len() ==> is_flip_of(#[trigger] t.frames@[i], s.frames@[i])
}

/// Flipping a frame of raw pixels twice gives it back: where `f`'s payload
/// is the encoding of its pixels, `g` is `f` flipped and `h` is `g` flipped,
/// `h` has `f`'s payload, size and format.
pub proof fn law_flip_twice(f: SpriteFrame, g: SpriteFrame, h: SpriteFrame, b: Seq<u8>)
    requires
        pixels_encoded(f, b),
        is_flip_of(g, f),
        is_flip_of(h, g),
    ensures
        h.payload@ == f.payload@,
        h.width == f.width && h.height == f.height && h.format == f.format,
{
    let w = f.width as int;
    let ht = f.height as nat;
    assert(f.height * (f.width * 4) == ht * (4 * w)) by (nonlinear_arith)
        requires
            w == f.width,
            ht == f.height,
    ;
    let m = mirrored_image(b, w, ht);
    lemma_rows_len(b, w, ht);
    assert(m.len() == b.len());
    assert(pixels_encoded(g, m));
    law_mirror_twice(b, w, ht);
    assert(mirrored_image(m, w, ht) == b);
}

/// Flipping a sprite of raw-pixel frames twice gives it back: where each
/// frame of `s` holds the encoding of its pixels, `t` is `s` flipped and `u`
/// is `t` flipped, `u` has `s`'s size and each frame's payload, size and
/// format.
pub proof fn law_sprite_flip_twice(s: SpriteData, t: SpriteData, u: SpriteData)
    requires
        forall|i: int| 0 <= i < s.frames@.len() ==> exists|b: Seq<u8>| pixels_encoded(#[trigger] s.frames@[i], b),
        is_sprite_flip_of(t, s),
        is_sprite_flip_of(u, t),
    ensures
        u.width == s.width && u.height == s.height,
        u.frames@.len() == s.frames@.len(),
        forall|i: int| 0 <= i < s.frames@.len() ==> {
            &&& (#[trigger] u.frames@[i]).payload@ == s.frames@[i].payload@
            &&& u.frames@[i].width == s.frames@[i].width
            &&& u.frames@[i].height == s.frames@[i].height
            &&& u.frames@[i].format == s.frames@[i].format
        },
{
    assert forall|i: int| 0 <= i < s.frames@.len() implies {
        &&& (#[trigger] u.frames@[i]).payload@ == s.frames@[i].payload@
        &&& u.frames@[i].width == s.frames@[i].width
        &&& u.frames@[i].height == s.frames@[i].height
        &&& u.frames@[i].format == s.frames@[i].format
    } by {
        let f = s.frames@[i];
        let b = choose|b: Seq<u8>| pixels_encoded(f, b);
        assert(is_flip_of(t.frames@[i], f));
        assert(is_flip_of(u.frames@[i], t.frames@[i]));
        law_flip_twice(f, t.frames@[i], u.frames@[i], b);
    }
}

/// Mirrors `height` rows of `width` four-byte pixels.
pub fn flip_rgba(bytes: &Vec<u8>, width: u32, height: u32) -> (r: Vec<u8>)
    requires
        width * 4 <= u32::MAX,
        height * (width * 4) <= bytes@.len(),
    ensures
        r@ == mirrored_image(bytes@, width as int, height as nat),
        r@.len() == bytes@.len(),
{
    let n = bytes.len();
    let stride: usize = (width * 4) as usize;
    let ghost w = width as int;
    let ghost s = 4 * w;
    let mut out: Vec<u8> = Vec::new();
    let mut y: usize = 0;
    while y < height as usize
        invariant
            stride == s,
            s == 4 * w,
            w == width,
            y <= height,
            height * s <= bytes@.len(),
            n == bytes@.len(),
            out@ == mirrored_rows(bytes@, w, y as nat),
        decreases height as usize - y,
    {
        assert((y + 1) * s <= height * s) by (nonlinear_arith)
            requires
                y + 1 <= height,
                s >= 0,
        ;
        assert(y * s + s == (y + 1) * s) by (nonlinear_arith);
        assert(y * s <= bytes@.len());
        assert(y * stride == y * s);
        let start = y * stride;
        let ghost row = bytes@.subrange(y * s, (y + 1) * s);
        let ghost before = out@;
        let mut k: usize = 0;
        while k < stride
            invariant
                stride == s,
                s == 4 * w,
                w == width,
                start == y * s,
                (y + 1) * s <= bytes@.len(),
                n == bytes@.len(),
                y * s + s == (y + 1) * s,
                row == bytes@.subrange(y * s, (y + 1) * s),
                k <= stride,
                out@ == before + mirrored_row(row, w).take(k as int),
            decreases stride - k,
        {
            proof {
                lemma_pixel_in_row(w, k as int);
                assert(k / 4 < w && k % 4 < 4) by (nonlinear_arith)
                    requires
                        0 <= k < 4 * w,
                ;
                assert(((w - 1 - k / 4) * 4 + k % 4) == pixel_from(w, k as int));
            }
            let x = k / 4;
            assert(x < width);
            assert(start + ((width as usize) - 1 - x) * 4 + k % 4 == y * s + pixel_from(w, k as int));
            assert(y * s + pixel_from(w, k as int) < (y + 1) * s);
            let src = start + ((width as usize) - 1 - x) * 4 + k % 4;
            assert(src == y * s + pixel_from(w, k as int));
            out.push(bytes[src]);
            assert(before + mirrored_row(row, w).take(k + 1) =~= (before + mirrored_row(row, w).take(k as int)).push(row[pixel_from(w, k as int)]));
            k = k + 1;
        }
        assert(mirrored_row(row, w).take(s) =~= mirrored_row(row, w));
        y = y + 1;
    }
    assert(height * s <= bytes@.len());
    assert((height as usize) * stride == height * s);
    let mut j: usize = (height as usize) * stride;
    let ghost base = out@;
    proof {
        lemma_rows_len(bytes@, w, height as nat);
    }
    assert(base + bytes@.subrange(j as int, j as int) =~= base);
    while j < bytes.len()
        invariant
            s == 4 * w,
            w == width,
            0 <= height * s <= j <= bytes@.len(),
            out@ == base + bytes@.subrange(height * s, j as int),
        decreases bytes.len() - j,
    {
        out.push(bytes[j]);
        assert(base + bytes@.subrange(height * s, j + 1) =~= (base + bytes@.subrange(height * s, j as int)).push(bytes@[j as int]));
        j = j + 1;
    }
    out
}

/// The payload of a frame mirrored left to right: raw four-byte pixels
/// (format 32) row by row, other formats through the image codecs. A
/// payload that is not base64, raw pixels that do not fill the frame (or
/// whose row size overflows), and an image that cannot be read or written
/// stay as they are.
pub open spec fn flipped_payload(f: SpriteFrame) -> Seq<char> {
    match base64_decoded(f.payload@) {
        None => f.payload@,
        Some(bytes) => if f.format == 32 {
            if f.width * 4 <= u32::MAX && f.height * (f.width * 4) <= bytes.len() {
                base64_encoded(mirrored_image(bytes, f.width as int, f.height as nat))
            } else {
                f.payload@
            }
        } else {
            match image_mirrored(bytes) {
                Some(png) => base64_encoded(png),
                None => f.payload@,
            }
        },
    }
}

impl SpriteFrame {
    /// The frame mirrored left to right.
    pub fn flipped(&self) -> (r: SpriteFrame)
        ensures
            is_flip_of(r, *self),
            self.format == 32 && self.width * 4 <= u32::MAX ==> match base64_decoded(self.payload@) {
                Some(b) => self.height * (self.width * 4) <= b.len() ==> base64_decoded(r.payload@) == Some(
                    mirrored_image(b, self.width as int, self.height as nat),
                ),
                None => true,
            },
    {
        let bytes = match decode_base64(self.payload.as_str()) {
            Some(b) => b,
            None => return SpriteFrame { payload: self.payload.clone(), width: self.width, height: self.height, format: self.format },
        };
        if self.format == 32 {
            if (self.width as u64) * 4 > u32::MAX as u64 {
                return SpriteFrame { payload: self.payload.clone(), width: self.width, height: self.height, format: self.format };
            }
            let stride = (self.width * 4) as u64;
            assert((self.height as u64) * stride <= 0xFFFF_FFFF * 0xFFFF_FFFF) by (nonlinear_arith)
                requires
                    self.height <= 0xFFFF_FFFF,
                    stride <= 0xFFFF_FFFF,
            ;
            if (self.height as u64) * stride > bytes.len() as u64 {
                return SpriteFrame { payload: self.payload.clone(), width: self.width, height: self.height, format: self.format };
            }
            let mirrored = flip_rgba(&bytes, self.width, self.height);
            proof {
                lemma_encodable(bytes@.len() as int);
            }
            SpriteFrame { payload: encode_base64(mirrored.as_slice()), width: self.width, height: self.height, format: self.format }
        } else {
            match mirror_image(bytes.as_slice()) {
                Some(png) => {
                    proof {
                        lemma_encodable(png@.len() as int);
                    }
                    SpriteFrame { payload: encode_base64(png.as_slice()), width: self.width, height: self.height, format: self.format }
                },
                None => SpriteFrame { payload: self.payload.clone(), width: self.width, height: self.height, format: self.format },
            }
        }
    }
}

impl SpriteData {
    /// Every frame mirrored left to right.
    pub fn flipped(&self) -> (r: SpriteData)
        ensures
            is_sprite_flip_of(r, *self),
    {
        let mut frames: Vec<SpriteFrame> = Vec::new();
        let mut i: usize = 0;
        while i < self.frames.len()
            invariant
                i <= self.frames@.len(),
                frames@.len() == i,
                forall|k: int| 0 <= k < i ==> is_flip_of(#[trigger] frames@[k], self.frames@[k]),
            decreases self.frames.len() - i,
        {
            let f = self.frames[i].flipped();
            frames.push(f);
            i = i + 1;
        }
        SpriteData { frames, width: self.width, height: self.height }
    }
}

/// The frames of an animated GIF as read by `image`: width, height and RGBA
/// bytes of each, or the reader's error text.
pub uninterp spec fn gif_frames(bytes: Seq<u8>) -> Result<Seq<(u32, u32, Seq<u8>)>, Seq<char>>;

/// The size of an image as read by `image`, or the reader's error text.
pub uninterp spec fn image_size(bytes: Seq<u8>) -> Result<(u32, u32), Seq<char>>;

pub open spec fn frame_views(v: Seq<(u32, u32, Vec<u8>)>) -> Seq<(u32, u32, Seq<u8>)> {
    v.map_values(|f: (u32, u32, Vec<u8>)| (f.0, f.1, f.2@))
}

/// Calls `image::codecs::gif::GifDecoder::new` on the bytes, then
/// `into_frames().collect_frames()`, and hands out each frame's buffer as
/// its `dimensions()` and raw bytes; an error becomes its `to_string()`. The
/// result is a function of the bytes alone; the contract names it
/// `gif_frames`, and says that each buffer, being a `Vec`, holds at most
/// `isize::MAX` bytes.
#[verifier::external_body]
fn read_gif_frames(bytes: &[u8]) -> (r: Result<Vec<(u32, u32, Vec<u8>)>, String>)
    ensures
        match r {
            Ok(v) => gif_frames(bytes@) == Ok::<Seq<(u32, u32, Seq<u8>)>, Seq<char>>(frame_views(v@))
                && forall|i: int| 0 <= i < v@.len() ==> (#[trigger] v@[i]).2@.len() <= isize::MAX,
            Err(e) => gif_frames(bytes@) == Err::<Seq<(u32, u32, Seq<u8>)>, Seq<char>>(e@),
        },
{
    let decoder = image::codecs::gif::GifDecoder::new(std::io::Cursor::new(bytes)).map_err(|err| err.to_string())?;
    let frames = decoder.into_frames().collect_frames().map_err(|err| err.to_string())?;
    Ok(frames.into_iter().map(|f| {
        let buffer = f.into_buffer();
        (buffer.width(), buffer.height(), buffer.into_raw())
    }).collect())
}

/// Calls `image::load_from_memory` and the image's `dimensions()`; an
/// error becomes its `to_string()`. The contract names the result
/// `image_size`.
#[verifier::external_body]
fn read_image_size(bytes: &[u8]) -> (r: Result<(u32, u32), String>)
    ensures
        match r {
            Ok(d) => image_size(bytes@) == Ok::<(u32, u32), Seq<char>>(d),
            Err(e) => image_size(bytes@) == Err::<(u32, u32), Seq<char>>(e@),
        },
{
    image::load_from_memory(bytes).map(|img| img.dimensions()).map_err(|err| err.to_string())
}

/// Whether `s` starts with `prefix`.
pub open spec fn starts_with_bytes(s: Seq<u8>, prefix: Seq<u8>) -> bool {
    s.len() >= prefix.len() && s.subrange(0, prefix.len() as int) == prefix
}

/// Whether image bytes fetched from `url` are a GIF: the URL ends in
/// `.gif`, or the bytes start with a GIF signature.
pub open spec fn is_gif_spec(bytes: Seq<u8>, url: Seq<char>) -> bool {
    ||| url.len() >= 4 && url.subrange(url.len() - 4, url.len() as int) == seq!['.', 'g', 'i', 'f']
    ||| starts_with_bytes(bytes, seq![71u8, 73u8, 70u8, 56u8, 55u8, 97u8])
    ||| starts_with_bytes(bytes, seq![71u8, 73u8, 70u8, 56u8, 57u8, 97u8])
}

fn starts_with_sig(bytes: &[u8], seventh_old: bool) -> (b: bool)
    ensures
        b == starts_with_bytes(bytes@, seq![71u8, 73u8, 70u8, 56u8, if seventh_old { 55u8 } else { 57u8 }, 97u8]),
{
    let sig: [u8; 6] = [71u8, 73u8, 70u8, 56u8, if seventh_old { 55u8 } else { 57u8 }, 97u8];
    if bytes.len() < 6 {
        return false;
    }
    let mut i: usize = 0;
    while i < 6
        invariant
            bytes@.len() >= 6,
            i <= 6,
            sig@ == seq![71u8, 73u8, 70u8, 56u8, if seventh_old { 55u8 } else { 57u8 }, 97u8],
            forall|k: int| 0 <= k < i ==> bytes@[k] == sig@[k],
        decreases 6 - i,
    {
        if bytes[i] != sig[i] {
            assert(bytes@.subrange(0, 6)[i as int] != sig@[i as int]);
            return false;
        }
        i = i + 1;
    }
    assert(bytes@.subrange(0, 6) =~= sig@);
    true
}

/// Whether bytes fetched from `url` are a GIF.
pub fn is_gif(bytes: &[u8], url: &str) -> (b: bool)
    ensures
        b == is_gif_spec(bytes@, url@),
{
    let u = crate::text::chars_of(url);
    let n = u.len();
    if n >= 4 && u[n - 4] == '.' && u[n - 3] == 'g' && u[n - 2] == 'i' && u[n - 1] == 'f' {
        assert(u@.subrange(n - 4, n as int) =~= seq!['.', 'g', 'i', 'f']);
        return true;
    }
    if n >= 4 {
        let ghost t = u@.subrange(n - 4, n as int);
        assert(t[0] == u@[n - 4] && t[1] == u@[n - 3] && t[2] == u@[n - 2] && t[3] == u@[n - 1]);
    }
    starts_with_sig(bytes, true) || starts_with_sig(bytes, false)
}

/// What decoding the image bytes fetched from `url` gives: a GIF with
/// frames becomes one RGBA frame (format 32) per GIF frame, sized as the
/// first; anything else is read as a still image and kept whole as one
/// frame of format 100; the reader's error text where it fails.
pub open spec fn decoded_as(bytes: Seq<u8>, url: Seq<char>, r: Result<SpriteData, String>) -> bool {
    let still = match image_size(bytes) {
        Err(e) => r matches Err(m) && m@ == e,
        Ok(d) => r matches Ok(s) && s.width == d.0 && s.height == d.1 && s.frames@.len() == 1
            && s.frames@[0].payload@ == base64_encoded(bytes) && s.frames@[0].width == d.0
            && s.frames@[0].height == d.1 && s.frames@[0].format == 100,
    };
    if is_gif_spec(bytes, url) {
        match gif_frames(bytes) {
            Err(e) => r matches Err(m) && m@ == e,
            Ok(fs) => if fs.len() > 0 {
                r matches Ok(s) && s.width == fs[0].0 && s.height == fs[0].1 && s.frames@.len() == fs.len()
                    && forall|i: int| 0 <= i < fs.len() ==> {
                        &&& (#[trigger] s.frames@[i]).payload@ == base64_encoded(fs[i].2)
                        &&& s.frames@[i].width == fs[i].0
                        &&& s.frames@[i].height == fs[i].1
                        &&& s.frames@[i].format == 32
                    }
            } else {
                still
            },
        }
    } else {
        still
    }
}

proof fn lemma_encodable(len: int)
    requires
        0 <= len <= isize::MAX,
    ensures
        (len + 2) / 3 * 4 <= usize::MAX,
{
    assert(isize::MAX * 2 + 1 == usize::MAX) by {
        broadcast use vstd::layout::layout_of_primitives;

        vstd::layout::unsigned_int_max_values();
        vstd::layout::signed_int_min_max_values();
    }
}

/// Decodes image bytes fetched from `url` into a sprite.
pub fn decode_sprite(bytes: &[u8], url: &str) -> (r: Result<SpriteData, String>)
    requires
        bytes@.len() <= isize::MAX,
    ensures
        decoded_as(bytes@, url@, r),
{
    if is_gif(bytes, url) {
        let frames = match read_gif_frames(bytes) {
            Ok(f) => f,
            Err(e) => return Err(e),
        };
        if frames.len() > 0 {
            let mut out: Vec<SpriteFrame> = Vec::new();
            let mut i: usize = 0;
            while i < frames.len()
                invariant
                    i <= frames@.len(),
                    out@.len() == i,
                    forall|k: int| 0 <= k < frames@.len() ==> (#[trigger] frames@[k]).2@.len() <= isize::MAX,
                    forall|k: int| 0 <= k < i ==> {
                        &&& (#[trigger] out@[k]).payload@ == base64_encoded(frames@[k].2@)
                        &&& out@[k].width == frames@[k].0
                        &&& out@[k].height == frames@[k].1
                        &&& out@[k].format == 32
                    },
                decreases frames.len() - i,
            {
                proof {
                    lemma_encodable(frames@[i as int].2@.len() as int);
                }
                let payload = encode_base64(frames[i].2.as_slice());
                out.push(SpriteFrame { payload, width: frames[i].0, height: frames[i].1, format: 32 });
                i = i + 1;
            }
            let width = out[0].width;
            let height = out[0].height;
            return Ok(SpriteData { frames: out, width, height });
        }
    }
    let (width, height) = match read_image_size(bytes) {
        Ok(d) => d,
        Err(e) => return Err(e),
    };
    proof {
        lemma_encodable(bytes@.len() as int);
    }
    let payload = encode_base64(bytes);
    Ok(SpriteData { frames: vec![SpriteFrame { payload, width, height, format: 100 }], width, height })
}

/// The number of bytes `c` takes in UTF-8.
pub open spec fn utf8_width(c: char) -> nat {
    if (c as u32) < 0x80 {
        1
    } else if (c as u32) < 0x800 {
        2
    } else if (c as u32) < 0x10000 {
        3
    } else {
        4
    }
}

/// The number of bytes `s` takes in UTF-8.
pub open spec fn utf8_size(s: Seq<char>) -> nat
    decreases s.len(),
{
    if s.len() == 0 {
        0
    } else {
        utf8_width(s[0]) + utf8_size(s.drop_first())
    }
}

/// How many leading characters of `s` fit in `budget` bytes.
pub open spec fn fitting(s: Seq<char>, budget: int) -> nat
    decreases s.len(),
{
    if s.len() == 0 || utf8_width(s[0]) > budget {
        0
    } else {
        1 + fitting(s.drop_first(), budget - utf8_width(s[0]))
    }
}

/// The text cut into pieces of 4096 bytes each, the last one shorter; none
/// where a cut would fall inside a character.
pub open spec fn kitty_chunks(s: Seq<char>) -> Option<Seq<Seq<char>>>
    decreases s.len(),
{
    if s.len() == 0 {
        Some(seq![])
    } else {
        let k = fitting(s, 4096);
        if k >= s.len() {
            Some(seq![s])
        } else if k > 0 && utf8_size(s.take(k as int)) == 4096 {
            match kitty_chunks(s.skip(k as int)) {
                Some(rest) => Some(seq![s.take(k as int)] + rest),
                None => None,
            }
        } else {
            None
        }
    }
}

pub open spec fn more_flag(more: bool) -> Seq<char> {
    if more {
        "1"@
    } else {
        "0"@
    }
}

/// The cell width given in the control data, where it is not zero.
pub open spec fn cols_part(cols: u16) -> Seq<char> {
    if cols > 0 {
        ",c="@ + dec(cols as nat)
    } else {
        seq![]
    }
}

/// The cell height given in the control data, where it is not zero.
pub open spec fn rows_part(rows: u16) -> Seq<char> {
    if rows > 0 {
        ",r="@ + dec(rows as nat)
    } else {
        seq![]
    }
}

/// The control data of the first piece: format, size, placement id,
/// the cell box where given, and whether more pieces follow.
pub open spec fn kitty_params(frame: SpriteFrame, cols: u16, rows: u16, id: u32, more: bool) -> Seq<char> {
    "f="@ + dec(frame.format as nat) + ",s="@ + dec(frame.width as nat) + ",v="@ + dec(frame.height as nat)
        + ",a=T,t=d,i="@ + dec(id as nat) + cols_part(cols) + rows_part(rows) + ",m="@ + more_flag(more)
}

/// One piece of escape sequence carrying `chunk`: the first with the
/// control data, the others with only whether more follow.
pub open spec fn piece_text(frame: SpriteFrame, cols: u16, rows: u16, id: u32, first: bool, more: bool, chunk: Seq<char>) -> Seq<char> {
    if first {
        "\x1b_G"@ + kitty_params(frame, cols, rows, id, more) + ";"@ + chunk + "\x1b\\"@
    } else {
        "\x1b_Gm="@ + more_flag(more) + ";"@ + chunk + "\x1b\\"@
    }
}

/// Piece `i` of the escape sequences sending `chunks`.
pub open spec fn kitty_piece(frame: SpriteFrame, cols: u16, rows: u16, id: u32, chunks: Seq<Seq<char>>, i: int) -> Seq<char> {
    piece_text(frame, cols, rows, id, i == 0, i + 1 < chunks.len(), chunks[i])
}

/// The first `n` pieces of the escape sequences sending `chunks`.
pub open spec fn kitty_prefix(frame: SpriteFrame, cols: u16, rows: u16, id: u32, chunks: Seq<Seq<char>>, n: int) -> Seq<char>
    decreases n,
{
    if n <= 0 {
        seq![]
    } else {
        kitty_prefix(frame, cols, rows, id, chunks, n - 1) + kitty_piece(frame, cols, rows, id, chunks, n - 1)
    }
}

proof fn lemma_utf8_size_push(t: Seq<char>, c: char)
    ensures
        utf8_size(t.push(c)) == utf8_size(t) + utf8_width(c),
    decreases t.len(),
{
    if t.len() > 0 {
        assert(t.push(c).drop_first() =~= t.drop_first().push(c));
        lemma_utf8_size_push(t.drop_first(), c);
    } else {
        assert(t.push(c).drop_first() =~= t);
    }
}

proof fn lemma_chunks_nonempty(t: Seq<char>)
    requires
        t.len() > 0,
        kitty_chunks(t) is Some,
    ensures
        kitty_chunks(t)->0.len() > 0,
{
}

/// `done` followed by what `later` holds, if it holds anything.
pub open spec fn chunks_after(done: Seq<Seq<char>>, later: Option<Seq<Seq<char>>>) -> Option<Seq<Seq<char>>> {
    match later {
        Some(rest) => Some(done + rest),
        None => None,
    }
}

proof fn lemma_chunks_step(s: Seq<char>, pos: int, j: int, done: Seq<Seq<char>>)
    requires
        0 <= pos < j <= s.len(),
        fitting(s.skip(pos), 4096) == j - pos,
        j < s.len() ==> utf8_size(s.subrange(pos, j)) == 4096,
        kitty_chunks(s) == chunks_after(done, kitty_chunks(s.skip(pos))),
    ensures
        kitty_chunks(s) == chunks_after(done.push(s.subrange(pos, j)), kitty_chunks(s.skip(j))),
        kitty_chunks(s) matches Some(all) ==> {
            &&& all.len() > done.len()
            &&& all[done.len() as int] == s.subrange(pos, j)
            &&& (j < s.len() <==> done.len() + 1 < all.len())
        },
{
    let t = s.skip(pos);
    let c = s.subrange(pos, j);
    assert(t.take(j - pos) =~= c);
    assert(t.skip(j - pos) =~= s.skip(j));
    if j == s.len() {
        assert(t =~= c);
        assert(kitty_chunks(t) == Some(seq![c]));
        assert(s.skip(j).len() == 0);
        assert(kitty_chunks(s.skip(j)) == Some(Seq::<Seq<char>>::empty()));
        assert(done + seq![c] =~= done.push(c) + Seq::<Seq<char>>::empty());
    } else {
        match kitty_chunks(s.skip(j)) {
            Some(rest) => {
                assert(kitty_chunks(t) == Some(seq![c] + rest));
                assert(done + (seq![c] + rest) =~= done.push(c) + rest);
                lemma_chunks_nonempty(s.skip(j));
            },
            None => {},
        }
    }
}

proof fn lemma_chunks_refused(t: Seq<char>, k: int)
    requires
        fitting(t, 4096) == k,
        k < t.len(),
        !(k > 0 && utf8_size(t.take(k)) == 4096),
    ensures
        kitty_chunks(t) is None,
{
}

fn flag_text(more: bool) -> (t: &'static str)
    ensures
        t@ == more_flag(more),
{
    if more { "1" } else { "0" }
}

fn box_part(key: &str, v: u16) -> (t: String)
    ensures
        v > 0 ==> t@ == key@ + dec(v as nat),
        v == 0 ==> t@ == Seq::<char>::empty(),
{
    let mut t = String::new();
    if v > 0 {
        crate::text::push_str(&mut t, key);
        crate::text::push_str(&mut t, crate::text::dec_u64(v as u64).as_str());
        assert(t@ =~= key@ + dec(v as nat));
    }
    t
}

fn params_text(frame: &SpriteFrame, cols: u16, rows: u16, id: u32, more: bool) -> (t: String)
    ensures
        t@ == kitty_params(*frame, cols, rows, id, more),
{
    let mut t = String::new();
    crate::text::push_str(&mut t, "f=");
    assert(t@ =~= "f="@);
    crate::text::push_str(&mut t, crate::text::dec_u64(frame.format as u64).as_str());
    crate::text::push_str(&mut t, ",s=");
    crate::text::push_str(&mut t, crate::text::dec_u64(frame.width as u64).as_str());
    crate::text::push_str(&mut t, ",v=");
    crate::text::push_str(&mut t, crate::text::dec_u64(frame.height as u64).as_str());
    crate::text::push_str(&mut t, ",a=T,t=d,i=");
    crate::text::push_str(&mut t, crate::text::dec_u64(id as u64).as_str());
    let c = box_part(",c=", cols);
    crate::text::push_str(&mut t, c.as_str());
    let r = box_part(",r=", rows);
    crate::text::push_str(&mut t, r.as_str());
    crate::text::push_str(&mut t, ",m=");
    crate::text::push_str(&mut t, flag_text(more));
    t
}

fn push_piece(out: &mut String, frame: &SpriteFrame, cols: u16, rows: u16, id: u32, first: bool, more: bool, chunk: &str)
    ensures
        final(out)@ == old(out)@ + piece_text(*frame, cols, rows, id, first, more, chunk@),
{
    let mut piece = String::new();
    if first {
        crate::text::push_str(&mut piece, "\x1b_G");
        assert(piece@ =~= "\x1b_G"@);
        let p = params_text(frame, cols, rows, id, more);
        crate::text::push_str(&mut piece, p.as_str());
    } else {
        crate::text::push_str(&mut piece, "\x1b_Gm=");
        assert(piece@ =~= "\x1b_Gm="@);
        crate::text::push_str(&mut piece, flag_text(more));
    }
    crate::text::push_str(&mut piece, ";");
    crate::text::push_str(&mut piece, chunk);
    crate::text::push_str(&mut piece, "\x1b\\");
    crate::text::push_str(out, piece.as_str());
}

fn utf8_width_of(c: char) -> (w: u64)
    ensures
        w == utf8_width(c),
{
    let v = c as u32;
    if v < 0x80 {
        1
    } else if v < 0x800 {
        2
    } else if v < 0x10000 {
        3
    } else {
        4
    }
}

/// The terminal graphics escape sequences that show `frame` as image `id`,
/// in a box of `cols` by `rows` cells where they are not zero: the payload
/// sent in pieces of 4096 bytes. A payload that a piece boundary would cut
/// inside a character is refused.
pub fn kitty_sequence(frame: &SpriteFrame, cols: u16, rows: u16, id: u32) -> (r: Result<String, String>)
    ensures
        match kitty_chunks(frame.payload@) {
            Some(chunks) => r matches Ok(t) && t@ == kitty_prefix(*frame, cols, rows, id, chunks, chunks.len() as int),
            None => r is Err,
        },
{
    let s = crate::text::chars_of(frame.payload.as_str());
    let n = s.len();
    let mut out = String::new();
    let mut pos: usize = 0;
    let mut index: usize = 0;
    let ghost mut done: Seq<Seq<char>> = seq![];
    assert(s@.skip(0) =~= s@);
    while pos < n
        invariant
            s@ == frame.payload@,
            n == s@.len(),
            pos <= n,
            index == done.len(),
            index <= pos,
            kitty_chunks(s@) == chunks_after(done, kitty_chunks(s@.skip(pos as int))),
            match kitty_chunks(s@) {
                Some(all) => out@ == kitty_prefix(*frame, cols, rows, id, all, index as int),
                None => true,
            },
        decreases n - pos,
    {
        let ghost t = s@.skip(pos as int);
        let mut j: usize = pos;
        let mut used: u64 = 0;
        assert(s@.subrange(pos as int, pos as int) =~= Seq::<char>::empty());
        while j < n && used + utf8_width_of(s[j]) <= 4096
            invariant
                pos <= j <= n,
                n == s@.len(),
                t == s@.skip(pos as int),
                used <= 4096,
                used == utf8_size(s@.subrange(pos as int, j as int)),
                fitting(t, 4096) == (j - pos) + fitting(s@.skip(j as int), 4096 - used),
            decreases n - j,
        {
            let w = utf8_width_of(s[j]);
            proof {
                assert(s@.skip(j as int).drop_first() =~= s@.skip(j + 1));
                assert(s@.skip(j as int)[0] == s@[j as int]);
                assert(s@.subrange(pos as int, j + 1) =~= s@.subrange(pos as int, j as int).push(s@[j as int]));
                lemma_utf8_size_push(s@.subrange(pos as int, j as int), s@[j as int]);
            }
            used = used + w;
            j = j + 1;
        }
        proof {
            if j < n {
                assert(s@.skip(j as int)[0] == s@[j as int]);
            }
        }
        if j < n && !(j > pos && used == 4096) {
            proof {
                assert(t.take(j - pos) =~= s@.subrange(pos as int, j as int));
                lemma_chunks_refused(t, j - pos);
            }
            return Err(crate::text::owned("sprite payload splits a character at a piece boundary"));
        }
        let more = j < n;
        let chunk = crate::text::string_of(&s, pos, j);
        let ghost before = out@;
        push_piece(&mut out, frame, cols, rows, id, index == 0, more, chunk.as_str());
        proof {
            let c = s@.subrange(pos as int, j as int);
            lemma_chunks_step(s@, pos as int, j as int, done);
            match kitty_chunks(s@) {
                Some(all) => {
                    assert(out@ =~= before + kitty_piece(*frame, cols, rows, id, all, index as int));
                },
                None => {},
            }
            done = done.push(c);
        }
        pos = j;
        index = index + 1;
    }
    proof {
        assert(s@.skip(n as int).len() == 0);
        assert(done + Seq::<Seq<char>>::empty() =~= done);
    }
    Ok(out)
}

} // verus!
