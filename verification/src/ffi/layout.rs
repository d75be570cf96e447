//! Page images and detections as C callers pass and get them.

use vstd::arithmetic::div_mod::*;
use vstd::prelude::*;
use vstd::utf8::{decode_utf8, valid_utf8};

use crate::ffi::{
    arg_str, backend_from, backend_of, inference_backend_config, inference_status, is_report,
    law_status_and_last_error_agree, lemma_backend_refusals_speak, lemma_something_is_kept, report,
    Backend, CallEnd, CallReport, Failure,
};
use crate::text::{decimal, push_decimal, push_signed, signed_decimal};

verus! {

/// The largest image that is accepted, in pixels.
pub const MAX_IMAGE_PIXELS: usize = 268435456;

/// The bits of the number that asks for the default threshold: minus one.
pub const INFERENCE_LAYOUT_DEFAULT_THRESHOLD: u32 = 0xBF800000;

/// The bits of the default threshold: one half.
pub const DEFAULT_THRESHOLD: u32 = 0x3F000000;

/// The bits of one, the largest threshold.
pub const LARGEST_THRESHOLD: u32 = 0x3F800000;

/// The bits of minus zero, which is zero.
pub const MINUS_ZERO: u32 = 0x80000000;

pub const INFERENCE_PIXEL_RGB8: i32 = 0;

pub const INFERENCE_PIXEL_BGR8: i32 = 1;

pub const INFERENCE_PIXEL_RGBA8: i32 = 2;

pub const INFERENCE_PIXEL_BGRA8: i32 = 3;

pub const INFERENCE_PIXEL_GRAY8: i32 = 4;

/// An image of a caller.
#[derive(Debug)]
#[allow(non_camel_case_types)]
pub struct inference_image<'a> {
    /// What the caller holds. It is only read.
    pub pixels: Option<&'a [u8]>,
    pub width: u32,
    pub height: u32,
    /// The bytes from row to row. Zero stands for rows without a gap.
    pub stride: u32,
    pub format: i32,
}

/// The bytes of a pixel, and where its colours stand.
#[derive(Debug, Clone, Copy, PartialEq, Eq, Structural)]
pub struct PixelLayout {
    pub bpp: usize,
    pub r: usize,
    pub g: usize,
    pub b: usize,
}

impl PixelLayout {
    /// Where a colour stands.
    pub open spec fn at(self, colour: int) -> int {
        if colour == 0 {
            self.r as int
        } else if colour == 1 {
            self.g as int
        } else {
            self.b as int
        }
    }
}

/// The layout of a pixel format, if there is such a format.
pub open spec fn layout_of(format: i32) -> Option<PixelLayout> {
    if format == INFERENCE_PIXEL_RGB8 {
        Some(PixelLayout { bpp: 3, r: 0, g: 1, b: 2 })
    } else if format == INFERENCE_PIXEL_BGR8 {
        Some(PixelLayout { bpp: 3, r: 2, g: 1, b: 0 })
    } else if format == INFERENCE_PIXEL_RGBA8 {
        Some(PixelLayout { bpp: 4, r: 0, g: 1, b: 2 })
    } else if format == INFERENCE_PIXEL_BGRA8 {
        Some(PixelLayout { bpp: 4, r: 2, g: 1, b: 0 })
    } else if format == INFERENCE_PIXEL_GRAY8 {
        Some(PixelLayout { bpp: 1, r: 0, g: 0, b: 0 })
    } else {
        None
    }
}

/// The layout of a pixel format.
pub fn pixel_layout(format: i32) -> (r: Result<PixelLayout, Failure>)
    ensures
        match (r, layout_of(format)) {
            (Ok(layout), Some(wanted)) => layout == wanted,
            (Err(f), None) => f.refuses(
                "unknown pixel format "@ + signed_decimal(format as int),
            ),
            _ => false,
        },
{
    if format == INFERENCE_PIXEL_RGB8 {
        Ok(PixelLayout { bpp: 3, r: 0, g: 1, b: 2 })
    } else if format == INFERENCE_PIXEL_BGR8 {
        Ok(PixelLayout { bpp: 3, r: 2, g: 1, b: 0 })
    } else if format == INFERENCE_PIXEL_RGBA8 {
        Ok(PixelLayout { bpp: 4, r: 0, g: 1, b: 2 })
    } else if format == INFERENCE_PIXEL_BGRA8 {
        Ok(PixelLayout { bpp: 4, r: 2, g: 1, b: 0 })
    } else if format == INFERENCE_PIXEL_GRAY8 {
        Ok(PixelLayout { bpp: 1, r: 0, g: 0, b: 0 })
    } else {
        let mut text: String = "unknown pixel format ".to_string();
        push_signed(&mut text, format);
        Err(Failure::invalid(text))
    }
}

/// An image in red, green and blue, without gaps.
#[derive(Debug)]
pub struct RgbPixels {
    pub width: u32,
    pub height: u32,
    pub data: Vec<u8>,
}

impl<'a> inference_image<'a> {
    /// The bytes of a row.
    pub open spec fn row_bytes(self) -> int {
        self.width * (layout_of(self.format)->0).bpp
    }

    /// The bytes from row to row.
    pub open spec fn step(self) -> int {
        if self.stride == 0 {
            self.row_bytes()
        } else {
            self.stride as int
        }
    }

    /// Why the image is refused, if it is.
    pub open spec fn refusal(self) -> Option<Seq<char>> {
        let w = decimal(self.width as nat);
        let h = decimal(self.height as nat);
        if self.pixels is None {
            Some("image.pixels is NULL"@)
        } else if self.width == 0 || self.height == 0 {
            Some("image is "@ + w + "x"@ + h)
        } else if layout_of(self.format) is None {
            Some("unknown pixel format "@ + signed_decimal(self.format as int))
        } else if self.row_bytes() > usize::MAX {
            Some("image row size overflows"@)
        } else if self.step() < self.row_bytes() {
            Some(
                "stride "@ + decimal(self.step() as nat) + " is smaller than a "@ + decimal(
                    self.row_bytes() as nat,
                ) + "-byte row"@,
            )
        } else if self.width * self.height > MAX_IMAGE_PIXELS {
            Some("image "@ + w + "x"@ + h + " exceeds 268435456 pixels"@)
        } else {
            None
        }
    }

    /// The pixels of an image that is not refused are there.
    pub open spec fn readable(self) -> bool {
        self.refusal() is None ==> self.step() * (self.height - 1) + self.row_bytes()
            <= self.pixels->0@.len()
    }

    /// The number that belongs at a place of the image in red, green and blue.
    pub open spec fn colour_at(self, i: int) -> u8 {
        let layout = layout_of(self.format)->0;
        let pixel = i / 3;
        let y = pixel / self.width as int;
        let x = pixel % self.width as int;
        self.pixels->0@[y * self.step() + x * layout.bpp + layout.at(i % 3)]
    }
}

/// The bytes of an image with the given sides, by `image::RgbImage::from_raw` and
/// `into_raw`: of sides that are not zero there is such an image exactly where the buffer
/// holds three bytes per pixel, and its bytes are those of the buffer. (Without rows, a width
/// whose bytes do not fit a machine word is refused too, so such sides are left out.)
#[verifier::external_body]
fn rgb_image(width: u32, height: u32, data: Vec<u8>) -> (r: Option<Vec<u8>>)
    requires
        width > 0,
        height > 0,
    ensures
        match r {
            Some(bytes) => width * height * 3 <= data@.len() && bytes@ == data@,
            None => width * height * 3 > data@.len(),
        },
{
    image::RgbImage::from_raw(width, height, data).map(|img| img.into_raw())
}

/// The failure of an image that does not fit in memory.
pub open spec fn memory_text(width: u32, height: u32) -> Seq<char> {
    "out of memory for a "@ + decimal(width as nat) + "x"@ + decimal(height as nat) + " image"@
}

fn push_sides(text: &mut String, width: u32, height: u32)
    ensures
        final(text)@ == old(text)@ + decimal(width as nat) + "x"@ + decimal(height as nat),
{
    push_decimal(text, width as usize);
    text.append("x");
    push_decimal(text, height as usize);
}

proof fn lemma_read(img: inference_image, i: int)
    requires
        img.refusal() is None,
        img.readable(),
        0 <= i < img.width * img.height * 3,
    ensures
        ({
            let layout = layout_of(img.format)->0;
            let pixel = i / 3;
            let y = pixel / img.width as int;
            let x = pixel % img.width as int;
            &&& 0 <= y < img.height
            &&& 0 <= x < img.width
            &&& 0 <= y * img.step()
            &&& 0 <= x * layout.bpp
            &&& y * img.step() + x * layout.bpp + layout.at(i % 3) < img.pixels->0@.len()
        }),
{
    let layout = layout_of(img.format)->0;
    let w = img.width as int;
    let h = img.height as int;
    let pixel = i / 3;
    let y = pixel / w;
    let x = pixel % w;
    lemma_mod_pos_bound(pixel, w);
    assert(0 <= pixel < w * h);
    assert(0 <= y < h) by (nonlinear_arith)
        requires
            0 <= pixel < w * h,
            w > 0,
            y == pixel / w,
    ;
    let s = img.step();
    let b = layout.bpp as int;
    let o = layout.at(i % 3);
    assert(0 <= y * s && y * s <= s * (h - 1)) by (nonlinear_arith)
        requires
            0 <= y <= h - 1,
            s >= 0,
    ;
    assert(0 <= x * b && x * b + b <= w * b) by (nonlinear_arith)
        requires
            0 <= x,
            x + 1 <= w,
            b >= 0,
    ;
    assert(o < b);
}

/// Why an image is refused, if it is.
fn check_image(img: &inference_image) -> (r: Result<PixelLayout, Failure>)
    ensures
        match (r, img.refusal()) {
            (Ok(layout), None) => layout_of(img.format) == Some(layout),
            (Err(f), Some(text)) => f.refuses(text),
            _ => false,
        },
{
    if img.pixels.is_none() {
        return Err(Failure::invalid("image.pixels is NULL".to_string()));
    }
    if img.width == 0 || img.height == 0 {
        let mut text: String = "image is ".to_string();
        push_sides(&mut text, img.width, img.height);
        return Err(Failure::invalid(text));
    }
    let layout: PixelLayout = match pixel_layout(img.format) {
        Ok(layout) => layout,
        Err(f) => {
            return Err(f);
        },
    };
    let (w, h): (usize, usize) = (img.width as usize, img.height as usize);
    let row_bytes: usize = match w.checked_mul(layout.bpp) {
        Some(n) => n,
        None => {
            return Err(Failure::invalid("image row size overflows".to_string()));
        },
    };
    let stride: usize = if img.stride == 0 {
        row_bytes
    } else {
        img.stride as usize
    };
    if stride < row_bytes {
        let mut text: String = "stride ".to_string();
        push_decimal(&mut text, stride);
        text.append(" is smaller than a ");
        push_decimal(&mut text, row_bytes);
        text.append("-byte row");
        return Err(Failure::invalid(text));
    }
    let too_large: bool = match w.checked_mul(h) {
        Some(n) => n > MAX_IMAGE_PIXELS,
        None => true,
    };
    if too_large {
        let mut text: String = "image ".to_string();
        push_sides(&mut text, img.width, img.height);
        text.append(" exceeds 268435456 pixels");
        return Err(Failure::invalid(text));
    }
    Ok(layout)
}

/// The bytes of a copy of an image in red, green and blue.
pub fn rgb_bytes(img: &inference_image) -> (n: usize)
    requires
        img.refusal() is None,
    ensures
        n == img.width * img.height * 3,
{
    img.width as usize * img.height as usize * 3
}

/// An empty list with room for so many bytes, by `Vec::try_reserve_exact`, or none where
/// that fails: room holds nothing yet. Whether there is memory for it depends on the
/// machine, and is left unsaid.
#[verifier::external_body]
fn reserve(n: usize) -> (r: Option<Vec<u8>>)
    ensures
        r matches Some(room) ==> room@.len() == 0,
{
    let mut room: Vec<u8> = Vec::new();
    match room.try_reserve_exact(n) {
        Ok(()) => Some(room),
        Err(_) => None,
    }
}

/// That is what came of asking for memory for so many bytes: room for them, or none.
pub closed spec fn reserved(n: int, room: Option<Vec<u8>>) -> bool {
    call_ensures(reserve, (n as usize,), room)
}

/// The failure for lack of memory.
fn memory_failure(img: &inference_image) -> (r: Failure)
    ensures
        r.says(inference_status::INFERENCE_ERR_RUNTIME, memory_text(img.width, img.height)),
{
    let mut text: String = "out of memory for a ".to_string();
    push_sides(&mut text, img.width, img.height);
    text.append(" image");
    Failure::new(inference_status::INFERENCE_ERR_RUNTIME, text)
}

/// Copies a caller's image into the room that was got for it. Without room, the failure
/// says so.
pub fn copy_rgb(img: &inference_image, room: Option<Vec<u8>>) -> (r: Result<RgbPixels, Failure>)
    requires
        img.refusal() is None,
        img.readable(),
        room matches Some(list) ==> list@.len() == 0,
    ensures
        match room {
            Some(_) => r matches Ok(rgb) && is_copy(rgb, *img),
            None => r matches Err(f) && f.says(
                inference_status::INFERENCE_ERR_RUNTIME,
                memory_text(img.width, img.height),
            ),
        },
{
    let mut out: Vec<u8> = match room {
        Some(list) => list,
        None => {
            return Err(memory_failure(img));
        },
    };
    let layout: PixelLayout = match pixel_layout(img.format) {
        Ok(layout) => layout,
        Err(f) => {
            return Err(f);
        },
    };
    let w: usize = img.width as usize;
    let stride: usize = if img.stride == 0 {
        w * layout.bpp
    } else {
        img.stride as usize
    };
    let n: usize = rgb_bytes(img);
    if let Some(pixels) = img.pixels {
        let mut i: usize = 0;
        while i < n
            invariant
                i <= n == img.width * img.height * 3,
                img.refusal() is None,
                img.readable(),
                layout_of(img.format) == Some(layout),
                w == img.width,
                stride == img.step(),
                pixels@ == img.pixels->0@,
                out@.len() == i,
                forall|j: int| 0 <= j < i ==> #[trigger] out@[j] == img.colour_at(j),
            decreases n - i,
        {
            let pixel: usize = i / 3;
            let colour: usize = i % 3;
            let at: usize = if colour == 0 {
                layout.r
            } else if colour == 1 {
                layout.g
            } else {
                layout.b
            };
            proof {
                lemma_read(*img, i as int);
                let count: usize = pixels.len();
                assert(count == pixels@.len());
            }
            out.push(pixels[pixel / w * stride + pixel % w * layout.bpp + at]);
            i += 1;
        }
    }
    let data: Vec<u8> = match rgb_image(img.width, img.height, out) {
        Some(bytes) => bytes,
        None => {
            return Err(Failure::invalid("image buffer size mismatch".to_string()));
        },
    };
    Ok(RgbPixels { width: img.width, height: img.height, data })
}

/// Copies a caller's image into one in red, green and blue. Memory is asked for once, for
/// the bytes of the copy; whether there is any depends on the machine.
pub fn to_rgb(img: &inference_image) -> (r: Result<RgbPixels, Failure>)
    requires
        img.readable(),
    ensures
        match img.refusal() {
            Some(text) => r matches Err(f) && f.refuses(text),
            None => exists|room: Option<Vec<u8>>| #[trigger]
                reserved(img.width * img.height * 3, room) && match room {
                    Some(_) => r matches Ok(rgb) && is_copy(rgb, *img),
                    None => r matches Err(f) && f.says(
                        inference_status::INFERENCE_ERR_RUNTIME,
                        memory_text(img.width, img.height),
                    ),
                },
        },
{
    match check_image(img) {
        Ok(_) => {},
        Err(f) => {
            return Err(f);
        },
    }
    let room: Option<Vec<u8>> = reserve(rgb_bytes(img));
    assert(reserved(img.width * img.height * 3, room));
    copy_rgb(img, room)
}

/// The number of a colour in a pixel of an image.
pub open spec fn pixel(img: inference_image, y: int, x: int, colour: int) -> u8 {
    let layout = layout_of(img.format)->0;
    img.pixels->0@[y * img.step() + x * layout.bpp + layout.at(colour)]
}

/// Row padding and the order of colours do not matter: two images with the same sides and
/// the same colours in each pixel are copied alike, whatever their formats and strides.
pub proof fn law_padding_and_order_do_not_matter(
    a: inference_image,
    b: inference_image,
    copy_a: RgbPixels,
    copy_b: RgbPixels,
)
    requires
        a.width == b.width,
        a.height == b.height,
        forall|y: int, x: int, colour: int|
            0 <= y < a.height && 0 <= x < a.width && 0 <= colour < 3 ==> #[trigger] pixel(
                a,
                y,
                x,
                colour,
            ) == pixel(b, y, x, colour),
        is_copy(copy_a, a),
        is_copy(copy_b, b),
    ensures
        copy_a.width == copy_b.width,
        copy_a.height == copy_b.height,
        copy_a.data@ == copy_b.data@,
{
    let w = a.width as int;
    let h = a.height as int;
    assert forall|i: int| 0 <= i < w * h * 3 implies copy_a.data@[i] == copy_b.data@[i] by {
        let at = i / 3;
        let y = at / w;
        let x = at % w;
        lemma_mod_pos_bound(at, w);
        assert(0 <= y < h) by (nonlinear_arith)
            requires
                0 <= at < w * h,
                w > 0,
                y == at / w,
        ;
        assert(copy_a.data@[i] == pixel(a, y, x, i % 3));
        assert(copy_b.data@[i] == pixel(b, y, x, i % 3));
    }
    assert(copy_a.data@ =~= copy_b.data@);
}

/// The threshold that a caller's number asks for, by the bits of both. The number is the
/// default's, or from zero to one.
pub open spec fn threshold_of(bits: u32) -> Option<u32> {
    if bits == INFERENCE_LAYOUT_DEFAULT_THRESHOLD {
        Some(DEFAULT_THRESHOLD)
    } else if bits <= LARGEST_THRESHOLD || bits == MINUS_ZERO {
        Some(bits)
    } else {
        None
    }
}

/// The text of the refusal of a threshold that reads as given.
pub open spec fn threshold_text(shown: Seq<char>) -> Seq<char> {
    "threshold "@ + shown
        + " is outside [0, 1] (pass INFERENCE_LAYOUT_DEFAULT_THRESHOLD for the default)"@
}

/// The threshold that a caller's number asks for. The number comes as its bits, and as
/// it reads.
pub fn threshold_arg(bits: u32, shown: &str) -> (r: Result<u32, Failure>)
    ensures
        match (r, threshold_of(bits)) {
            (Ok(threshold), Some(wanted)) => threshold == wanted,
            (Err(f), None) => f.refuses(threshold_text(shown@)),
            _ => false,
        },
{
    if bits == INFERENCE_LAYOUT_DEFAULT_THRESHOLD {
        return Ok(DEFAULT_THRESHOLD);
    }
    if bits <= LARGEST_THRESHOLD || bits == MINUS_ZERO {
        return Ok(bits);
    }
    let mut text: String = "threshold ".to_string();
    text.append(shown);
    text.append(" is outside [0, 1] (pass INFERENCE_LAYOUT_DEFAULT_THRESHOLD for the default)");
    Err(Failure::invalid(text))
}

/// What a model is loaded from and runs on.
#[derive(Debug)]
pub struct LoadRequest {
    pub dir: String,
    pub backend: Backend,
}

/// Why a load is refused before anything is read: for lack of a place for the model, then
/// for the directory, then for the backend.
pub open spec fn load_refusal(
    has_out: bool,
    model_dir: Option<&Vec<u8>>,
    config: Option<&inference_backend_config>,
    cuda: bool,
    metal: bool,
) -> Option<(inference_status, Seq<char>)> {
    let invalid = inference_status::INFERENCE_ERR_INVALID_ARGUMENT;
    if !has_out {
        Some((invalid, "out_model is NULL"@))
    } else if model_dir is None {
        Some((invalid, "model_dir is NULL"@))
    } else if !valid_utf8(model_dir->0@) {
        Some((invalid, "model_dir is not valid UTF-8"@))
    } else {
        match backend_of(config, cuda, metal) {
            Ok(_) => None,
            Err(e) => Some(e),
        }
    }
}

/// Checks the arguments of a load. Nothing is read yet.
pub fn check_load(
    has_out: bool,
    model_dir: Option<&Vec<u8>>,
    config: Option<&inference_backend_config>,
    cuda: bool,
    metal: bool,
) -> (r: Result<LoadRequest, Failure>)
    ensures
        match load_refusal(has_out, model_dir, config, cuda, metal) {
            Some((status, text)) => r matches Err(f) && f.says(status, text) && f.speaks(),
            None => r matches Ok(request) && request.dir@ == decode_utf8(model_dir->0@) && Ok::<
                Backend,
                (inference_status, Seq<char>),
            >(request.backend) == backend_of(config, cuda, metal),
        },
{
    proof {
        reveal_strlit("out_model is NULL");
        lemma_something_is_kept("out_model is NULL"@, 0);
    }
    if !has_out {
        return Err(Failure::invalid("out_model is NULL".to_string()));
    }
    proof {
        reveal_strlit("model_dir");
        reveal_strlit(" is NULL");
        reveal_strlit(" is not valid UTF-8");
        reveal_strlit("model_dir is NULL");
        reveal_strlit("model_dir is not valid UTF-8");
        assert("model_dir"@ + " is NULL"@ =~= "model_dir is NULL"@);
        assert("model_dir"@ + " is not valid UTF-8"@ =~= "model_dir is not valid UTF-8"@);
        lemma_something_is_kept("model_dir is NULL"@, 0);
        lemma_something_is_kept("model_dir is not valid UTF-8"@, 0);
        lemma_backend_refusals_speak(config, cuda, metal);
    }
    let dir: String = match arg_str(model_dir, "model_dir") {
        Ok(text) => text,
        Err(f) => {
            return Err(f);
        },
    };
    match backend_from(config, cuda, metal) {
        Ok(backend) => Ok(LoadRequest { dir, backend }),
        Err(f) => Err(f),
    }
}

/// The failure of a load, with the directory and what went wrong.
pub fn load_failure(dir: &str, detail: &str) -> (r: Failure)
    ensures
        r.says(inference_status::INFERENCE_ERR_LOAD_FAILED, dir@ + ": "@ + detail@),
        r.speaks(),
{
    proof {
        reveal_strlit(": ");
        let said = dir@ + ": "@ + detail@;
        assert(said[dir@.len() as int] == ':');
        lemma_something_is_kept(said, dir@.len() as int);
    }
    let mut text: String = dir.to_string();
    text.append(": ");
    text.append(detail);
    Failure::new(inference_status::INFERENCE_ERR_LOAD_FAILED, text)
}

/// What a caller gets of a load: the report, and what stands in the place for the model, if
/// there is a place.
#[derive(Debug)]
pub struct LoadEnd {
    pub report: CallReport,
    /// Whether the place holds a model afterwards. It holds none where the load failed,
    /// whatever it held before.
    pub holds_model: Option<bool>,
}

/// Ends a load.
pub fn end_load(has_out: bool, end: CallEnd) -> (r: LoadEnd)
    ensures
        is_report(r.report, end),
        r.holds_model == (if has_out {
            Some(end is Finished)
        } else {
            None
        }),
{
    let finished: bool = matches!(end, CallEnd::Finished);
    LoadEnd {
        report: report(end),
        holds_model: if has_out {
            Some(finished)
        } else {
            None
        },
    }
}

/// A load with a place for the model is successful exactly where the place holds a model
/// afterwards, and exactly where the last error is empty.
pub proof fn law_load_succeeds_with_a_model(r: LoadEnd, end: CallEnd)
    requires
        is_report(r.report, end),
        r.holds_model == Some(end is Finished),
        end matches CallEnd::Failed(failure) ==> failure.speaks(),
    ensures
        r.report.status == inference_status::INFERENCE_OK <==> r.holds_model == Some(true),
        r.report.status == inference_status::INFERENCE_OK <==> r.report.last_error@.len() == 0,
{
    law_status_and_last_error_agree(r.report, end);
}

/// An unknown backend is an invalid argument whatever directory is named: it is refused
/// before the directory is looked at.
pub proof fn law_unknown_backend_is_refused_unread(
    model_dir: &Vec<u8>,
    config: &inference_backend_config,
    cuda: bool,
    metal: bool,
)
    requires
        valid_utf8(model_dir@),
        config.device >= 0,
        config.backend matches Some(name) && valid_utf8(name@) && decode_utf8(name@) != "cpu"@
            && decode_utf8(name@) != "cuda"@ && decode_utf8(name@) != "metal"@,
    ensures
        load_refusal(true, Some(model_dir), Some(config), cuda, metal) matches Some((status, _))
            && status == inference_status::INFERENCE_ERR_INVALID_ARGUMENT,
{
}

/// Checks an index into the labels of a model. Without a model there is no such number.
pub fn check_label(labels: Option<usize>, index: usize) -> (r: Result<(), Failure>)
    ensures
        match labels {
            None => r matches Err(f) && f.refuses("model is NULL"@),
            Some(n) => if index < n {
                r is Ok
            } else {
                r matches Err(f) && f.says(
                    inference_status::INFERENCE_ERR_OUT_OF_RANGE,
                    "label "@ + decimal(index as nat) + " of "@ + decimal(n as nat),
                )
            },
        },
{
    match labels {
        None => Err(Failure::invalid("model is NULL".to_string())),
        Some(n) => if index < n {
            Ok(())
        } else {
            let mut text: String = "label ".to_string();
            push_decimal(&mut text, index);
            text.append(" of ");
            push_decimal(&mut text, n);
            Err(Failure::new(inference_status::INFERENCE_ERR_OUT_OF_RANGE, text))
        },
    }
}

/// Checks an index into the detections of a result. Without a result there is no such
/// number.
pub fn check_detection(detections: Option<usize>, index: usize) -> (r: Result<(), Failure>)
    ensures
        match detections {
            None => r matches Err(f) && f.refuses("result is NULL"@),
            Some(n) => if index < n {
                r is Ok
            } else {
                r matches Err(f) && f.says(
                    inference_status::INFERENCE_ERR_OUT_OF_RANGE,
                    "detection "@ + decimal(index as nat) + " of "@ + decimal(n as nat),
                )
            },
        },
{
    match detections {
        None => Err(Failure::invalid("result is NULL".to_string())),
        Some(n) => if index < n {
            Ok(())
        } else {
            let mut text: String = "detection ".to_string();
            push_decimal(&mut text, index);
            text.append(" of ");
            push_decimal(&mut text, n);
            Err(Failure::new(inference_status::INFERENCE_ERR_OUT_OF_RANGE, text))
        },
    }
}

/// The places that a caller gives for the parts of a detection.
#[derive(Debug, Clone, Copy, PartialEq, Eq, Structural)]
pub struct DetectionPlaces {
    pub class_id: bool,
    pub label: bool,
    pub score: bool,
    pub bbox: bool,
}

/// What is written of a detection: exactly the places that are given, where there is such a
/// detection, and nothing where there is none.
pub fn detection_writes(detections: Option<usize>, index: usize, places: DetectionPlaces) -> (r:
    Result<DetectionPlaces, Failure>)
    ensures
        match detections {
            None => r matches Err(f) && f.refuses("result is NULL"@),
            Some(n) => if index < n {
                r == Ok::<DetectionPlaces, Failure>(places)
            } else {
                r matches Err(f) && f.says(
                    inference_status::INFERENCE_ERR_OUT_OF_RANGE,
                    "detection "@ + decimal(index as nat) + " of "@ + decimal(n as nat),
                )
            },
        },
{
    match check_detection(detections, index) {
        Ok(_) => Ok(places),
        Err(f) => Err(f),
    }
}

/// The number that a call for lists gives: none without the list.
pub fn count_or_zero(count: Option<usize>) -> (r: usize)
    ensures
        r == (match count {
            Some(n) => n,
            None => 0,
        }),
{
    match count {
        Some(n) => n,
        None => 0,
    }
}

/// Checks the places of a call for one image: one for the result, then the image.
pub fn check_detect(has_out: bool, has_image: bool) -> (r: Result<(), Failure>)
    ensures
        if !has_out {
            r matches Err(f) && f.refuses("out_result is NULL"@)
        } else if !has_image {
            r matches Err(f) && f.refuses("image is NULL"@)
        } else {
            r is Ok
        },
{
    if !has_out {
        return Err(Failure::invalid("out_result is NULL".to_string()));
    }
    if !has_image {
        return Err(Failure::invalid("image is NULL".to_string()));
    }
    Ok(())
}

/// Checks the places of a call for several images.
pub fn check_detect_batch(has_out: bool, count: usize) -> (r: Result<(), Failure>)
    ensures
        if !has_out && count > 0 {
            r matches Err(f) && f.refuses("out_results is NULL"@)
        } else {
            r is Ok
        },
{
    if !has_out && count > 0 {
        return Err(Failure::invalid("out_results is NULL".to_string()));
    }
    Ok(())
}

/// The images of a call, ready to be looked at.
#[derive(Debug)]
pub struct DetectRequest {
    /// The bits of the threshold.
    pub threshold: u32,
    pub images: Vec<RgbPixels>,
}

/// The text of the refusal of an image among several.
pub open spec fn image_text(i: int, text: Seq<char>) -> Seq<char> {
    "image "@ + decimal(i as nat) + ": "@ + text
}

/// An image is a copy of a caller's.
pub open spec fn is_copy(rgb: RgbPixels, img: inference_image) -> bool {
    &&& img.refusal() is None
    &&& rgb.width == img.width
    &&& rgb.height == img.height
    &&& rgb.data@.len() == img.width * img.height * 3
    &&& forall|i: int| 0 <= i < rgb.data@.len() ==> #[trigger] rgb.data@[i] == img.colour_at(i)
}

/// The first image from `from` on that is refused or got no room.
pub open spec fn first_stopped(
    images: Seq<inference_image>,
    rooms: Seq<Option<Vec<u8>>>,
    from: int,
) -> Option<int>
    decreases images.len() - from,
{
    if from >= images.len() {
        None
    } else if images[from].refusal() is Some || rooms[from] is None {
        Some(from)
    } else {
        first_stopped(images, rooms, from + 1)
    }
}

/// What comes of images and the rooms that they got: a copy of each, or the failure of the
/// first that is refused or got none.
pub open spec fn copies(
    images: Seq<inference_image>,
    rooms: Seq<Option<Vec<u8>>>,
    r: Result<Seq<RgbPixels>, Failure>,
) -> bool {
    match first_stopped(images, rooms, 0) {
        None => {
            &&& r matches Ok(taken)
            &&& taken.len() == images.len()
            &&& forall|i: int| 0 <= i < images.len() ==> is_copy(#[trigger] taken[i], images[i])
        },
        Some(i) => {
            &&& r matches Err(f)
            &&& match images[i].refusal() {
                Some(text) => f.refuses(image_text(i, text)),
                None => f.says(
                    inference_status::INFERENCE_ERR_RUNTIME,
                    image_text(i, memory_text(images[i].width, images[i].height)),
                ),
            }
        },
    }
}

/// The images of a result.
pub open spec fn taken_images(r: Result<DetectRequest, Failure>) -> Result<
    Seq<RgbPixels>,
    Failure,
> {
    match r {
        Ok(request) => Ok(request.images@),
        Err(f) => Err(f),
    }
}

/// Each image up to the first that is refused or got none was asked room for, for the bytes
/// of its copy. Behind that one, nothing was asked for.
pub open spec fn asked_for(images: Seq<inference_image>, rooms: Seq<Option<Vec<u8>>>) -> bool {
    let end = match first_stopped(images, rooms, 0) {
        Some(i) => i,
        None => images.len() as int,
    };
    &&& rooms.len() == images.len()
    &&& forall|i: int|
        0 <= i < images.len() ==> if i <= end && images[i].refusal() is None {
            reserved(images[i].width * images[i].height * 3, #[trigger] rooms[i])
        } else {
            rooms[i] is None
        }
}

/// The failure of an image among several.
fn image_failure(i: usize, failure: Failure) -> (r: Failure)
    ensures
        r.says(failure.status, image_text(i as int, failure.message@)),
{
    let mut text: String = "image ".to_string();
    push_decimal(&mut text, i);
    text.append(": ");
    text.append(failure.message.as_str());
    Failure::new(failure.status, text)
}

/// Copies the images of a call into the rooms that they got, all or none.
pub fn copy_images(images: &Vec<inference_image>, rooms: Vec<Option<Vec<u8>>>) -> (r: Result<
    Vec<RgbPixels>,
    Failure,
>)
    requires
        rooms@.len() == images@.len(),
        forall|i: int| 0 <= i < images@.len() ==> (#[trigger] images@[i]).readable(),
        forall|i: int|
            0 <= i < rooms@.len() ==> ((#[trigger] rooms@[i]) matches Some(list) ==> list@.len()
                == 0),
    ensures
        copies(
            images@,
            rooms@,
            match r {
                Ok(taken) => Ok(taken@),
                Err(f) => Err(f),
            },
        ),
{
    let n: usize = images.len();
    let ghost given = rooms@;
    let mut left: Vec<Option<Vec<u8>>> = rooms;
    let mut taken: Vec<RgbPixels> = Vec::new();
    let mut i: usize = 0;
    while i < n
        invariant
            i <= n == images@.len(),
            left@.len() == n,
            given.len() == n,
            given == rooms@,
            forall|j: int| i <= j < n ==> #[trigger] left@[j] == given[j],
            forall|j: int| 0 <= j < n ==> (#[trigger] images@[j]).readable(),
            forall|j: int|
                0 <= j < n ==> ((#[trigger] given[j]) matches Some(list) ==> list@.len() == 0),
            taken@.len() == i,
            forall|j: int| 0 <= j < i ==> is_copy(#[trigger] taken@[j], images@[j]),
            first_stopped(images@, given, 0) == first_stopped(images@, given, i as int),
        decreases n - i,
    {
        match check_image(&images[i]) {
            Ok(_) => {},
            Err(f) => {
                return Err(image_failure(i, f));
            },
        }
        let room: Option<Vec<u8>> = left[i].take();
        assert(room == given[i as int]);
        match copy_rgb(&images[i], room) {
            Ok(rgb) => {
                taken.push(rgb);
            },
            Err(f) => {
                return Err(image_failure(i, f));
            },
        }
        i += 1;
    }
    Ok(taken)
}

/// Asks for the rooms of images, in turn, until one is refused or gets none.
fn ask_for_rooms(images: &Vec<inference_image>) -> (rooms: Vec<Option<Vec<u8>>>)
    ensures
        asked_for(images@, rooms@),
        forall|i: int|
            0 <= i < rooms@.len() ==> ((#[trigger] rooms@[i]) matches Some(list) ==> list@.len()
                == 0),
{
    let n: usize = images.len();
    let mut rooms: Vec<Option<Vec<u8>>> = Vec::new();
    let mut stopped: bool = false;
    let ghost mut end: int = n as int;
    let mut i: usize = 0;
    while i < n
        invariant
            i <= n == images@.len(),
            rooms@.len() == i,
            stopped ==> 0 <= end < i && (images@[end].refusal() is Some || rooms@[end] is None),
            !stopped ==> end == n,
            forall|j: int|
                0 <= j < i && j < end ==> images@[j].refusal() is None && (#[trigger] rooms@[j])
                    is Some,
            forall|j: int|
                0 <= j < i ==> if j <= end && images@[j].refusal() is None {
                    reserved(images@[j].width * images@[j].height * 3, #[trigger] rooms@[j])
                } else {
                    rooms@[j] is None
                },
            forall|j: int|
                0 <= j < i ==> ((#[trigger] rooms@[j]) matches Some(list) ==> list@.len() == 0),
        decreases n - i,
    {
        let mut room: Option<Vec<u8>> = None;
        if !stopped {
            if check_image(&images[i]).is_ok() {
                room = reserve(rgb_bytes(&images[i]));
                assert(reserved(images@[i as int].width * images@[i as int].height * 3, room));
            }
            if room.is_none() {
                stopped = true;
                proof {
                    end = i as int;
                }
            }
        }
        rooms.push(room);
        i += 1;
    }
    proof {
        lemma_first_stopped(images@, rooms@, 0, end);
    }
    rooms
}

proof fn lemma_first_stopped(
    images: Seq<inference_image>,
    rooms: Seq<Option<Vec<u8>>>,
    from: int,
    end: int,
)
    requires
        0 <= from <= end <= images.len(),
        rooms.len() == images.len(),
        forall|j: int|
            from <= j < end ==> images[j].refusal() is None && (#[trigger] rooms[j]) is Some,
        end < images.len() ==> images[end].refusal() is Some || rooms[end] is None,
    ensures
        first_stopped(images, rooms, from) == (if end < images.len() {
            Some(end)
        } else {
            None
        }),
    decreases end - from,
{
    if from < end {
        assert(rooms[from] is Some);
        lemma_first_stopped(images, rooms, from + 1, end);
    }
}

/// Takes in the images of a call, all or none: the model comes first, then the images,
/// then the threshold, then each image. Whether there is memory depends on the machine.
pub fn take_images(
    has_model: bool,
    images: Option<&Vec<inference_image>>,
    bits: u32,
    shown: &str,
) -> (r: Result<DetectRequest, Failure>)
    requires
        images matches Some(list) ==> forall|i: int|
            0 <= i < list@.len() ==> (#[trigger] list@[i]).readable(),
    ensures
        if !has_model {
            r matches Err(f) && f.refuses("model is NULL"@)
        } else if images is None {
            r matches Err(f) && f.refuses("images is NULL"@)
        } else if threshold_of(bits) is None {
            r matches Err(f) && f.refuses(threshold_text(shown@))
        } else {
            &&& r matches Ok(request) ==> request.threshold == threshold_of(bits)->0
            &&& exists|rooms: Seq<Option<Vec<u8>>>| #[trigger]
                asked_for(images->0@, rooms) && copies(images->0@, rooms, taken_images(r))
        },
{
    if !has_model {
        return Err(Failure::invalid("model is NULL".to_string()));
    }
    let list: &Vec<inference_image> = match images {
        Some(list) => list,
        None => {
            return Err(Failure::invalid("images is NULL".to_string()));
        },
    };
    let threshold: u32 = match threshold_arg(bits, shown) {
        Ok(t) => t,
        Err(f) => {
            return Err(f);
        },
    };
    let rooms: Vec<Option<Vec<u8>>> = ask_for_rooms(list);
    assert(asked_for(list@, rooms@));
    match copy_images(list, rooms) {
        Ok(taken) => Ok(DetectRequest { threshold, images: taken }),
        Err(f) => Err(f),
    }
}

/// The failure of a detection.
pub fn detect_failure(detail: String) -> (r: Failure)
    ensures
        r.says(inference_status::INFERENCE_ERR_RUNTIME, detail@),
{
    Failure::new(inference_status::INFERENCE_ERR_RUNTIME, detail)
}

} // verus!
