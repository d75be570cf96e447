//! What a C caller can rely on.

use vstd::prelude::*;
use vstd::utf8::{decode_utf8, valid_utf8};

use crate::ffi::layout::{
    check_detect, check_detect_batch, check_detection, check_label, check_load, count_or_zero,
    detection_writes, end_load, first_stopped, inference_image, is_copy, pixel_layout, take_images,
    threshold_arg, DetectRequest, DetectionPlaces, LoadEnd, LoadRequest, PixelLayout, RgbPixels,
};
use crate::ffi::{
    without_nul,
    backend_from, backend_tag, choose_device, inference_backend_config,
    inference_status, law_kept_messages_hold_no_nul, report, status_name,
    Backend, BackendDevice, CallEnd, CallReport, Failure,
};

verus! {

/// Statuses have numbers of their own from zero up, and success is zero.
pub proof fn law_statuses_are_numbered_apart(a: inference_status, b: inference_status)
    ensures
        a.number() == b.number() ==> a == b,
        0 <= a.number() < 7,
        a.number() == 0 <==> a == inference_status::INFERENCE_OK,
{
}

/// Status numbers have names of their own, and only numbers of no status share one.
pub proof fn law_statuses_are_named_apart(a: i32, b: i32)
    ensures
        status_name(a) == status_name(b) ==> a == b || (!(0 <= a < 7) && !(0 <= b < 7)),
{
    reveal_strlit("INFERENCE_OK");
    reveal_strlit("INFERENCE_ERR_INVALID_ARGUMENT");
    reveal_strlit("INFERENCE_ERR_LOAD_FAILED");
    reveal_strlit("INFERENCE_ERR_RUNTIME");
    reveal_strlit("INFERENCE_ERR_OUT_OF_RANGE");
    reveal_strlit("INFERENCE_ERR_NOT_AVAILABLE");
    reveal_strlit("INFERENCE_ERR_INTERNAL");
    reveal_strlit("INFERENCE_UNKNOWN_STATUS");
    assert(status_name(a).len() > 11 && status_name(b).len() > 11);
    assert("INFERENCE_UNKNOWN_STATUS"@[10] == 'U');
    assert("INFERENCE_ERR_INVALID_ARGUMENT"@[10] == 'E');
}

proof fn lemma_backend_names()
    ensures
        "cpu"@ != "cuda"@,
        "cpu"@ != "metal"@,
        "cuda"@ != "metal"@,
{
    reveal_strlit("cpu");
    reveal_strlit("cuda");
    reveal_strlit("metal");
    assert("cpu"@.len() == 3 && "cuda"@.len() == 4 && "metal"@.len() == 5);
}

/// A build is tagged with a backend that it has, and with the CPU where it has no other.
pub proof fn law_builds_are_tagged_by_what_they_have(cuda: bool, metal: bool, tag: &'static str)
    requires
        call_ensures(backend_tag, (cuda, metal), tag),
    ensures
        cuda <==> tag@ == "cuda"@,
        !cuda && metal <==> tag@ == "metal"@,
        !cuda && !metal <==> tag@ == "cpu"@,
{
    lemma_backend_names();
}

/// A failure is reported under its own status and with its own text, less the NULs; a panic is
/// an internal error whose report ends in what was said; and success leaves no error.
pub proof fn law_reports_tell_what_happened(end: CallEnd, r: CallReport)
    requires
        call_ensures(report, (end,), r),
    ensures
        end is Finished ==> r.status == inference_status::INFERENCE_OK && r.last_error@.len() == 0,
        end matches CallEnd::Failed(f) ==> r.status == f.status && (!f.message@.contains('\0')
            ==> r.last_error@ == f.message@),
        end is Panicked ==> r.status == inference_status::INFERENCE_ERR_INTERNAL,
        end matches CallEnd::Panicked(Some(said)) ==> !said@.contains('\0')
            ==> said@.is_suffix_of(r.last_error@) && r.last_error@.len() > said@.len(),
        !r.last_error@.contains('\0'),
{
    reveal_strlit("");
    reveal_strlit("internal error (panic): ");
    reveal_strlit("unknown panic");
    match end {
        CallEnd::Finished => {},
        CallEnd::Failed(f) => {
            law_kept_messages_hold_no_nul(f.message@);
        },
        CallEnd::Panicked(detail) => {
            let intro = "internal error (panic): "@;
            let said = match detail {
                Some(text) => text@,
                None => "unknown panic"@,
            };
            let text = intro + said;
            law_kept_messages_hold_no_nul(text);
            assert(forall|i: int| 0 <= i < intro.len() ==> intro[i] != '\0');
            if !said.contains('\0') {
                assert(!text.contains('\0')) by {
                    if text.contains('\0') {
                        let i = choose|i: int| 0 <= i < text.len() && text[i] == '\0';
                        if i >= intro.len() {
                            assert(said[i - intro.len()] == '\0');
                        } else {
                            assert(intro[i] == '\0');
                        }
                    }
                }
                assert(said =~= text.subrange(intro.len() as int, text.len() as int));
            }
        },
    }
}

/// The device is of the kind that was named, in every build, and has the number that was asked
/// for. What a build has decides only whether CUDA and Metal are refused: as not available,
/// where a name that is none is an invalid argument.
pub proof fn law_device_is_of_the_kind_named(
    name: &str,
    ordinal: usize,
    cuda: bool,
    metal: bool,
    r: Result<BackendDevice, Failure>,
)
    requires
        call_ensures(choose_device, (name, ordinal, cuda, metal), r),
    ensures
        r matches Ok(BackendDevice::Cpu) <==> name@ == "cpu"@,
        r matches Ok(BackendDevice::Cuda(n)) ==> name@ == "cuda"@ && cuda && n == ordinal,
        r matches Ok(BackendDevice::Metal(n)) ==> name@ == "metal"@ && metal && n == ordinal,
        name@ == "cuda"@ && cuda ==> r is Ok,
        name@ == "metal"@ && metal ==> r is Ok,
        r matches Err(f) ==> f.status == (if name@ == "cuda"@ || name@ == "metal"@ {
            inference_status::INFERENCE_ERR_NOT_AVAILABLE
        } else {
            inference_status::INFERENCE_ERR_INVALID_ARGUMENT
        }),
{
    lemma_backend_names();
}

/// Two builds that accept a name give the same device for it.
pub proof fn law_builds_agree_on_devices(
    name: &str,
    ordinal: usize,
    a: (bool, bool),
    b: (bool, bool),
    r: Result<BackendDevice, Failure>,
    s: Result<BackendDevice, Failure>,
)
    requires
        call_ensures(choose_device, (name, ordinal, a.0, a.1), r),
        call_ensures(choose_device, (name, ordinal, b.0, b.1), s),
    ensures
        r is Ok && s is Ok ==> r->Ok_0 == s->Ok_0,
{
    law_device_is_of_the_kind_named(name, ordinal, a.0, a.1, r);
    law_device_is_of_the_kind_named(name, ordinal, b.0, b.1, s);
}

/// The backend is what the caller asks for: the CPU without a configuration or a name, else the
/// kind of device that is named, under the number that is given, and as many threads as are
/// asked for where the number is positive. Nothing that is asked for rightly is refused.
pub proof fn law_backend_is_what_was_asked_for(
    config: Option<&inference_backend_config>,
    cuda: bool,
    metal: bool,
    r: Result<Backend, Failure>,
)
    requires
        call_ensures(backend_from, (config, cuda, metal), r),
    ensures
        config is None ==> r is Ok && r->Ok_0.device == BackendDevice::Cpu
            && r->Ok_0.cpu_threads is None,
        config matches Some(c) ==> {
            let named = c.backend matches Some(bytes) && valid_utf8(bytes@);
            let name = decode_utf8(c.backend->0@);
            &&& r is Ok <==> c.device >= 0 && (c.backend is None || (named && (name == "cpu"@ || (
            name == "cuda"@ && cuda) || (name == "metal"@ && metal))))
            &&& r matches Ok(b) ==> {
                &&& b.device == BackendDevice::Cpu <==> c.backend is None || name == "cpu"@
                &&& b.device matches BackendDevice::Cuda(n) ==> name == "cuda"@ && n == c.device
                &&& b.device matches BackendDevice::Metal(n) ==> name == "metal"@ && n == c.device
                &&& b.cpu_threads is Some <==> c.threads > 0
                &&& b.cpu_threads matches Some(n) ==> n == c.threads
            }
            &&& r matches Err(f) ==> f.status != inference_status::INFERENCE_OK
            &&& c.device < 0 ==> r is Err && r->Err_0.status
                == inference_status::INFERENCE_ERR_INVALID_ARGUMENT
        },
{
    lemma_backend_names();
}

/// A load goes on only with a place for the model, a directory in text and a backend that is
/// there; it then reads the directory that was named, on the backend that was asked for.
pub proof fn law_load_is_what_was_asked_for(
    has_out: bool,
    model_dir: Option<&Vec<u8>>,
    config: Option<&inference_backend_config>,
    cuda: bool,
    metal: bool,
    r: Result<LoadRequest, Failure>,
    b: Result<Backend, Failure>,
)
    requires
        call_ensures(check_load, (has_out, model_dir, config, cuda, metal), r),
        call_ensures(backend_from, (config, cuda, metal), b),
    ensures
        r is Ok <==> has_out && (model_dir matches Some(dir) && valid_utf8(dir@)) && b is Ok,
        r matches Ok(request) ==> request.dir@ == decode_utf8(model_dir->0@) && request.backend
            == b->Ok_0,
        r matches Err(f) ==> f.status != inference_status::INFERENCE_OK,
        !has_out || model_dir is None ==> r is Err && r->Err_0.status
            == inference_status::INFERENCE_ERR_INVALID_ARGUMENT,
{
}

/// After a load the place for the model, if there is one, holds a model exactly where the load
/// succeeded; a load that failed or panicked is not reported as a success.
pub proof fn law_place_holds_a_model_after_success(has_out: bool, end: CallEnd, r: LoadEnd)
    requires
        call_ensures(end_load, (has_out, end), r),
        end matches CallEnd::Failed(f) ==> f.status != inference_status::INFERENCE_OK,
    ensures
        r.holds_model is Some <==> has_out,
        r.holds_model == Some(true) <==> has_out && end is Finished,
        r.report.status == inference_status::INFERENCE_OK <==> end is Finished,
{
}

/// A pixel of a known format has a place of its own for each colour; a grey one has the same for
/// all three. The formats with a fourth byte are those with three, one byte wider, and those
/// with blue first are those with red first, turned round.
pub proof fn law_formats_place_the_colours(format: i32, r: Result<PixelLayout, Failure>)
    requires
        call_ensures(pixel_layout, (format,), r),
    ensures
        r is Ok <==> 0 <= format <= 4,
        r matches Ok(l) ==> {
            &&& format == 4 <==> l.bpp == 1
            &&& format == 0 || format == 1 <==> l.bpp == 3
            &&& format == 2 || format == 3 <==> l.bpp == 4
            &&& format == 4 ==> l.r == 0 && l.g == 0 && l.b == 0
            &&& format == 0 || format == 2 ==> l.r == 0 && l.g == 1 && l.b == 2
            &&& format == 1 || format == 3 ==> l.b == 0 && l.g == 1 && l.r == 2
        },
{
}

/// An image is taken exactly where it is there, has pixels of a known format, rows that do not
/// overlap, and no more pixels than are allowed.
pub proof fn law_images_are_refused_for_a_reason(img: inference_image)
    ensures
        img.refusal() is None <==> {
            let bytes: int = if img.format == 4 {
                1
            } else if img.format == 0 || img.format == 1 {
                3
            } else {
                4
            };
            &&& img.pixels is Some
            &&& img.width > 0 && img.height > 0
            &&& 0 <= img.format <= 4
            &&& img.width * bytes <= usize::MAX
            &&& img.stride == 0 || img.stride >= img.width * bytes
            &&& img.width * img.height <= 268435456
        },
{
}

/// A copy holds red, green and blue of each pixel, row by row, from wherever the format of the
/// caller's image has them and however far its rows are apart.
pub proof fn law_copies_show_the_pixels(img: inference_image, rgb: RgbPixels, y: int, x: int)
    requires
        is_copy(rgb, img),
        0 <= y < img.height,
        0 <= x < img.width,
    ensures
        rgb.width == img.width && rgb.height == img.height,
        rgb.data@.len() == img.width * img.height * 3,
        ({
            let bytes: int = if img.format == 4 {
                1
            } else if img.format == 0 || img.format == 1 {
                3
            } else {
                4
            };
            let step = if img.stride == 0 {
                img.width * bytes
            } else {
                img.stride as int
            };
            let from = y * step + x * bytes;
            let to = (y * img.width + x) * 3;
            let (src, out) = (img.pixels->0@, rgb.data@);
            if img.format == 4 {
                out[to] == src[from] && out[to + 1] == src[from] && out[to + 2] == src[from]
            } else if img.format == 0 || img.format == 2 {
                out[to] == src[from] && out[to + 1] == src[from + 1] && out[to + 2] == src[from + 2]
            } else {
                out[to] == src[from + 2] && out[to + 1] == src[from + 1] && out[to + 2] == src[from]
            }
        }),
{
    let w = img.width as int;
    let at = y * w + x;
    crate::axes::lemma_digits(y, x, w);
    crate::axes::lemma_within(y, img.height as int, x, w);
    assert(w * img.height == img.height * w) by (nonlinear_arith);
    let to = at * 3;
    assert(to / 3 == at && to % 3 == 0);
    assert((to + 1) / 3 == at && (to + 1) % 3 == 1);
    assert((to + 2) / 3 == at && (to + 2) % 3 == 2);
    assert(rgb.data@[to] == img.colour_at(to));
    assert(rgb.data@[to + 1] == img.colour_at(to + 1));
    assert(rgb.data@[to + 2] == img.colour_at(to + 2));
}

/// A threshold by the sign, the exponent and the fraction of its number: those from zero to one
/// stay as they are, minus one asks for one half, and no other is taken, such as what is not a
/// number.
pub proof fn law_thresholds_lie_between_zero_and_one(
    sign: int,
    exponent: int,
    fraction: int,
    bits: u32,
    shown: &str,
    r: Result<u32, Failure>,
)
    requires
        0 <= sign <= 1,
        0 <= exponent < 256,
        0 <= fraction < 8388608,
        bits == sign * 2147483648 + exponent * 8388608 + fraction,
        call_ensures(threshold_arg, (bits, shown), r),
    ensures
        ({
            let zero = exponent == 0 && fraction == 0;
            let one = exponent == 127 && fraction == 0;
            let taken = (sign == 0 && (exponent < 127 || one)) || zero;
            &&& taken ==> r == Ok::<u32, Failure>(bits)
            &&& sign == 1 && one ==> r is Ok && r->Ok_0 == 126 * 8388608
            &&& r is Ok <==> taken || (sign == 1 && one)
            &&& r matches Err(f) ==> f.status == inference_status::INFERENCE_ERR_INVALID_ARGUMENT
        }),
{
}

/// Images are taken all or none: where one is refused the call fails, and a call that succeeds
/// has a copy of each, in their order, under the threshold that was asked for. Where none is
/// refused the call fails only for lack of memory.
pub proof fn law_images_are_taken_all_or_none(
    has_model: bool,
    images: Option<&Vec<inference_image>>,
    bits: u32,
    shown: &str,
    r: Result<DetectRequest, Failure>,
    t: Result<u32, Failure>,
)
    requires
        call_ensures(take_images, (has_model, images, bits, shown), r),
        call_ensures(threshold_arg, (bits, shown), t),
    ensures
        r matches Ok(request) ==> {
            &&& has_model && images is Some && t is Ok
            &&& request.threshold == t->Ok_0
            &&& request.images@.len() == images->0@.len()
            &&& forall|i: int|
                0 <= i < images->0@.len() ==> is_copy(#[trigger] request.images@[i], images->0@[i])
        },
        !has_model || images is None || t is Err ==> r is Err && r->Err_0.status
            == inference_status::INFERENCE_ERR_INVALID_ARGUMENT,
        has_model && images is Some && t is Ok && (forall|i: int|
            0 <= i < images->0@.len() ==> (#[trigger] images->0@[i]).refusal() is None)
            ==> r is Ok || r->Err_0.status == inference_status::INFERENCE_ERR_RUNTIME,
        (exists|i: int|
            images is Some && 0 <= i < images->0@.len() && (#[trigger] images->0@[i]).refusal()
                is Some) ==> r is Err,
{
    if has_model && images is Some && t is Ok {
        let list = images->0@;
        let rooms = choose|rooms: Seq<Option<Vec<u8>>>| #[trigger]
            crate::ffi::layout::asked_for(list, rooms) && crate::ffi::layout::copies(
                list,
                rooms,
                crate::ffi::layout::taken_images(r),
            );
        lemma_stop(list, rooms, 0);
        if r is Ok {
            assert forall|i: int| 0 <= i < list.len() implies (#[trigger] list[i]).refusal()
                is None by {
                assert(is_copy(r->Ok_0.images@[i], list[i]));
            }
        }
    }
}

proof fn lemma_stop(images: Seq<inference_image>, rooms: Seq<Option<Vec<u8>>>, from: int)
    requires
        0 <= from,
    ensures
        first_stopped(images, rooms, from) matches Some(i) ==> from <= i < images.len(),
    decreases images.len() - from,
{
    if from < images.len() && images[from].refusal() is None && rooms[from] is Some {
        lemma_stop(images, rooms, from + 1);
    }
}

/// What lies behind the end of a list is out of range, a list that is missing is an invalid
/// argument, and everything else is there.
pub proof fn law_indices_are_checked(
    count: Option<usize>,
    index: usize,
    places: DetectionPlaces,
    label: Result<(), Failure>,
    detection: Result<(), Failure>,
    writes: Result<DetectionPlaces, Failure>,
    n: usize,
)
    requires
        call_ensures(check_label, (count, index), label),
        call_ensures(check_detection, (count, index), detection),
        call_ensures(detection_writes, (count, index, places), writes),
        call_ensures(count_or_zero, (count,), n),
    ensures
        label is Ok <==> index < n,
        detection is Ok <==> index < n,
        writes is Ok <==> index < n,
        n > 0 ==> count == Some(n),
        count is None ==> n == 0,
        count matches Some(m) ==> n == m,
        writes matches Ok(w) ==> w == places,
        label matches Err(f) ==> f.status == (if count is None {
            inference_status::INFERENCE_ERR_INVALID_ARGUMENT
        } else {
            inference_status::INFERENCE_ERR_OUT_OF_RANGE
        }),
        detection matches Err(f) ==> f.status == label->Err_0.status,
        writes matches Err(f) ==> f.status == label->Err_0.status,
{
}

/// A call for images goes on exactly where there is a place for what it finds; one for no images
/// needs none.
pub proof fn law_detection_needs_places(
    has_out: bool,
    has_image: bool,
    count: usize,
    one: Result<(), Failure>,
    many: Result<(), Failure>,
)
    requires
        call_ensures(check_detect, (has_out, has_image), one),
        call_ensures(check_detect_batch, (has_out, count), many),
    ensures
        one is Ok <==> has_out && has_image,
        many is Ok <==> has_out || count == 0,
        one matches Err(f) ==> f.status == inference_status::INFERENCE_ERR_INVALID_ARGUMENT,
        many matches Err(f) ==> f.status == inference_status::INFERENCE_ERR_INVALID_ARGUMENT,
{
}

/// A message loses its NULs and nothing else: what two texts keep, they keep behind each other, and
/// a character that is no NUL is kept.
pub proof fn law_messages_lose_nothing_but_nuls(a: Seq<char>, b: Seq<char>, c: char)
    ensures
        without_nul(a + b) == without_nul(a) + without_nul(b),
        c != '\0' ==> without_nul(seq![c]) == seq![c],
        without_nul(seq!['\0']).len() == 0,
    decreases b.len(),
{
    assert(seq![c].drop_last() =~= Seq::<char>::empty());
    assert(seq!['\0'].drop_last() =~= Seq::<char>::empty());
    assert(without_nul(Seq::<char>::empty()) =~= Seq::<char>::empty());
    assert(c != '\0' ==> without_nul(seq![c]) =~= seq![c]);
    if b.len() == 0 {
        assert(a + b =~= a);
        assert(without_nul(a) + without_nul(b) =~= without_nul(a));
    } else {
        law_messages_lose_nothing_but_nuls(a, b.drop_last(), c);
        assert((a + b).drop_last() =~= a + b.drop_last());
        assert(without_nul(a + b) =~= without_nul(a) + without_nul(b));
    }
}

} // verus!
