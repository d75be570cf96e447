use inference::ffi::layout::{
    check_detect, check_detect_batch, check_detection, check_label, check_load, copy_images,
    copy_rgb, count_or_zero, detect_failure, detection_writes, end_load, inference_image,
    load_failure, pixel_layout, rgb_bytes, take_images, threshold_arg, to_rgb, DetectionPlaces,
    PixelLayout, INFERENCE_LAYOUT_DEFAULT_THRESHOLD, INFERENCE_PIXEL_BGR8, INFERENCE_PIXEL_BGRA8,
    INFERENCE_PIXEL_GRAY8, INFERENCE_PIXEL_RGB8, INFERENCE_PIXEL_RGBA8,
};
use inference::ffi::{
    arg_str, backend_from, backend_tag, build_version, c_message, choose_device, device_failure,
    inference_abi_version, inference_backend_config, inference_status, inference_status_string,
    report, Backend, BackendDevice, CallEnd, Failure, ABI_VERSION_MAJOR, ABI_VERSION_MINOR,
    ABI_VERSION_PATCH,
};

const INVALID: inference_status = inference_status::INFERENCE_ERR_INVALID_ARGUMENT;

#[test]
fn versions_and_status_strings() {
    let v = inference_abi_version();
    assert_eq!(v >> 16, ABI_VERSION_MAJOR);
    assert_eq!((v >> 8) & 0xff, ABI_VERSION_MINOR);
    assert_eq!(v & 0xff, ABI_VERSION_PATCH);
    let build = build_version("0.8.0", backend_tag(false, false));
    assert!(build.starts_with("inference.rs "), "{build}");
    assert_eq!(build, "inference.rs 0.8.0 (cpu)");
    assert_eq!(backend_tag(true, true), "cuda");
    assert_eq!(backend_tag(false, true), "metal");
    let name = inference_status_string;
    assert_eq!(
        name(inference_status::INFERENCE_ERR_LOAD_FAILED.code()),
        "INFERENCE_ERR_LOAD_FAILED"
    );
    assert_eq!(name(12345), "INFERENCE_UNKNOWN_STATUS");
    assert_eq!(report(CallEnd::Finished).last_error, "");
    let all = [
        (inference_status::INFERENCE_OK, 0, "INFERENCE_OK"),
        (INVALID, 1, "INFERENCE_ERR_INVALID_ARGUMENT"),
        (inference_status::INFERENCE_ERR_RUNTIME, 3, "INFERENCE_ERR_RUNTIME"),
        (inference_status::INFERENCE_ERR_OUT_OF_RANGE, 4, "INFERENCE_ERR_OUT_OF_RANGE"),
        (inference_status::INFERENCE_ERR_NOT_AVAILABLE, 5, "INFERENCE_ERR_NOT_AVAILABLE"),
        (inference_status::INFERENCE_ERR_INTERNAL, 6, "INFERENCE_ERR_INTERNAL"),
    ];
    for (status, code, text) in all {
        assert_eq!(status.code(), code);
        assert_eq!(name(code), text);
    }
}

#[test]
fn calls_are_reported() {
    let failed = report(CallEnd::Failed(Failure::invalid("a\0b".to_string())));
    assert_eq!((failed.status, failed.last_error), (INVALID, "ab".to_string()));
    let panicked = report(CallEnd::Panicked(Some("oops".to_string())));
    assert_eq!(panicked.status, inference_status::INFERENCE_ERR_INTERNAL);
    assert_eq!(panicked.last_error, "internal error (panic): oops");
    let silent = report(CallEnd::Panicked(None));
    assert_eq!(silent.last_error, "internal error (panic): unknown panic");
    assert_eq!(c_message("\0x\0y\0"), "xy");
    assert_eq!(c_message("plain"), "plain");
}

fn backend(name: &str) -> inference_backend_config {
    inference_backend_config { backend: Some(name.as_bytes().to_vec()), device: 0, threads: 0 }
}

fn load(dir: Option<&str>, config: Option<&inference_backend_config>, out: bool) -> Failure {
    let bytes = dir.map(|d| d.as_bytes().to_vec());
    check_load(out, bytes.as_ref(), config, false, false).unwrap_err()
}

#[test]
fn load_errors_set_status_and_detail() {
    let missing = Some("/nonexistent/layout-model");
    let f = load(None, None, true);
    assert_eq!(f.status, INVALID);
    assert!(f.message.contains("model_dir"));
    let f = load_failure("/nonexistent/layout-model", "no such file");
    assert_eq!(f.status, inference_status::INFERENCE_ERR_LOAD_FAILED);
    assert_eq!(f.message, "/nonexistent/layout-model: no such file");
    let f = load(missing, Some(&backend("tpu")), true);
    assert_eq!(f.status, INVALID);
    assert!(f.message.contains("tpu"));
    assert_eq!(f.message, "unknown backend \"tpu\"; expected cpu, cuda or metal");
    let f = load(missing, Some(&backend("cuda")), true);
    assert_eq!(f.status, inference_status::INFERENCE_ERR_NOT_AVAILABLE);
    assert_eq!(f.message, "this build has no CUDA support");
    let f = load(missing, Some(&backend("metal")), true);
    assert_eq!(f.message, "this build has no Metal support");
    let f = load(missing, None, false);
    assert_eq!((f.status, f.message), (INVALID, "out_model is NULL".to_string()));
    let dir = b"/models/layout".to_vec();
    let request = check_load(true, Some(&dir), None, false, false).unwrap();
    assert_eq!(request.dir, "/models/layout");
    assert_eq!(request.backend, Backend { device: BackendDevice::Cpu, cpu_threads: None });
    let bad = vec![0xff, 0xfe];
    let f = check_load(true, Some(&bad), None, false, false).unwrap_err();
    assert_eq!(f.message, "model_dir is not valid UTF-8");
}

#[test]
fn null_handles_are_safe() {
    assert_eq!(count_or_zero(None), 0);
    assert_eq!(count_or_zero(Some(3)), 3);
    assert_eq!(check_detect(false, true).unwrap_err().message, "out_result is NULL");
    assert_eq!(check_detect(true, false).unwrap_err().message, "image is NULL");
    assert!(check_detect(true, true).is_ok());
    let threshold = (-1f32).to_bits();
    let images = vec![image(&[0; 3], 1, 1, 0, 0)];
    let f = take_images(false, Some(&images), threshold, "-1").unwrap_err();
    assert_eq!((f.status, f.message), (INVALID, "model is NULL".to_string()));
    let f = check_label(None, 0).unwrap_err();
    assert_eq!((f.status, f.message), (INVALID, "model is NULL".to_string()));
    let f = check_detection(None, 0).unwrap_err();
    assert_eq!((f.status, f.message), (INVALID, "result is NULL".to_string()));
    assert_eq!(check_detect_batch(false, 1).unwrap_err().message, "out_results is NULL");
    assert!(check_detect_batch(false, 0).is_ok());
    let f = take_images(true, None, threshold, "-1").unwrap_err();
    assert_eq!(f.message, "images is NULL");
}

#[test]
fn indices_out_of_range() {
    assert!(check_label(Some(3), 2).is_ok());
    let f = check_label(Some(3), 3).unwrap_err();
    assert_eq!(f.status, inference_status::INFERENCE_ERR_OUT_OF_RANGE);
    assert_eq!(f.message, "label 3 of 3");
    assert!(check_detection(Some(1), 0).is_ok());
    assert_eq!(check_detection(Some(1), 5).unwrap_err().message, "detection 5 of 1");
}

#[test]
fn backends() {
    let config = inference_backend_config { backend: None, device: 1, threads: 6 };
    let b = backend_from(Some(&config), false, false).unwrap();
    assert_eq!(b, Backend { device: BackendDevice::Cpu, cpu_threads: Some(6) });
    let cuda = inference_backend_config { device: 2, threads: -1, ..backend("cuda") };
    let b = backend_from(Some(&cuda), true, false).unwrap();
    assert_eq!(b, Backend { device: BackendDevice::Cuda(2), cpu_threads: None });
    assert_eq!(choose_device("metal", 1, false, true).unwrap(), BackendDevice::Metal(1));
    let negative = inference_backend_config { device: -3, ..backend("tpu") };
    let f = backend_from(Some(&negative), false, false).unwrap_err();
    assert_eq!((f.status, f.message), (INVALID, "device -3 is negative".to_string()));
    let garbled = inference_backend_config { backend: Some(vec![0xc0]), device: -3, threads: 0 };
    let f = backend_from(Some(&garbled), false, false).unwrap_err();
    assert_eq!(f.message, "backend is not valid UTF-8");
    let f = device_failure("CUDA", 3, "busy");
    assert_eq!(f.status, inference_status::INFERENCE_ERR_NOT_AVAILABLE);
    assert_eq!(f.message, "CUDA device 3: busy");
    assert_eq!(arg_str(None, "x").unwrap_err().message, "x is NULL");
    let text = "h\u{e9}".as_bytes().to_vec();
    assert_eq!(arg_str(Some(&text), "x").unwrap(), "h\u{e9}");
    let f = detect_failure("bad".to_string());
    assert_eq!(f.status, inference_status::INFERENCE_ERR_RUNTIME);
}

const TWELVE: [u8; 12] = [1, 2, 3, 4, 5, 6, 7, 8, 9, 10, 11, 12];

fn image(
    pixels: &[u8],
    width: u32,
    height: u32,
    stride: u32,
    format: i32,
) -> inference_image<'_> {
    inference_image { pixels: Some(pixels), width, height, stride, format }
}

#[test]
fn pixel_formats() {
    let layout = |bpp, r, g, b| PixelLayout { bpp, r, g, b };
    assert_eq!(pixel_layout(INFERENCE_PIXEL_RGB8).unwrap(), layout(3, 0, 1, 2));
    assert_eq!(pixel_layout(INFERENCE_PIXEL_BGR8).unwrap(), layout(3, 2, 1, 0));
    assert_eq!(pixel_layout(INFERENCE_PIXEL_RGBA8).unwrap(), layout(4, 0, 1, 2));
    assert_eq!(pixel_layout(INFERENCE_PIXEL_BGRA8).unwrap(), layout(4, 2, 1, 0));
    assert_eq!(pixel_layout(INFERENCE_PIXEL_GRAY8).unwrap(), layout(1, 0, 0, 0));
    assert_eq!(pixel_layout(-7).unwrap_err().message, "unknown pixel format -7");
}

#[test]
fn padding_and_order_do_not_matter() {
    let tight = image(&TWELVE, 2, 2, 0, INFERENCE_PIXEL_RGB8);
    let rgb = to_rgb(&tight).unwrap();
    assert_eq!((rgb.width, rgb.height), (2, 2));
    assert_eq!(rgb.data, TWELVE);
    let bgra = vec![3, 2, 1, 0, 6, 5, 4, 0, 99, 99, 9, 8, 7, 0, 12, 11, 10, 0];
    let padded = image(&bgra, 2, 2, 10, INFERENCE_PIXEL_BGRA8);
    assert_eq!(to_rgb(&padded).unwrap().data, rgb.data);
    let gray = image(&[5, 6], 1, 2, 0, INFERENCE_PIXEL_GRAY8);
    assert_eq!(to_rgb(&gray).unwrap().data, vec![5, 5, 5, 6, 6, 6]);
}

#[test]
fn copies_need_room() {
    let img = image(&TWELVE, 2, 2, 0, INFERENCE_PIXEL_RGB8);
    assert_eq!(rgb_bytes(&img), 12);
    let rgb = copy_rgb(&img, Some(Vec::new())).unwrap();
    assert_eq!(rgb.data, TWELVE);
    let f = copy_rgb(&img, None).unwrap_err();
    assert_eq!(f.status, inference_status::INFERENCE_ERR_RUNTIME);
    assert_eq!(f.message, "out of memory for a 2x2 image");
    let list = vec![
        image(&[1, 2, 3], 1, 1, 0, INFERENCE_PIXEL_RGB8),
        image(&[4, 5, 6], 1, 1, 0, INFERENCE_PIXEL_BGR8),
    ];
    let taken = copy_images(&list, vec![Some(Vec::new()), Some(Vec::new())]).unwrap();
    assert_eq!(taken.len(), 2);
    assert_eq!((&taken[0].data, &taken[1].data), (&vec![1, 2, 3], &vec![6, 5, 4]));
    let f = copy_images(&list, vec![Some(Vec::new()), None]).unwrap_err();
    assert_eq!(f.status, inference_status::INFERENCE_ERR_RUNTIME);
    assert_eq!(f.message, "image 1: out of memory for a 1x1 image");
    let list = vec![image(&[], 0, 1, 0, 0), image(&[1, 2, 3], 1, 1, 0, 0)];
    let f = copy_images(&list, vec![None, None]).unwrap_err();
    assert_eq!((f.status, f.message), (INVALID, "image 0: image is 0x1".to_string()));
}

#[test]
fn loads_succeed_with_a_model() {
    let done = end_load(true, CallEnd::Finished);
    assert_eq!(done.holds_model, Some(true));
    assert_eq!(done.report.status, inference_status::INFERENCE_OK);
    assert_eq!(done.report.last_error, "");
    let ends = [
        CallEnd::Failed(load_failure("\0", "")),
        CallEnd::Failed(load(Some("x"), Some(&backend("\0")), true)),
        CallEnd::Panicked(None),
    ];
    for end in ends {
        let done = end_load(true, end);
        assert_eq!(done.holds_model, Some(false));
        assert_ne!(done.report.status, inference_status::INFERENCE_OK);
        assert!(!done.report.last_error.is_empty());
    }
    let refused = CallEnd::Failed(load(Some("x"), None, false));
    assert_eq!(end_load(false, refused).holds_model, None);
}

#[test]
fn detections_are_written_where_asked() {
    let places = DetectionPlaces { class_id: true, label: false, score: true, bbox: false };
    assert_eq!(detection_writes(Some(3), 2, places).unwrap(), places);
    let f = detection_writes(Some(3), 3, places).unwrap_err();
    assert_eq!(f.status, inference_status::INFERENCE_ERR_OUT_OF_RANGE);
    assert_eq!(f.message, "detection 3 of 3");
    assert_eq!(detection_writes(None, 0, places).unwrap_err().message, "result is NULL");
}

#[test]
fn images_that_are_refused() {
    let refused = |img: &inference_image| {
        let f = to_rgb(img).unwrap_err();
        assert_eq!(f.status, INVALID);
        f.message
    };
    let none = inference_image { pixels: None, width: 1, height: 1, stride: 0, format: 0 };
    assert_eq!(refused(&none), "image.pixels is NULL");
    assert_eq!(refused(&image(&[], 0, 3, 0, 0)), "image is 0x3");
    assert_eq!(refused(&image(&[], 1, 1, 0, 9)), "unknown pixel format 9");
    assert_eq!(refused(&image(&[], 2, 1, 5, 0)), "stride 5 is smaller than a 6-byte row");
    assert_eq!(
        refused(&image(&[], 65536, 65536, 0, 0)),
        "image 65536x65536 exceeds 268435456 pixels"
    );
}

#[test]
fn thresholds() {
    let ok = |v: f32| threshold_arg(v.to_bits(), "x").map(f32::from_bits).unwrap();
    assert_eq!(ok(-1.), 0.5);
    assert_eq!(INFERENCE_LAYOUT_DEFAULT_THRESHOLD, (-1f32).to_bits());
    assert_eq!(ok(0.), 0.);
    assert_eq!(ok(-0.), 0.);
    assert_eq!(ok(0.25), 0.25);
    assert_eq!(ok(1.), 1.);
    for bad in [1.0001f32, -0.5, f32::NAN, f32::INFINITY, f32::NEG_INFINITY] {
        let f = threshold_arg(bad.to_bits(), &format!("{bad}")).unwrap_err();
        assert_eq!(f.status, INVALID);
    }
    assert_eq!(
        threshold_arg(2f32.to_bits(), "2").unwrap_err().message,
        "threshold 2 is outside [0, 1] (pass INFERENCE_LAYOUT_DEFAULT_THRESHOLD for the default)"
    );
}

#[test]
fn images_are_taken_all_or_none() {
    let good = || image(&[1, 2, 3], 1, 1, 0, 0);
    let half = 0.25f32.to_bits();
    let request = take_images(true, Some(&vec![good(), good()]), half, "0.25").unwrap();
    assert_eq!(request.threshold, half);
    assert_eq!(request.images.len(), 2);
    assert_eq!(request.images[1].data, vec![1, 2, 3]);
    let list = vec![good(), image(&[], 0, 1, 0, 0), good()];
    let f = take_images(true, Some(&list), half, "0.25").unwrap_err();
    assert_eq!((f.status, f.message), (INVALID, "image 1: image is 0x1".to_string()));
    let f = take_images(true, Some(&list), 7f32.to_bits(), "7").unwrap_err();
    assert!(f.message.starts_with("threshold 7 is outside"));
    assert!(take_images(true, Some(&vec![]), half, "0.25").unwrap().images.is_empty());
}
