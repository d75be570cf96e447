use inference::axes::swap_axes;
use inference::paddleocr_vl::connector::{Connector, LinearSize};
use inference::paddleocr_vl::preprocess::{
    patch_grid, patches_of, patchify, planes_of, preprocess_decoded, smart_resize,
    smart_resize_bounded, Adjustment, DecodedImage, PixelKind, ResizePlan, Samples, FACTOR,
    MAX_PIXELS, MIN_PIXELS,
};
use inference::paddleocr_vl::text::{
    attention_path, double_sections, join_heads, mrope_select, projection_tensor, rotate_half,
    split_heads, AttentionPath, DecoderLayer, ErnieTextModel, Projection, TextConfig,
};

/// The sides of a plan, with roots taken in double precision.
fn sides(plan: &ResizePlan) -> (u64, u64) {
    let (h, w, f) = (plan.height as f64, plan.width as f64, FACTOR as f64);
    let (rows, cols) = match plan.adjustment {
        Adjustment::Keep => (0., 0.),
        Adjustment::Shrink => {
            let beta = (h * w / MAX_PIXELS as f64).sqrt();
            ((h / beta / f).floor(), (w / beta / f).floor())
        }
        Adjustment::Grow => {
            let beta = (MIN_PIXELS as f64 / (h * w)).sqrt();
            ((h * beta / f).ceil(), (w * beta / f).ceil())
        }
    };
    assert!(plan.adjusted_by(rows as u32, cols as u32, MIN_PIXELS as u32, MAX_PIXELS as u32));
    plan.finish(rows as u32, cols as u32)
}

#[test]
fn smart_resize_rejects_degenerate_images() -> Result<(), String> {
    // below min_pixels, so scaled up like the reference: ceil(80*beta/28)*28 by ceil(520*beta/28)*28
    assert_eq!(sides(&smart_resize(80, 520)?), (140, 868));
    assert!(smart_resize(0, 640).is_err());
    // 1x10000 used to produce a zero-height grid and an empty vision tower input
    assert!(smart_resize(1, 10000).is_err());
    Ok(())
}

#[test]
fn resize_plans() {
    let plan = smart_resize(600, 800).unwrap();
    // 600 / 28 is 21.43 and 800 / 28 is 28.57.
    assert_eq!((plan.rows, plan.cols), (21, 29));
    assert_eq!(plan.adjustment, Adjustment::Keep);
    assert_eq!(plan.finish(1, 1), (588, 812));
    let large = smart_resize(3000, 4000).unwrap();
    assert_eq!(large.adjustment, Adjustment::Shrink);
    assert_eq!(sides(&large), (840, 1148));
    // Ties go to the even neighbour: 42 / 28 is 1.5, 70 / 28 is 2.5.
    let tied = smart_resize_bounded(42, 70, 0, 1000000).unwrap();
    assert_eq!((tied.rows, tied.cols), (2, 2));
    // The shorter side is brought up first: 10 x 200 becomes 28 x 560.
    let short = smart_resize_bounded(10, 200, 0, 1000000).unwrap();
    assert_eq!((short.height, short.width, short.rows, short.cols), (28, 560, 1, 20));
    let thin = smart_resize_bounded(200, 10, 0, 1000000).unwrap();
    assert_eq!((thin.height, thin.width), (560, 28));
    assert_eq!(smart_resize(0, 640).unwrap_err(), "image has a zero dimension (640x0)");
    assert_eq!(smart_resize(1, 10000).unwrap_err(), "image aspect ratio 10000x1 exceeds 200");
    assert!(smart_resize(28, 5600).is_ok());
    assert!(smart_resize(28, 5601).is_err());
    assert!(smart_resize(u32::MAX, u32::MAX).is_ok());
}

#[test]
fn adjusted_sides_are_near_the_roots() {
    let (min, max) = (MIN_PIXELS as u32, MAX_PIXELS as u32);
    // 80 x 520 grows to sqrt(80 / 520 * 112896) = 131.8 by 856.6.
    let grown = smart_resize(80, 520).unwrap();
    assert!(grown.adjusted_by(5, 31, min, max));
    for (rows, cols) in [(0, 31), (4, 31), (6, 31), (5, 30), (5, 32), (5, u32::MAX)] {
        assert!(!grown.adjusted_by(rows, cols, min, max));
    }
    // 3000 x 4000 shrinks to sqrt(3 / 4 * 1003520) = 867.5 by 1156.7.
    let shrunk = smart_resize(3000, 4000).unwrap();
    assert!(shrunk.adjusted_by(30, 41, min, max));
    for (rows, cols) in [(0, 41), (29, 41), (31, 41), (30, 40), (30, 42), (u32::MAX, 41)] {
        assert!(!shrunk.adjusted_by(rows, cols, min, max));
    }
    // Sides that are kept need no others.
    assert!(smart_resize(600, 800).unwrap().adjusted_by(0, 0, min, max));
}

#[test]
fn resized_sides_are_within_bounds() {
    let lengths = [1, 13, 28, 29, 80, 336, 337, 520, 1001, 1120, 2800, 5600, 40000, u32::MAX];
    for height in lengths {
        for width in lengths {
            if let Ok(plan) = smart_resize(height, width) {
                let (h, w) = sides(&plan);
                assert!((MIN_PIXELS as u64..=MAX_PIXELS as u64).contains(&(h * w)));
            }
        }
    }
}

#[test]
fn planes_and_patches() {
    let pixels: Vec<u32> = (0..2 * 3 * 3).collect();
    let planes = planes_of(&pixels, 2, 3, 3).unwrap();
    assert_eq!(planes[..6], [0, 3, 6, 9, 12, 15]);
    assert_eq!(planes[6..9], [1, 4, 7]);
    assert!(planes_of(&pixels, 2, 2, 3).is_none());
    assert_eq!(patch_grid(28, 56), (1, 2, 4));
    let image: Vec<u32> = (0..2 * 28 * 28).collect();
    let patches = patchify(&image, 2, 28, 28).unwrap();
    assert_eq!(patches.len(), image.len());
    // The first patch: its first plane, row by row.
    assert_eq!(patches[..3], [0, 1, 2]);
    assert_eq!(patches[14..16], [28, 29]);
    // Its second plane, then the patch to the right, then the one below.
    assert_eq!(patches[196], 784);
    assert_eq!(patches[392], 14);
    assert_eq!(patches[784], 14 * 28);
    assert!(patchify(&image[..2 * 28 * 27].to_vec(), 2, 28, 27).is_none());
}

fn bytes_of(width: u32, height: u32) -> Vec<u8> {
    (0..width * height * 3).map(|i| (i % 251) as u8).collect()
}

fn gradient(width: u32, height: u32) -> DecodedImage {
    DecodedImage {
        kind: PixelKind::Rgb,
        width,
        height,
        samples: Samples::Bytes(bytes_of(width, height)),
    }
}

#[test]
fn images_that_keep_their_sides_keep_their_pixels() {
    let pixels = bytes_of(448, 336);
    let patches = preprocess_decoded(gradient(448, 336), 1, 1).unwrap();
    assert_eq!(patches.grid, (1, 24, 32));
    let direct = patches_of(&pixels, 336, 448).unwrap();
    assert_eq!(patches.data, direct.data);
    assert_eq!(patches.data[196], pixels[1]);
    assert!(patches_of(&pixels[..336 * 440 * 3].to_vec(), 336, 440).is_none());
}

#[test]
fn images_are_resampled() {
    let flat = DecodedImage {
        kind: PixelKind::Luma,
        width: 600,
        height: 450,
        samples: Samples::Bytes(vec![77; 600 * 450]),
    };
    let patches = preprocess_decoded(flat, 1, 1).unwrap();
    assert_eq!(patches.grid, (1, 32, 42));
    assert_eq!(patches.data.len(), 448 * 588 * 3);
    assert!(patches.data.iter().all(|&v| v == 77));
    let clear = DecodedImage {
        kind: PixelKind::Rgba,
        width: 2,
        height: 2,
        samples: Samples::Bytes(vec![9; 16]),
    };
    let grown = preprocess_decoded(clear, 12, 12).unwrap();
    assert_eq!(grown.grid, (1, 24, 24));
    let alpha = DecodedImage {
        kind: PixelKind::LumaA,
        width: 1,
        height: 1,
        samples: Samples::Bytes(vec![9, 255]),
    };
    assert!(preprocess_decoded(alpha, 12, 12).is_ok());
    // 257 parts in 65535 are one part in 255.
    let kinds = [PixelKind::Luma, PixelKind::LumaA, PixelKind::Rgb, PixelKind::Rgba];
    for (kind, n) in kinds.into_iter().zip(1..) {
        let samples = Samples::Words(vec![5 * 257; 448 * 336 * n]);
        let wide = DecodedImage { kind, width: 448, height: 336, samples };
        let patches = preprocess_decoded(wide, 1, 1).unwrap();
        assert_eq!(patches.data, vec![5; 448 * 336 * 3]);
    }
    assert!(preprocess_decoded(gradient(2, 1000), 1, 1).is_err());
}

#[test]
fn swapping_axes_twice() {
    let x: Vec<usize> = (0..2 * 3 * 4 * 5).collect();
    let y = swap_axes(&x, 2, 3, 4, 5);
    assert_eq!(y[..6], [0, 1, 2, 3, 4, 20]);
    assert_eq!(swap_axes(&y, 2, 4, 3, 5), x);
    assert_eq!(swap_axes(&x, 6, 1, 4, 5), x);
    assert!(swap_axes::<u8>(&vec![], 0, 3, 4, 5).is_empty());
}

#[test]
fn merged_patches_are_in_reading_order() {
    let connector = Connector { merge_size: 2, vision_hidden: 1, text_hidden: 5 };
    let x: Vec<u32> = (0..16).collect();
    let merged = connector.merge(&x, 1, 4, 4).unwrap();
    assert_eq!(merged, vec![0, 1, 4, 5, 2, 3, 6, 7, 8, 9, 12, 13, 10, 11, 14, 15]);
    assert!(connector.merge(&x, 1, 4, 3).is_none());
    assert_eq!(connector.merged_dims(1, 4, 4), (4, 4));
    let wide = Connector { merge_size: 2, vision_hidden: 3, text_hidden: 5 };
    let x: Vec<u32> = (0..12).collect();
    assert_eq!(wide.merge(&x, 1, 2, 2).unwrap(), x);
    let layers = wide.load();
    assert_eq!(layers.pre_norm, 3);
    assert_eq!(layers.linear_1, LinearSize { inputs: 12, outputs: 12 });
    assert_eq!(layers.linear_2, LinearSize { inputs: 12, outputs: 5 });
    let names = wide.residual_tensors();
    assert_eq!(names.len(), 6);
    assert_eq!(names[0], "mlp_AR.pre_norm.weight");
    assert_eq!(names[5], "mlp_AR.linear_2.bias");
}

fn tiny_cfg() -> TextConfig {
    TextConfig {
        hidden_size: 12,
        num_hidden_layers: 2,
        num_attention_heads: 2,
        num_key_value_heads: 1,
        head_dim: 6,
        intermediate_size: 16,
        vocab_size: 10,
    }
}

#[test]
fn residual_tensors_excludes_quantized_projections() {
    let model = ErnieTextModel { cfg: tiny_cfg() };
    let names: std::collections::HashSet<String> = model.residual_tensors().into_iter().collect();
    assert!(names.contains("model.norm.weight"));
    assert!(names.contains("model.layers.0.input_layernorm.weight"));
    assert!(names.contains("model.layers.1.post_attention_layernorm.weight"));
    assert!(!names.contains("model.layers.0.self_attn.q_proj.weight"));
    assert!(!names.contains("lm_head.weight"));
    assert_eq!(names.len(), 5);
    let name = |p| projection_tensor(0, p);
    assert_eq!(name(Projection::Query), "model.layers.0.self_attn.q_proj.weight");
    assert_eq!(name(Projection::Key), "model.layers.0.self_attn.k_proj.weight");
    assert_eq!(name(Projection::Value), "model.layers.0.self_attn.v_proj.weight");
    assert_eq!(name(Projection::Output), "model.layers.0.self_attn.o_proj.weight");
    assert_eq!(name(Projection::Gate), "model.layers.0.mlp.gate_proj.weight");
    assert_eq!(name(Projection::Up), "model.layers.0.mlp.up_proj.weight");
    assert_eq!(projection_tensor(17, Projection::Down), "model.layers.17.mlp.down_proj.weight");
}

#[test]
fn decoder_layer_sizes() {
    let layer = DecoderLayer::load(&tiny_cfg(), 2);
    assert_eq!(layer.q_proj, LinearSize { inputs: 12, outputs: 12 });
    assert_eq!(layer.k_proj, LinearSize { inputs: 12, outputs: 6 });
    assert_eq!(layer.v_proj, layer.k_proj);
    assert_eq!(layer.o_proj, LinearSize { inputs: 12, outputs: 12 });
    assert_eq!(layer.gate_proj, LinearSize { inputs: 12, outputs: 16 });
    assert_eq!(layer.up_proj, layer.gate_proj);
    assert_eq!(layer.down_proj, LinearSize { inputs: 16, outputs: 12 });
    assert_eq!((layer.num_heads, layer.num_kv_heads, layer.head_dim), (1, 1, 6));
}

#[test]
fn heads_are_split_and_joined() {
    let x: Vec<u32> = (0..2 * 3 * 2 * 2).collect();
    let heads = split_heads(&x, 2, 3, 2, 2).unwrap();
    assert_eq!(heads[..6], [0, 1, 4, 5, 8, 9]);
    assert_eq!(join_heads(&heads, 2, 3, 2, 2, true).unwrap(), x);
    assert_eq!(join_heads(&heads, 2, 3, 2, 2, false).unwrap(), heads);
    assert_eq!(split_heads(&x, 6, 1, 2, 2).unwrap(), x);
    assert!(split_heads(&x, 2, 3, 2, 3).is_none());
    assert!(join_heads(&x, 2, 3, 2, 3, true).is_none());
}

#[test]
fn attention_paths() {
    assert_eq!(attention_path(false, true), AttentionPath::OwnCache);
    assert_eq!(attention_path(true, true), AttentionPath::Paged);
    assert_eq!(attention_path(true, false), AttentionPath::PagedWithoutCache);
}

#[test]
fn halves_are_turned() {
    let x = vec![1, 2, 3, 4, 5, 6, 7, 8];
    let negated: Vec<i32> = x.iter().map(|v| -v).collect();
    assert_eq!(rotate_half(&x, &negated, 2, 4), vec![-3, -4, 1, 2, -7, -8, 5, 6]);
    assert_eq!(rotate_half(&x[..3].to_vec(), &negated[..3].to_vec(), 1, 3), vec![-2, 1]);
}

#[test]
fn sections_take_their_axes() {
    // Three axes, two rows, six features; the value names axis, row and feature.
    let mut table = vec![];
    for axis in 0..3 {
        for row in 0..2 {
            for k in 0..6 {
                table.push(100 * axis + 10 * row + k);
            }
        }
    }
    let sections = double_sections(&[1, 1, 1]);
    assert_eq!(sections, vec![1, 1, 1, 1, 1, 1]);
    let selected = mrope_select(&table, 3, 2, 6, &sections).unwrap();
    assert_eq!(selected, vec![0, 101, 202, 3, 104, 205, 10, 111, 212, 13, 114, 215]);
    let uneven = mrope_select(&table, 3, 2, 6, &vec![2, 0, 3]).unwrap();
    assert_eq!(uneven[..5], [0, 1, 202, 203, 204]);
    assert!(mrope_select(&table, 3, 2, 6, &vec![4, 3]).is_none());
    assert!(mrope_select(&table, 3, 2, 6, &vec![]).is_none());
    assert!(mrope_select(&table[..24].to_vec(), 2, 2, 6, &vec![1, 1, 1]).is_none());
    assert!(mrope_select(&table[..24].to_vec(), 2, 2, 6, &vec![1, 1]).is_some());
}
