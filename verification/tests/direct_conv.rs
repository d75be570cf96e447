use candle_core::{Device, Result, Tensor};
use inference::layout::conv::{
    conv_task, plan_conv, plan_depthwise, plan_pointwise, pointwise_task, steps_of_row,
    tail_columns, tail_steps, Dims4, TileStep,
};
use inference::layout::cuda_kernels::{compilation_failed, kernel_source, MASK_TO_BOX_BLOCK};
use inference::layout::pack::pack_weights;
use inference::layout::planes::PhasePlanes;
use inference::layout::pool::{own_pool_threads, pool_threads, shared_pool_threads};
use inference::layout::{Act, Activation, LANES, OC_T};

fn reference(y: Tensor, act: Act) -> Result<Tensor> {
    match act {
        Act::Identity => Ok(y),
        Act::Relu => y.relu(),
        Act::Silu => y.silu(),
    }
}

fn apply(v: f32, act: Act) -> f32 {
    match act {
        Act::Identity => v,
        Act::Relu => v.max(0.),
        Act::Silu => v / (1. + (-v).exp()),
    }
}

fn floats(t: &Tensor) -> Vec<f32> {
    t.flatten_all().unwrap().to_vec1::<f32>().unwrap()
}

fn dims4(t: &Tensor) -> Dims4 {
    let (d0, d1, d2, d3) = t.dims4().unwrap();
    Dims4 { d0, d1, d2, d3 }
}

fn packed_dims(wt: &Dims4) -> Dims4 {
    Dims4 { d0: wt.d0 / OC_T, d1: wt.d1, d2: wt.d2 * wt.d3, d3: OC_T }
}

fn rel_err(got: &Tensor, want: &Tensor) -> f32 {
    assert_eq!(got.dims(), want.dims());
    let (got, want) = (floats(got), floats(want));
    let scale = want.iter().fold(0f32, |m, v| m.max(v.abs())).max(1e-6);
    got.iter().zip(&want).fold(0f32, |m, (a, b)| m.max((a - b).abs())) / scale
}

/// One step of a row on plain numbers: `at(ic, tap, x)` reads the input.
fn run_step(
    step: &TileStep,
    packed: &[f32],
    bias: &[f32],
    c: usize,
    kk: usize,
    act: Act,
    at: impl Fn(usize, usize, usize) -> f32,
    mut out: impl FnMut(usize, usize, Option<f32>) -> f32,
) {
    for j in 0..OC_T {
        let oc = step.tile * OC_T + j;
        for x in step.x0..step.x0 + step.n {
            let mut acc = if step.start == 0 { bias[oc] } else { out(oc, x, None) };
            for ic in step.start..step.end {
                for tap in 0..kk {
                    let weight = packed[((step.tile * c + ic) * kk + tap) * OC_T + j];
                    acc += weight * at(ic, tap, x);
                }
            }
            out(oc, x, Some(if step.last { apply(acc, act) } else { acc }));
        }
    }
}

fn conv2d(x: &Tensor, wt: &Tensor, b: &Tensor, s: usize, p: usize, act: Act) -> Tensor {
    let (xd, wd) = (dims4(x), dims4(wt));
    let packed = pack_weights(&floats(wt), wd.d0, wd.d1, wd.d2).unwrap();
    let plan = plan_conv(&xd, &packed_dims(&wd), s, p, true).unwrap();
    let (c, tiles) = (xd.d1, wd.d0 / OC_T);
    let (xs, bias) = (floats(x), floats(b));
    let (ho, wo) = (plan.ho, plan.wo);
    let image = c * xd.d2 * xd.d3;
    let mut out = vec![0f32; xd.d0 * plan.o * ho * wo];
    for bi in 0..xd.d0 {
        let planes =
            PhasePlanes::new(&xs[bi * image..(bi + 1) * image], c, xd.d2, xd.d3, s, p, 0f32);
        let taps = planes.tap_offsets(c, plan.k, s);
        let plane = planes.hs * planes.ws;
        let base = bi * plan.o * ho * wo;
        for task in 0..plan.groups * ho {
            let work = conv_task(&plan, c, tiles, task);
            for step in &work.steps {
                run_step(
                    step,
                    &packed,
                    &bias,
                    c,
                    plan.k * plan.k,
                    act,
                    |ic, tap, x| planes.data[ic * plane + taps[tap] + work.oy * planes.ws + x],
                    |oc, x, v| {
                        let at = base + (oc * ho + work.oy) * wo + x;
                        if let Some(v) = v {
                            out[at] = v;
                        }
                        out[at]
                    },
                );
            }
        }
    }
    Tensor::from_vec(out, (xd.d0, plan.o, ho, wo), &Device::Cpu).unwrap()
}

#[test]
fn direct_conv_matches_candle() -> Result<()> {
    let dev = Device::Cpu;
    // 45 input channels span several channel blocks; widths up to 101 span several segments
    let cases = [
        (3, 1, 1, 9, 7),
        (3, 2, 1, 10, 11),
        (2, 1, 0, 6, 5),
        (5, 2, 2, 9, 9),
        (3, 1, 1, 30, 101),
        (3, 2, 1, 21, 99),
    ];
    for (k, s, p, h, w) in cases {
        for act in [Act::Identity, Act::Relu, Act::Silu] {
            let x = Tensor::randn(0f32, 1., (2, 45, h, w), &dev)?;
            let wt = Tensor::randn(0f32, 1., (8, 45, k, k), &dev)?;
            let b = Tensor::randn(0f32, 1., 8, &dev)?;
            let want = reference(
                x.conv2d(&wt, p, s, 1, 1)?.broadcast_add(&b.reshape((1, 8, 1, 1))?)?,
                act,
            )?;
            let got = conv2d(&x, &wt, &b, s, p, act);
            // many-term fp32 sums: compare relative to the output scale
            let err = rel_err(&got, &want);
            assert!(err < 1e-5, "k={k} s={s} {h}x{w} {act:?} rel err={err}");
        }
    }
    Ok(())
}

fn pointwise(x: &Tensor, wt: &Tensor, b: &Tensor, act: Act) -> Tensor {
    let (xd, wd) = (dims4(x), dims4(wt));
    let packed = pack_weights(&floats(wt), wd.d0, wd.d1, 1).unwrap();
    let plan = plan_pointwise(&xd, &packed_dims(&wd), true).unwrap();
    let (c, tiles, hw) = (xd.d1, wd.d0 / OC_T, plan.hw);
    let (xs, bias) = (floats(x), floats(b));
    let mut out = vec![0f32; xd.d0 * plan.o * hw];
    for bi in 0..xd.d0 {
        let xb = &xs[bi * c * hw..(bi + 1) * c * hw];
        let base = bi * plan.o * hw;
        for task in 0..plan.groups * plan.chunks {
            for step in &pointwise_task(&plan, c, tiles, task) {
                run_step(
                    step,
                    &packed,
                    &bias,
                    c,
                    1,
                    act,
                    |ic, _, x| xb[ic * hw + x],
                    |oc, x, v| {
                        let at = base + oc * hw + x;
                        if let Some(v) = v {
                            out[at] = v;
                        }
                        out[at]
                    },
                );
            }
        }
        let tail = tail_columns(xb, c, hw, plan.body, 0f32);
        for step in &tail_steps(&plan, c, tiles) {
            run_step(
                step,
                &packed,
                &bias,
                c,
                1,
                act,
                |ic, _, x| tail[ic * LANES + x],
                |oc, x, v| {
                    let at = base + oc * hw + plan.body + x;
                    if let Some(v) = v {
                        out[at] = v;
                    }
                    out[at]
                },
            );
        }
    }
    Tensor::from_vec(out, (xd.d0, plan.o, xd.d2, xd.d3), &Device::Cpu).unwrap()
}

#[test]
fn direct_pointwise_matches_candle() -> Result<()> {
    let dev = Device::Cpu;
    // planes not a multiple of 8 floats take the tail scratch; 2x3 has no whole vector at all; 300 channels span blocks
    for (c, h, w) in [(7, 8, 8), (300, 5, 5), (45, 50, 50), (20, 17, 31), (9, 2, 3)] {
        for act in [Act::Identity, Act::Relu, Act::Silu] {
            let x = Tensor::randn(0f32, 1., (2, c, h, w), &dev)?;
            let wt = Tensor::randn(0f32, 1., (12, c, 1, 1), &dev)?;
            let b = Tensor::randn(0f32, 1., 12, &dev)?;
            let want = reference(
                x.conv2d(&wt, 0, 1, 1, 1)?.broadcast_add(&b.reshape((1, 12, 1, 1))?)?,
                act,
            )?;
            let got = pointwise(&x, &wt, &b, act);
            let err = rel_err(&got, &want);
            assert!(err < 1e-5, "c={c} {h}x{w} {act:?} rel err={err}");
        }
    }
    Ok(())
}

fn depthwise(x: &Tensor, wt: &Tensor, b: &Tensor, s: usize, p: usize, act: Act) -> Tensor {
    let (xd, wd) = (dims4(x), dims4(wt));
    let plan = plan_depthwise(&xd, &wd, s, p, true).unwrap();
    let (c, k) = (xd.d1, wd.d2);
    let (xs, ws, bias) = (floats(x), floats(wt), floats(b));
    let image = c * xd.d2 * xd.d3;
    let mut out = vec![];
    for bi in 0..xd.d0 {
        let planes =
            PhasePlanes::new(&xs[bi * image..(bi + 1) * image], c, xd.d2, xd.d3, s, p, 0f32);
        let taps = planes.tap_offsets(c, k, s);
        let plane = planes.hs * planes.ws;
        for ch in 0..c {
            for oy in 0..plan.ho {
                for x in 0..plan.wo {
                    let mut acc = bias[ch];
                    for (tap, off) in taps.iter().enumerate() {
                        let v = planes.data[ch * plane + off + oy * planes.ws + x];
                        acc += v * ws[ch * k * k + tap];
                    }
                    out.push(apply(acc, act));
                }
            }
        }
    }
    Tensor::from_vec(out, (xd.d0, c, plan.ho, plan.wo), &Device::Cpu).unwrap()
}

#[test]
fn direct_depthwise_matches_candle() -> Result<()> {
    let dev = Device::Cpu;
    for (k, s, h, w) in [
        (3, 1, 9, 7),
        (3, 2, 10, 10),
        (3, 2, 9, 11),
        (5, 1, 8, 13),
        (5, 2, 7, 7),
        (5, 1, 25, 25),
    ] {
        for act in [Act::Identity, Act::Relu, Act::Silu] {
            let c = 6;
            let p = (k - 1) / 2;
            let x = Tensor::randn(0f32, 1., (2, c, h, w), &dev)?;
            let wt = Tensor::randn(0f32, 1., (c, 1, k, k), &dev)?;
            let b = Tensor::randn(0f32, 1., c, &dev)?;
            let want = reference(
                x.conv2d(&wt, p, s, 1, c)?.broadcast_add(&b.reshape((1, c, 1, 1))?)?,
                act,
            )?;
            let got = depthwise(&x, &wt, &b, s, p, act);
            // many-term fp32 sums: compare relative to the output scale
            let err = rel_err(&got, &want);
            assert!(err < 1e-5, "k={k} s={s} {h}x{w} {act:?} rel err={err}");
        }
    }
    Ok(())
}

#[test]
fn phases_of_a_small_input() {
    let x: Vec<i32> = (1..=9).collect();
    let planes = PhasePlanes::new(&x, 1, 3, 3, 2, 1, 0);
    assert_eq!((planes.hs, planes.ws, planes.data.len()), (3, 8, 4 * 24 + 40));
    let row = |plane: usize, r: usize| planes.data[(plane * 3 + r) * 8..][..3].to_vec();
    // Padded rows are 0, 1 2 3, 4 5 6, 7 8 9, 0.
    assert_eq!(row(0, 1), vec![0, 5, 0]);
    assert_eq!(row(1, 1), vec![4, 6, 0]);
    assert_eq!(row(2, 0), vec![0, 2, 0]);
    assert_eq!(row(3, 0), vec![1, 3, 0]);
    assert_eq!(row(3, 1), vec![7, 9, 0]);
    assert_eq!(planes.tap_offsets(1, 3, 2), vec![0, 24, 1, 48, 72, 49, 8, 32, 9]);
}

#[test]
fn weights_in_tiles() {
    let src: Vec<i32> = (0..8 * 2 * 4).collect();
    let packed = pack_weights(&src, 8, 2, 2).unwrap();
    assert_eq!(packed[..4], [0, 8, 16, 24]);
    assert_eq!(packed[4..8], [1, 9, 17, 25]);
    assert_eq!(packed[16..20], [4, 12, 20, 28]);
    assert_eq!(packed[32..36], [32, 40, 48, 56]);
    // Those of a square kernel are packed, and no more.
    assert_eq!(pack_weights(&src, 4, 2, 2).unwrap(), packed[..32]);
    let odd = Err("direct conv packs 4 output channels at a time, got 6".to_string());
    assert_eq!(pack_weights(&src[..48], 6, 2, 2), odd);
    assert_eq!(pack_weights(&src[..1], 6, 2, 2), odd);
}

#[test]
fn plans_and_refusals() {
    let d = |d0, d1, d2, d3| Dims4 { d0, d1, d2, d3 };
    let plan = plan_conv(&d(2, 45, 30, 101), &d(2, 45, 9, 4), 1, 1, true).unwrap();
    assert_eq!((plan.o, plan.ho, plan.wo, plan.k), (8, 30, 101, 3));
    assert_eq!((plan.ic_block, plan.tile_floats, plan.group, plan.groups), (40, 1620, 2, 1));
    let misfit = plan_conv(&d(2, 44, 30, 101), &d(2, 45, 9, 4), 1, 1, true);
    assert_eq!(
        misfit.unwrap_err(),
        "direct conv: packed weight [2, 45, 9, 4] does not fit input [2, 44, 30, 101]"
    );
    assert!(plan_conv(&d(2, 45, 30, 101), &d(2, 45, 8, 4), 1, 1, true).is_err());
    assert!(plan_conv(&d(2, 45, 30, 101), &d(2, 45, 9, 3), 1, 1, true).is_err());
    assert!(plan_conv(&d(2, 45, 30, 101), &d(2, 45, 9, 4), 1, 1, false).is_err());
    let plan = plan_pointwise(&d(1, 300, 17, 31), &d(3, 300, 1, 4), true).unwrap();
    assert_eq!((plan.hw, plan.body, plan.chunks, plan.ic_block), (527, 520, 3, 128));
    assert_eq!(
        plan_pointwise(&d(1, 3, 2, 2), &d(3, 3, 4, 4), true).unwrap_err(),
        "direct pointwise: packed weight [3, 3, 4, 4] does not fit input [1, 3, 2, 2]"
    );
    let plan = plan_depthwise(&d(1, 6, 9, 11), &d(6, 1, 3, 3), 2, 1, true).unwrap();
    assert_eq!((plan.ho, plan.wo), (5, 6));
    assert_eq!(
        plan_depthwise(&d(1, 6, 9, 11), &d(6, 2, 3, 3), 2, 1, true).unwrap_err(),
        "direct depthwise: weight [6, 2, 3, 3] vs input [1, 6, 9, 11]"
    );
}

#[test]
fn steps_cover_a_row() {
    let steps = steps_of_row(10, 4, 1, 3, 0, 50);
    let first = TileStep { start: 0, end: 4, last: false, tile: 1, x0: 0, n: 24 };
    assert_eq!(steps[0], first);
    // Two segments, three channel blocks, two tiles: two steps each, then one each.
    assert_eq!(steps.len(), 3 * 2 * 2 + 3 * 2);
    for tile in 1..3 {
        for x in 0..50 {
            let mut reached = 0;
            for s in steps.iter().filter(|s| s.tile == tile && s.x0 <= x && x < s.x0 + s.n) {
                assert_eq!(s.start, reached);
                reached = s.end;
                assert_eq!(s.last, reached == 10);
            }
            assert_eq!(reached, 10);
        }
    }
    assert!(steps_of_row(10, 4, 1, 3, 5, 5).is_empty());
}

#[test]
fn tasks_write_different_rows() {
    let d = |d0, d1, d2, d3| Dims4 { d0, d1, d2, d3 };
    let plan = plan_conv(&d(1, 1024, 5, 40), &d(3, 1024, 9, 4), 1, 1, true).unwrap();
    assert_eq!((plan.group, plan.groups), (1, 3));
    let mut rows = vec![];
    for task in 0..plan.groups * plan.ho {
        let work = conv_task(&plan, 1024, 3, task);
        rows.push((work.steps[0].tile, work.oy));
    }
    rows.sort();
    rows.dedup();
    assert_eq!(rows.len(), 15);
}

#[test]
fn pointwise_chunks_read_whole_vectors() {
    let d = |d0, d1, d2, d3| Dims4 { d0, d1, d2, d3 };
    let plan = plan_pointwise(&d(1, 6, 20, 21), &d(2, 6, 1, 4), true).unwrap();
    assert_eq!((plan.hw, plan.body, plan.chunks), (420, 416, 3));
    let mut times = vec![0; plan.body];
    for task in 0..plan.groups * plan.chunks {
        for step in &pointwise_task(&plan, 6, 2, task) {
            assert_eq!((step.x0 % LANES, step.n % LANES), (0, 0));
            for x in step.x0..step.x0 + step.n {
                times[x] += 1;
            }
        }
    }
    // Each column once in each of the two tiles.
    assert_eq!(times, vec![2; 416]);
    let tail = |tile| TileStep { start: 0, end: 6, last: true, tile, x0: 0, n: 4 };
    assert_eq!(tail_steps(&plan, 6, 2), vec![tail(0), tail(1)]);
    let whole = plan_pointwise(&d(1, 6, 4, 4), &d(2, 6, 1, 4), true).unwrap();
    assert!(tail_steps(&whole, 6, 2).is_empty());
}

#[test]
fn integer_steps_add_up_to_the_convolution() {
    let (o, c, h, w, k, s, p) = (8, 45, 5, 61, 3, 2, 1);
    let number = |i: usize| (i * 7919 % 23) as i64 - 11;
    let wt: Vec<i64> = (0..o * c * k * k).map(number).collect();
    let x: Vec<i64> = (3..c * h * w + 3).map(number).collect();
    let d = |d0, d1, d2, d3| Dims4 { d0, d1, d2, d3 };
    let packed = pack_weights(&wt, o, c, k).unwrap();
    let plan = plan_conv(&d(1, c, h, w), &d(o / OC_T, c, k * k, OC_T), s, p, true).unwrap();
    let planes = PhasePlanes::new(&x, c, h, w, s, p, 0i64);
    let taps = planes.tap_offsets(c, k, s);
    let mut out = vec![0i64; o * plan.ho * plan.wo];
    for task in 0..plan.groups * plan.ho {
        let work = conv_task(&plan, c, o / OC_T, task);
        for step in &work.steps {
            for (j, x) in (0..OC_T).flat_map(|j| (step.x0..step.x0 + step.n).map(move |x| (j, x))) {
                let at = ((step.tile * OC_T + j) * plan.ho + work.oy) * plan.wo + x;
                let mut sum = if step.start == 0 { 5 } else { out[at] };
                for ic in step.start..step.end {
                    let row = ic * planes.hs * planes.ws + work.oy * planes.ws + x;
                    for (tap, offset) in taps.iter().enumerate() {
                        let weight = packed[((step.tile * c + ic) * k * k + tap) * OC_T + j];
                        sum += weight * planes.data[row + offset];
                    }
                }
                out[at] = if step.last { sum.max(0) } else { sum };
            }
        }
    }
    for (oc, oy, ox) in [(0, 0, 0), (3, 1, 30), (7, 2, 17), (4, 2, 5)] {
        let mut sum = 5;
        for ic in 0..c {
            for (ky, kx) in (0..k * k).map(|tap| (tap / k, tap % k)) {
                let (row, col) = (oy * s + ky, ox * s + kx);
                if row >= p && row < p + h && col >= p && col < p + w {
                    let weight = wt[(oc * c + ic) * k * k + ky * k + kx];
                    sum += weight * x[(ic * h + row - p) * w + col - p];
                }
            }
        }
        assert_eq!(out[(oc * plan.ho + oy) * plan.wo + ox], sum.max(0));
    }
}

#[test]
fn activations_that_can_be_fused() {
    assert_eq!(Act::from_candle(None), Some(Act::Identity));
    assert_eq!(Act::from_candle(Some(Activation::Relu)), Some(Act::Relu));
    assert_eq!(Act::from_candle(Some(Activation::Silu)), Some(Act::Silu));
    assert_eq!(Act::from_candle(Some(Activation::Other)), None);
}

#[test]
fn threads_of_the_pools() {
    assert_eq!(pool_threads(false, true, 8, 16), Some(8));
    assert_eq!(pool_threads(false, true, 8, 2), Some(2));
    assert_eq!(pool_threads(true, true, 8, 16), None);
    assert_eq!(pool_threads(false, false, 8, 16), None);
    assert_eq!(shared_pool_threads(false, true, 1), Some(1));
    assert_eq!(shared_pool_threads(true, true, 1), None);
    assert_eq!(own_pool_threads(true, 0), Some(1));
    assert_eq!(own_pool_threads(true, 3), Some(3));
    assert_eq!(own_pool_threads(false, 3), None);
}

#[test]
fn text_of_the_cuda_kernels() {
    assert_eq!(MASK_TO_BOX_BLOCK, 256);
    assert_eq!(kernel_source("x"), "#define MASK_TO_BOX_BLOCK 256\nx");
    assert_eq!(compilation_failed("oops"), "nvrtc layout kernels: oops");
}
