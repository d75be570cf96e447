//! How sizes in bytes follow from elements, and which workloads are planned for.

use vstd::prelude::*;

use crate::loaders::multimodal::lfm2vl::{
    lfm2vl_layer_elems, lfm2vl_mapped_act_elems, lfm2vl_non_mapped_elems, lfm2vl_vision_act_elems,
    Lfm2VlConfig, Lfm2VlLoader,
};
use crate::loaders::multimodal::minicpm_o::{
    minicpmo_layer_elems, minicpmo_mapped_act_elems, minicpmo_non_mapped_elems,
    minicpmo_vision_act_elems, MiniCpmOConfig, MiniCpmOLoader,
};
use crate::loaders::multimodal::mistral3::{
    mistral3_layer_elems, mistral3_non_mapped_elems, Mistral3Config, Mistral3Loader,
};
use crate::loaders::multimodal::muse_glimmer::{
    muse_glimmer_layer_elems, muse_glimmer_mapped_act_elems, muse_glimmer_non_mapped_elems,
    muse_glimmer_vision_act_elems, MuseGlimmerConfig, MuseGlimmerLoader,
};
use crate::loaders::multimodal::qwen2vl::{
    qwen2vl_layer_elems, qwen2vl_mapped_act_elems, qwen2vl_non_mapped_elems,
    qwen2vl_vision_act_elems, Qwen2VLConfig, Qwen2VLLoader,
};
use crate::loaders::multimodal::qwen3_5_moe::{
    qwen3_5_moe_layer_elems, qwen3_5_moe_mapped_act_elems, qwen3_5_moe_non_mapped_elems,
    Qwen3_5MoeConfig, Qwen3_5MoeLoader,
};
use crate::loaders::multimodal::qwen3vl::{
    qwen3vl_layer_elems, qwen3vl_mapped_act_elems, qwen3vl_non_mapped_elems,
    qwen3vl_vision_act_elems, Qwen3VLConfig, Qwen3VLLoader,
};
use crate::loaders::multimodal::vllama::{
    vllama_layer_elems, vllama_mapped_act_elems, vllama_non_mapped_elems, vllama_vision_act_elems,
    MLlamaConfig, VLlamaLoader,
};
use crate::loaders::multimodal::vllama4::{
    vllama4_layer_elems, vllama4_non_mapped_elems, Llama4Config, VLlama4Loader,
};
use crate::loaders::multimodal::voxtral::{
    voxtral_encoder_act_elems, voxtral_layer_elems, voxtral_mapped_act_elems,
    voxtral_non_mapped_elems, VoxtralConfig, VoxtralLoader,
};
use crate::loaders::normal::deepseek3::{
    deepseek3_layer_elems, deepseek3_mapped_act_elems, deepseek3_non_mapped_elems, DeepSeekV3Config,
    DeepSeekV3Loader,
};
use crate::loaders::normal::granite::{
    granite_layer_elems, granite_mapped_act_elems, granite_non_mapped_elems, GraniteConfig,
    GraniteLayerType, GraniteMoeHybridLoader,
};
use crate::loaders::normal::lfm2::{
    lfm2_layer_elems, lfm2_mapped_act_elems, lfm2_non_mapped_elems, Lfm2Config, Lfm2Layer,
    Lfm2LayerType, Lfm2Loader,
};
use crate::loaders::normal::qwen3_next::{
    qwen3_next_layer_elems, qwen3_next_mapped_act_elems, qwen3_next_non_mapped_elems, LayerType,
    Qwen3NextConfig, Qwen3NextLoader,
};
use crate::loaders::{AutoDeviceMapParams, LoaderError, PackFactors};
use crate::tensor::DType;

verus! {

proof fn lemma_widths(n: int)
    ensures
        n * DType::F32.bytes() == 4 * n,
        n * DType::F16.bytes() == 2 * n,
        n * DType::BF16.bytes() == 2 * n,
{
    let (wide, half) = (DType::F32.bytes() as int, DType::F16.bytes() as int);
    assert(wide == 4 && half == 2);
    assert(n * wide == 4 * n && n * half == 2 * n) by (nonlinear_arith)
        requires
            wide == 4,
            half == 2,
    ;
}

/// A size is that of the elements: twice as much in single precision as in half. There is one for
/// each layer.
pub proof fn law_granite_sizes_follow_the_type(
    loader: GraniteMoeHybridLoader,
    cfg: GraniteConfig,
    packs: PackFactors,
    pack: usize,
    layers: Vec<GraniteLayerType>,
    wide: usize,
    half: usize,
    wides: Vec<usize>,
    halves: Vec<usize>,
    i: int,
)
    requires
        call_ensures(GraniteMoeHybridLoader::non_mapped_size_in_bytes,
            (&loader, &cfg, DType::F32, packs), wide),
        call_ensures(GraniteMoeHybridLoader::non_mapped_size_in_bytes,
            (&loader, &cfg, DType::BF16, packs), half),
        call_ensures(GraniteMoeHybridLoader::layer_sizes_in_bytes,
            (&loader, &cfg, &layers, DType::F32, pack), wides),
        call_ensures(GraniteMoeHybridLoader::layer_sizes_in_bytes,
            (&loader, &cfg, &layers, DType::F16, pack), halves),
        0 <= i < layers@.len(),
    ensures
        wide == 2 * half,
        half == 2 * granite_non_mapped_elems(cfg, packs),
        wides@.len() == layers@.len() && halves@.len() == layers@.len(),
        wides@[i] == 2 * halves@[i],
        halves@[i] == 2 * granite_layer_elems(cfg, layers@[i], pack as int),
{
    lemma_widths(granite_non_mapped_elems(cfg, packs));
    lemma_widths(granite_layer_elems(cfg, layers@[i], pack as int));
}

/// Room is planned for the workload of a text model, and any other workload is refused.
pub proof fn law_granite_plans_for_its_workload(
    loader: GraniteMoeHybridLoader,
    cfg: GraniteConfig,
    params: AutoDeviceMapParams,
    chunk: usize,
    r: Result<usize, LoaderError>,
)
    requires
        call_ensures(GraniteMoeHybridLoader::mapped_max_act_size_elems,
            (&loader, &cfg, &params, chunk), r),
    ensures
        r is Ok <==> params is Text,
        r is Err ==> r == Err::<usize, LoaderError>(LoaderError::ExpectedText),
        params matches AutoDeviceMapParams::Text { max_seq_len, max_batch_size }
            ==> r->Ok_0 == granite_mapped_act_elems(cfg, max_seq_len as int, max_batch_size as int,
            chunk as int),
{
}

/// A size is that of the elements: twice as much in single precision as in half. There is one for
/// each layer.
pub proof fn law_deepseek3_sizes_follow_the_type(
    loader: DeepSeekV3Loader,
    cfg: DeepSeekV3Config,
    packs: PackFactors,
    pack: usize,
    count: usize,
    wide: usize,
    half: usize,
    wides: Vec<usize>,
    halves: Vec<usize>,
    i: int,
)
    requires
        call_ensures(DeepSeekV3Loader::non_mapped_size_in_bytes,
            (&loader, &cfg, DType::F32, packs), wide),
        call_ensures(DeepSeekV3Loader::non_mapped_size_in_bytes,
            (&loader, &cfg, DType::BF16, packs), half),
        call_ensures(DeepSeekV3Loader::layer_sizes_in_bytes, (&loader, &cfg, DType::F32, pack),
            wides),
        call_ensures(DeepSeekV3Loader::layer_sizes_in_bytes, (&loader, &cfg, DType::F16, pack),
            halves),
        call_ensures(DeepSeekV3Loader::num_layers, (&loader, &cfg), count),
        0 <= i < count,
    ensures
        wide == 2 * half,
        half == 2 * deepseek3_non_mapped_elems(cfg, packs),
        wides@.len() == count && halves@.len() == count,
        wides@[i] == 2 * halves@[i],
        halves@[i] == 2 * deepseek3_layer_elems(cfg, i, pack as int),
{
    lemma_widths(deepseek3_non_mapped_elems(cfg, packs));
    lemma_widths(deepseek3_layer_elems(cfg, i, pack as int));
}

/// Room is planned for the workload of a text model, and any other workload is refused.
pub proof fn law_deepseek3_plans_for_its_workload(
    loader: DeepSeekV3Loader,
    cfg: DeepSeekV3Config,
    params: AutoDeviceMapParams,
    chunk: usize,
    r: Result<usize, LoaderError>,
)
    requires
        call_ensures(DeepSeekV3Loader::mapped_max_act_size_elems, (&loader, &cfg, &params, chunk),
            r),
    ensures
        r is Ok <==> params is Text,
        r is Err ==> r == Err::<usize, LoaderError>(LoaderError::ExpectedText),
        params matches AutoDeviceMapParams::Text { max_seq_len, max_batch_size }
            ==> r->Ok_0 == deepseek3_mapped_act_elems(cfg, max_seq_len as int,
            max_batch_size as int, chunk as int),
{
}

/// A size is that of the elements: twice as much in single precision as in half. There is one for
/// each layer.
pub proof fn law_lfm2_sizes_follow_the_type(
    loader: Lfm2Loader,
    cfg: Lfm2Config,
    packs: PackFactors,
    pack: usize,
    layers: Vec<Lfm2Layer>,
    wide: usize,
    half: usize,
    wides: Vec<usize>,
    halves: Vec<usize>,
    i: int,
)
    requires
        call_ensures(Lfm2Loader::non_mapped_size_in_bytes, (&loader, &cfg, DType::F32, packs),
            wide),
        call_ensures(Lfm2Loader::non_mapped_size_in_bytes, (&loader, &cfg, DType::BF16, packs),
            half),
        call_ensures(Lfm2Loader::layer_sizes_in_bytes, (&loader, &cfg, &layers, DType::F32, pack),
            wides),
        call_ensures(Lfm2Loader::layer_sizes_in_bytes, (&loader, &cfg, &layers, DType::F16, pack),
            halves),
        0 <= i < layers@.len(),
    ensures
        wide == 2 * half,
        half == 2 * lfm2_non_mapped_elems(cfg, packs),
        wides@.len() == layers@.len() && halves@.len() == layers@.len(),
        wides@[i] == 2 * halves@[i],
        halves@[i] == 2 * lfm2_layer_elems(cfg, layers@[i], pack as int),
{
    lemma_widths(lfm2_non_mapped_elems(cfg, packs));
    lemma_widths(lfm2_layer_elems(cfg, layers@[i], pack as int));
}

/// Room is planned for the workload of a text model, and any other workload is refused.
pub proof fn law_lfm2_plans_for_its_workload(
    loader: Lfm2Loader,
    cfg: Lfm2Config,
    params: AutoDeviceMapParams,
    chunk: usize,
    r: Result<usize, LoaderError>,
)
    requires
        call_ensures(Lfm2Loader::mapped_max_act_size_elems, (&loader, &cfg, &params, chunk), r),
    ensures
        r is Ok <==> params is Text,
        r is Err ==> r == Err::<usize, LoaderError>(LoaderError::ExpectedText),
        params matches AutoDeviceMapParams::Text { max_seq_len, max_batch_size }
            ==> r->Ok_0 == lfm2_mapped_act_elems(cfg, max_seq_len as int, max_batch_size as int,
            chunk as int),
{
}

/// A size is that of the elements: twice as much in single precision as in half. There is one for
/// each layer.
pub proof fn law_qwen3_next_sizes_follow_the_type(
    loader: Qwen3NextLoader,
    cfg: Qwen3NextConfig,
    packs: PackFactors,
    pack: usize,
    layers: Vec<LayerType>,
    wide: usize,
    half: usize,
    wides: Vec<usize>,
    halves: Vec<usize>,
    i: int,
)
    requires
        call_ensures(Qwen3NextLoader::non_mapped_size_in_bytes, (&loader, &cfg, DType::F32, packs),
            wide),
        call_ensures(Qwen3NextLoader::non_mapped_size_in_bytes,
            (&loader, &cfg, DType::BF16, packs), half),
        call_ensures(Qwen3NextLoader::layer_sizes_in_bytes,
            (&loader, &cfg, &layers, DType::F32, pack), wides),
        call_ensures(Qwen3NextLoader::layer_sizes_in_bytes,
            (&loader, &cfg, &layers, DType::F16, pack), halves),
        0 <= i < layers@.len(),
    ensures
        wide == 2 * half,
        half == 2 * qwen3_next_non_mapped_elems(cfg, packs),
        wides@.len() == layers@.len() && halves@.len() == layers@.len(),
        wides@[i] == 2 * halves@[i],
        halves@[i] == 2 * qwen3_next_layer_elems(cfg, layers@[i], pack as int),
{
    lemma_widths(qwen3_next_non_mapped_elems(cfg, packs));
    lemma_widths(qwen3_next_layer_elems(cfg, layers@[i], pack as int));
}

/// Room is planned for the workload of a text model, and any other workload is refused.
pub proof fn law_qwen3_next_plans_for_its_workload(
    loader: Qwen3NextLoader,
    cfg: Qwen3NextConfig,
    params: AutoDeviceMapParams,
    chunk: usize,
    r: Result<usize, LoaderError>,
)
    requires
        call_ensures(Qwen3NextLoader::mapped_max_act_size_elems, (&loader, &cfg, &params, chunk),
            r),
    ensures
        r is Ok <==> params is Text,
        r is Err ==> r == Err::<usize, LoaderError>(LoaderError::ExpectedText),
        params matches AutoDeviceMapParams::Text { max_seq_len, max_batch_size }
            ==> r->Ok_0 == qwen3_next_mapped_act_elems(cfg, max_seq_len as int,
            max_batch_size as int, chunk as int),
{
}

/// A size is that of the elements: twice as much in single precision as in half. There is one for
/// each layer.
pub proof fn law_lfm2vl_sizes_follow_the_type(
    loader: Lfm2VlLoader,
    cfg: Lfm2VlConfig,
    packs: PackFactors,
    pack: usize,
    layers: Vec<Lfm2LayerType>,
    wide: usize,
    half: usize,
    wides: Vec<usize>,
    halves: Vec<usize>,
    i: int,
)
    requires
        call_ensures(Lfm2VlLoader::non_mapped_size_in_bytes, (&loader, &cfg, DType::F32, packs),
            wide),
        call_ensures(Lfm2VlLoader::non_mapped_size_in_bytes, (&loader, &cfg, DType::BF16, packs),
            half),
        call_ensures(Lfm2VlLoader::layer_sizes_in_bytes,
            (&loader, &cfg, &layers, DType::F32, pack), wides),
        call_ensures(Lfm2VlLoader::layer_sizes_in_bytes,
            (&loader, &cfg, &layers, DType::F16, pack), halves),
        0 <= i < layers@.len(),
    ensures
        wide == 2 * half,
        half == 2 * lfm2vl_non_mapped_elems(cfg, packs),
        wides@.len() == layers@.len() && halves@.len() == layers@.len(),
        wides@[i] == 2 * halves@[i],
        halves@[i] == 2 * lfm2vl_layer_elems(cfg, layers@[i], pack as int),
{
    lemma_widths(lfm2vl_non_mapped_elems(cfg, packs));
    lemma_widths(lfm2vl_layer_elems(cfg, layers@[i], pack as int));
}

/// Room is planned for the workload of a multimodal model, and any other workload is refused.
pub proof fn law_lfm2vl_plans_for_its_workload(
    loader: Lfm2VlLoader,
    cfg: Lfm2VlConfig,
    params: AutoDeviceMapParams,
    chunk: usize,
    r: Result<usize, LoaderError>,
)
    requires
        call_ensures(Lfm2VlLoader::mapped_max_act_size_elems, (&loader, &cfg, &params, chunk), r),
    ensures
        r is Ok <==> params is Multimodal,
        r is Err ==> r == Err::<usize, LoaderError>(LoaderError::ExpectedMultimodal),
        params matches AutoDeviceMapParams::Multimodal { max_seq_len, max_batch_size,
            max_num_images, .. }
            ==> r->Ok_0 == lfm2vl_mapped_act_elems(cfg, max_seq_len as int,
            max_batch_size as int, max_num_images as int, chunk as int),
{
}

/// A size is that of the elements: twice as much in single precision as in half. There is one for
/// each layer.
pub proof fn law_minicpmo_sizes_follow_the_type(
    loader: MiniCpmOLoader,
    cfg: MiniCpmOConfig,
    packs: PackFactors,
    pack: usize,
    count: usize,
    wide: usize,
    half: usize,
    wides: Vec<usize>,
    halves: Vec<usize>,
    i: int,
)
    requires
        call_ensures(MiniCpmOLoader::non_mapped_size_in_bytes, (&loader, &cfg, DType::F32, packs),
            wide),
        call_ensures(MiniCpmOLoader::non_mapped_size_in_bytes, (&loader, &cfg, DType::BF16, packs),
            half),
        call_ensures(MiniCpmOLoader::layer_sizes_in_bytes, (&loader, &cfg, DType::F32, pack),
            wides),
        call_ensures(MiniCpmOLoader::layer_sizes_in_bytes, (&loader, &cfg, DType::F16, pack),
            halves),
        call_ensures(MiniCpmOLoader::num_layers, (&loader, &cfg), count),
        0 <= i < count,
    ensures
        wide == 2 * half,
        half == 2 * minicpmo_non_mapped_elems(cfg, packs),
        wides@.len() == count && halves@.len() == count,
        wides@[i] == 2 * halves@[i],
        halves@[i] == 2 * minicpmo_layer_elems(cfg, pack as int),
{
    lemma_widths(minicpmo_non_mapped_elems(cfg, packs));
    lemma_widths(minicpmo_layer_elems(cfg, pack as int));
}

/// Room is planned for the workload of a multimodal model, and any other workload is refused.
pub proof fn law_minicpmo_plans_for_its_workload(
    loader: MiniCpmOLoader,
    cfg: MiniCpmOConfig,
    params: AutoDeviceMapParams,
    chunk: usize,
    r: Result<usize, LoaderError>,
)
    requires
        call_ensures(MiniCpmOLoader::mapped_max_act_size_elems, (&loader, &cfg, &params, chunk), r),
    ensures
        r is Ok <==> params is Multimodal,
        r is Err ==> r == Err::<usize, LoaderError>(LoaderError::ExpectedMultimodal),
        params matches AutoDeviceMapParams::Multimodal { max_seq_len, max_batch_size,
            max_num_images, .. }
            ==> r->Ok_0 == minicpmo_mapped_act_elems(cfg, max_seq_len as int,
            max_batch_size as int, max_num_images as int, chunk as int),
{
}

/// A size is that of the elements: twice as much in single precision as in half. There is one for
/// each layer.
pub proof fn law_mistral3_sizes_follow_the_type(
    loader: Mistral3Loader,
    cfg: Mistral3Config,
    packs: PackFactors,
    pack: usize,
    count: usize,
    wide: usize,
    half: usize,
    wides: Vec<usize>,
    halves: Vec<usize>,
    i: int,
)
    requires
        call_ensures(Mistral3Loader::non_mapped_size_in_bytes, (&loader, &cfg, DType::F32, packs),
            wide),
        call_ensures(Mistral3Loader::non_mapped_size_in_bytes, (&loader, &cfg, DType::BF16, packs),
            half),
        call_ensures(Mistral3Loader::layer_sizes_in_bytes, (&loader, &cfg, DType::F32, pack),
            wides),
        call_ensures(Mistral3Loader::layer_sizes_in_bytes, (&loader, &cfg, DType::F16, pack),
            halves),
        call_ensures(Mistral3Loader::num_layers, (&loader, &cfg), count),
        0 <= i < count,
    ensures
        wide == 2 * half,
        half == 2 * mistral3_non_mapped_elems(cfg, packs),
        wides@.len() == count && halves@.len() == count,
        wides@[i] == 2 * halves@[i],
        halves@[i] == 2 * mistral3_layer_elems(cfg, pack as int),
{
    lemma_widths(mistral3_non_mapped_elems(cfg, packs));
    lemma_widths(mistral3_layer_elems(cfg, pack as int));
}

/// A size is that of the elements: twice as much in single precision as in half. There is one for
/// each layer.
pub proof fn law_muse_glimmer_sizes_follow_the_type(
    loader: MuseGlimmerLoader,
    cfg: MuseGlimmerConfig,
    packs: PackFactors,
    pack: usize,
    count: usize,
    wide: usize,
    half: usize,
    wides: Vec<usize>,
    halves: Vec<usize>,
    i: int,
)
    requires
        call_ensures(MuseGlimmerLoader::non_mapped_size_in_bytes,
            (&loader, &cfg, DType::F32, packs), wide),
        call_ensures(MuseGlimmerLoader::non_mapped_size_in_bytes,
            (&loader, &cfg, DType::BF16, packs), half),
        call_ensures(MuseGlimmerLoader::layer_sizes_in_bytes, (&loader, &cfg, DType::F32, pack),
            wides),
        call_ensures(MuseGlimmerLoader::layer_sizes_in_bytes, (&loader, &cfg, DType::F16, pack),
            halves),
        call_ensures(MuseGlimmerLoader::num_layers, (&loader, &cfg), count),
        0 <= i < count,
    ensures
        wide == 2 * half,
        half == 2 * muse_glimmer_non_mapped_elems(cfg, packs),
        wides@.len() == count && halves@.len() == count,
        wides@[i] == 2 * halves@[i],
        halves@[i] == 2 * muse_glimmer_layer_elems(cfg, pack as int),
{
    lemma_widths(muse_glimmer_non_mapped_elems(cfg, packs));
    lemma_widths(muse_glimmer_layer_elems(cfg, pack as int));
}

/// Room is planned for the workload of a multimodal model, and any other workload is refused.
pub proof fn law_muse_glimmer_plans_for_its_workload(
    loader: MuseGlimmerLoader,
    cfg: MuseGlimmerConfig,
    params: AutoDeviceMapParams,
    chunk: usize,
    r: Result<usize, LoaderError>,
)
    requires
        call_ensures(MuseGlimmerLoader::mapped_max_act_size_elems, (&loader, &cfg, &params, chunk),
            r),
    ensures
        r is Ok <==> params is Multimodal,
        r is Err ==> r == Err::<usize, LoaderError>(LoaderError::ExpectedMultimodal),
        params matches AutoDeviceMapParams::Multimodal { max_seq_len, max_batch_size,
            max_image_shape, max_num_images }
            ==> r->Ok_0 == muse_glimmer_mapped_act_elems(cfg, max_seq_len as int,
            max_batch_size as int, max_image_shape.0 as int, max_image_shape.1 as int,
            max_num_images as int, chunk as int),
{
}

/// A size is that of the elements: twice as much in single precision as in half. There is one for
/// each layer.
pub proof fn law_qwen2vl_sizes_follow_the_type(
    loader: Qwen2VLLoader,
    cfg: Qwen2VLConfig,
    packs: PackFactors,
    pack: usize,
    count: usize,
    wide: usize,
    half: usize,
    wides: Vec<usize>,
    halves: Vec<usize>,
    i: int,
)
    requires
        call_ensures(Qwen2VLLoader::non_mapped_size_in_bytes, (&loader, &cfg, DType::F32, packs),
            wide),
        call_ensures(Qwen2VLLoader::non_mapped_size_in_bytes, (&loader, &cfg, DType::BF16, packs),
            half),
        call_ensures(Qwen2VLLoader::layer_sizes_in_bytes, (&loader, &cfg, DType::F32, pack), wides),
        call_ensures(Qwen2VLLoader::layer_sizes_in_bytes, (&loader, &cfg, DType::F16, pack),
            halves),
        call_ensures(Qwen2VLLoader::num_layers, (&loader, &cfg), count),
        0 <= i < count,
    ensures
        wide == 2 * half,
        half == 2 * qwen2vl_non_mapped_elems(cfg, packs),
        wides@.len() == count && halves@.len() == count,
        wides@[i] == 2 * halves@[i],
        halves@[i] == 2 * qwen2vl_layer_elems(cfg, pack as int),
{
    lemma_widths(qwen2vl_non_mapped_elems(cfg, packs));
    lemma_widths(qwen2vl_layer_elems(cfg, pack as int));
}

/// Room is planned for the workload of a multimodal model, and any other workload is refused.
pub proof fn law_qwen2vl_plans_for_its_workload(
    loader: Qwen2VLLoader,
    cfg: Qwen2VLConfig,
    params: AutoDeviceMapParams,
    chunk: usize,
    r: Result<usize, LoaderError>,
)
    requires
        call_ensures(Qwen2VLLoader::mapped_max_act_size_elems, (&loader, &cfg, &params, chunk), r),
    ensures
        r is Ok <==> params is Multimodal,
        r is Err ==> r == Err::<usize, LoaderError>(LoaderError::ExpectedMultimodal),
        params matches AutoDeviceMapParams::Multimodal { max_seq_len, max_batch_size,
            max_image_shape, max_num_images }
            ==> r->Ok_0 == qwen2vl_mapped_act_elems(cfg, max_seq_len as int,
            max_batch_size as int, max_image_shape.0 as int, max_image_shape.1 as int,
            max_num_images as int, chunk as int),
{
}

/// A size is that of the elements: twice as much in single precision as in half. There is one for
/// each layer.
pub proof fn law_qwen3_5_moe_sizes_follow_the_type(
    loader: Qwen3_5MoeLoader,
    cfg: Qwen3_5MoeConfig,
    packs: PackFactors,
    pack: usize,
    layers: Vec<LayerType>,
    wide: usize,
    half: usize,
    wides: Vec<usize>,
    halves: Vec<usize>,
    i: int,
)
    requires
        call_ensures(Qwen3_5MoeLoader::non_mapped_size_in_bytes,
            (&loader, &cfg, DType::F32, packs), wide),
        call_ensures(Qwen3_5MoeLoader::non_mapped_size_in_bytes,
            (&loader, &cfg, DType::BF16, packs), half),
        call_ensures(Qwen3_5MoeLoader::layer_sizes_in_bytes,
            (&loader, &cfg, &layers, DType::F32, pack), wides),
        call_ensures(Qwen3_5MoeLoader::layer_sizes_in_bytes,
            (&loader, &cfg, &layers, DType::F16, pack), halves),
        0 <= i < layers@.len(),
    ensures
        wide == 2 * half,
        half == 2 * qwen3_5_moe_non_mapped_elems(cfg, packs),
        wides@.len() == layers@.len() && halves@.len() == layers@.len(),
        wides@[i] == 2 * halves@[i],
        halves@[i] == 2 * qwen3_5_moe_layer_elems(cfg, layers@[i], pack as int),
{
    lemma_widths(qwen3_5_moe_non_mapped_elems(cfg, packs));
    lemma_widths(qwen3_5_moe_layer_elems(cfg, layers@[i], pack as int));
}

/// Room is planned for the workload of a multimodal model, and any other workload is refused.
pub proof fn law_qwen3_5_moe_plans_for_its_workload(
    loader: Qwen3_5MoeLoader,
    cfg: Qwen3_5MoeConfig,
    params: AutoDeviceMapParams,
    chunk: usize,
    r: Result<usize, LoaderError>,
)
    requires
        call_ensures(Qwen3_5MoeLoader::mapped_max_act_size_elems, (&loader, &cfg, &params, chunk),
            r),
    ensures
        r is Ok <==> params is Multimodal,
        r is Err ==> r == Err::<usize, LoaderError>(LoaderError::ExpectedMultimodal),
        params matches AutoDeviceMapParams::Multimodal { max_seq_len, max_batch_size,
            max_image_shape, max_num_images }
            ==> r->Ok_0 == qwen3_5_moe_mapped_act_elems(cfg, max_seq_len as int,
            max_batch_size as int, max_image_shape.0 as int, max_image_shape.1 as int,
            max_num_images as int, chunk as int),
{
}

/// A size is that of the elements: twice as much in single precision as in half. There is one for
/// each layer.
pub proof fn law_qwen3vl_sizes_follow_the_type(
    loader: Qwen3VLLoader,
    cfg: Qwen3VLConfig,
    packs: PackFactors,
    pack: usize,
    count: usize,
    wide: usize,
    half: usize,
    wides: Vec<usize>,
    halves: Vec<usize>,
    i: int,
)
    requires
        call_ensures(Qwen3VLLoader::non_mapped_size_in_bytes, (&loader, &cfg, DType::F32, packs),
            wide),
        call_ensures(Qwen3VLLoader::non_mapped_size_in_bytes, (&loader, &cfg, DType::BF16, packs),
            half),
        call_ensures(Qwen3VLLoader::layer_sizes_in_bytes, (&loader, &cfg, DType::F32, pack), wides),
        call_ensures(Qwen3VLLoader::layer_sizes_in_bytes, (&loader, &cfg, DType::F16, pack),
            halves),
        call_ensures(Qwen3VLLoader::num_layers, (&loader, &cfg), count),
        0 <= i < count,
    ensures
        wide == 2 * half,
        half == 2 * qwen3vl_non_mapped_elems(cfg, packs),
        wides@.len() == count && halves@.len() == count,
        wides@[i] == 2 * halves@[i],
        halves@[i] == 2 * qwen3vl_layer_elems(cfg, pack as int),
{
    lemma_widths(qwen3vl_non_mapped_elems(cfg, packs));
    lemma_widths(qwen3vl_layer_elems(cfg, pack as int));
}

/// Room is planned for the workload of a multimodal model, and any other workload is refused.
pub proof fn law_qwen3vl_plans_for_its_workload(
    loader: Qwen3VLLoader,
    cfg: Qwen3VLConfig,
    params: AutoDeviceMapParams,
    chunk: usize,
    r: Result<usize, LoaderError>,
)
    requires
        call_ensures(Qwen3VLLoader::mapped_max_act_size_elems, (&loader, &cfg, &params, chunk), r),
    ensures
        r is Ok <==> params is Multimodal,
        r is Err ==> r == Err::<usize, LoaderError>(LoaderError::ExpectedMultimodal),
        params matches AutoDeviceMapParams::Multimodal { max_seq_len, max_batch_size,
            max_image_shape, max_num_images }
            ==> r->Ok_0 == qwen3vl_mapped_act_elems(cfg, max_seq_len as int,
            max_batch_size as int, max_image_shape.0 as int, max_image_shape.1 as int,
            max_num_images as int, chunk as int),
{
}

/// A size is that of the elements: twice as much in single precision as in half. There is one for
/// each layer.
pub proof fn law_vllama_sizes_follow_the_type(
    loader: VLlamaLoader,
    cfg: MLlamaConfig,
    packs: PackFactors,
    pack: usize,
    list: Vec<usize>,
    count: usize,
    wide: usize,
    half: usize,
    wides: Vec<usize>,
    halves: Vec<usize>,
    i: int,
)
    requires
        call_ensures(VLlamaLoader::non_mapped_size_in_bytes, (&loader, &cfg, DType::F32, packs),
            wide),
        call_ensures(VLlamaLoader::non_mapped_size_in_bytes, (&loader, &cfg, DType::BF16, packs),
            half),
        call_ensures(VLlamaLoader::layer_sizes_in_bytes, (&loader, &cfg, &list, DType::F32, pack),
            wides),
        call_ensures(VLlamaLoader::layer_sizes_in_bytes, (&loader, &cfg, &list, DType::F16, pack),
            halves),
        call_ensures(VLlamaLoader::num_layers, (&loader, &cfg), count),
        0 <= i < count,
    ensures
        wide == 2 * half,
        half == 2 * vllama_non_mapped_elems(cfg, packs),
        wides@.len() == count && halves@.len() == count,
        wides@[i] == 2 * halves@[i],
        halves@[i] == 2 * vllama_layer_elems(cfg, list@.contains(i as usize), pack as int),
{
    lemma_widths(vllama_non_mapped_elems(cfg, packs));
    lemma_widths(vllama_layer_elems(cfg, list@.contains(i as usize), pack as int));
}

/// Room is planned for the workload of a multimodal model, and any other workload is refused.
pub proof fn law_vllama_plans_for_its_workload(
    loader: VLlamaLoader,
    cfg: MLlamaConfig,
    params: AutoDeviceMapParams,
    chunk: usize,
    r: Result<usize, LoaderError>,
)
    requires
        call_ensures(VLlamaLoader::mapped_max_act_size_elems, (&loader, &cfg, &params, chunk), r),
    ensures
        r is Ok <==> params is Multimodal,
        r is Err ==> r == Err::<usize, LoaderError>(LoaderError::ExpectedMultimodal),
        params matches AutoDeviceMapParams::Multimodal { max_seq_len, max_batch_size,
            max_num_images, .. }
            ==> r->Ok_0 == vllama_mapped_act_elems(cfg, max_seq_len as int,
            max_batch_size as int, max_num_images as int, chunk as int),
{
}

/// A size is that of the elements: twice as much in single precision as in half. There is one for
/// each layer.
pub proof fn law_vllama4_sizes_follow_the_type(
    loader: VLlama4Loader,
    cfg: Llama4Config,
    packs: PackFactors,
    pack: usize,
    list: Vec<usize>,
    count: usize,
    wide: usize,
    half: usize,
    wides: Vec<usize>,
    halves: Vec<usize>,
    i: int,
)
    requires
        call_ensures(VLlama4Loader::non_mapped_size_in_bytes, (&loader, &cfg, DType::F32, packs),
            wide),
        call_ensures(VLlama4Loader::non_mapped_size_in_bytes, (&loader, &cfg, DType::BF16, packs),
            half),
        call_ensures(VLlama4Loader::layer_sizes_in_bytes, (&loader, &cfg, &list, DType::F32, pack),
            wides),
        call_ensures(VLlama4Loader::layer_sizes_in_bytes, (&loader, &cfg, &list, DType::F16, pack),
            halves),
        call_ensures(VLlama4Loader::num_layers, (&loader, &cfg), count),
        0 <= i < count,
    ensures
        wide == 2 * half,
        half == 2 * vllama4_non_mapped_elems(cfg, packs),
        wides@.len() == count && halves@.len() == count,
        wides@[i] == 2 * halves@[i],
        halves@[i] == 2 * vllama4_layer_elems(cfg, list@.contains(i as usize), pack as int),
{
    lemma_widths(vllama4_non_mapped_elems(cfg, packs));
    lemma_widths(vllama4_layer_elems(cfg, list@.contains(i as usize), pack as int));
}

/// A size is that of the elements: twice as much in single precision as in half. There is one for
/// each layer.
pub proof fn law_voxtral_sizes_follow_the_type(
    loader: VoxtralLoader,
    cfg: VoxtralConfig,
    packs: PackFactors,
    pack: usize,
    count: usize,
    wide: usize,
    half: usize,
    wides: Vec<usize>,
    halves: Vec<usize>,
    i: int,
)
    requires
        call_ensures(VoxtralLoader::non_mapped_size_in_bytes, (&loader, &cfg, DType::F32, packs),
            wide),
        call_ensures(VoxtralLoader::non_mapped_size_in_bytes, (&loader, &cfg, DType::BF16, packs),
            half),
        call_ensures(VoxtralLoader::layer_sizes_in_bytes, (&loader, &cfg, DType::F32, pack), wides),
        call_ensures(VoxtralLoader::layer_sizes_in_bytes, (&loader, &cfg, DType::F16, pack),
            halves),
        call_ensures(VoxtralLoader::num_layers, (&loader, &cfg), count),
        0 <= i < count,
    ensures
        wide == 2 * half,
        half == 2 * voxtral_non_mapped_elems(cfg, packs),
        wides@.len() == count && halves@.len() == count,
        wides@[i] == 2 * halves@[i],
        halves@[i] == 2 * voxtral_layer_elems(cfg, pack as int),
{
    lemma_widths(voxtral_non_mapped_elems(cfg, packs));
    lemma_widths(voxtral_layer_elems(cfg, pack as int));
}

/// Room is planned for the workload of a multimodal model, and any other workload is refused.
pub proof fn law_voxtral_plans_for_its_workload(
    loader: VoxtralLoader,
    cfg: VoxtralConfig,
    params: AutoDeviceMapParams,
    chunk: usize,
    r: Result<usize, LoaderError>,
)
    requires
        call_ensures(VoxtralLoader::mapped_max_act_size_elems, (&loader, &cfg, &params, chunk), r),
    ensures
        r is Ok <==> params is Multimodal,
        r is Err ==> r == Err::<usize, LoaderError>(LoaderError::ExpectedMultimodal),
        params matches AutoDeviceMapParams::Multimodal { max_seq_len, max_batch_size, .. }
            ==> r->Ok_0 == voxtral_mapped_act_elems(cfg, max_seq_len as int, max_batch_size as int,
            chunk as int),
{
}

/// Room for what is seen or heard is planned for the workload of a multimodal model alone.
pub proof fn law_lfm2vl_plans_for_its_media(
    loader: Lfm2VlLoader,
    cfg: Lfm2VlConfig,
    params: AutoDeviceMapParams,
    r: Result<usize, LoaderError>,
)
    requires
        call_ensures(Lfm2VlLoader::non_mapped_max_act_size_elems, (&loader, &cfg, &params), r),
    ensures
        r is Ok <==> params is Multimodal,
        r is Err ==> r == Err::<usize, LoaderError>(LoaderError::ExpectedMultimodal),
        params matches AutoDeviceMapParams::Multimodal { max_batch_size, max_num_images, .. }
            ==> r->Ok_0 == lfm2vl_vision_act_elems(cfg, max_batch_size as int,
            max_num_images as int),
{
}

/// Room for what is seen or heard is planned for the workload of a multimodal model alone.
pub proof fn law_minicpmo_plans_for_its_media(
    loader: MiniCpmOLoader,
    cfg: MiniCpmOConfig,
    params: AutoDeviceMapParams,
    r: Result<usize, LoaderError>,
)
    requires
        call_ensures(MiniCpmOLoader::non_mapped_max_act_size_elems, (&loader, &cfg, &params), r),
    ensures
        r is Ok <==> params is Multimodal,
        r is Err ==> r == Err::<usize, LoaderError>(LoaderError::ExpectedMultimodal),
        params matches AutoDeviceMapParams::Multimodal { max_batch_size, max_num_images, .. }
            ==> r->Ok_0 == minicpmo_vision_act_elems(cfg, max_batch_size as int,
            max_num_images as int),
{
}

/// Room for what is seen or heard is planned for the workload of a multimodal model alone.
pub proof fn law_muse_glimmer_plans_for_its_media(
    loader: MuseGlimmerLoader,
    cfg: MuseGlimmerConfig,
    params: AutoDeviceMapParams,
    r: Result<usize, LoaderError>,
)
    requires
        call_ensures(MuseGlimmerLoader::non_mapped_max_act_size_elems, (&loader, &cfg, &params), r),
    ensures
        r is Ok <==> params is Multimodal,
        r is Err ==> r == Err::<usize, LoaderError>(LoaderError::ExpectedMultimodal),
        params matches AutoDeviceMapParams::Multimodal { max_batch_size, max_image_shape,
            max_num_images, .. }
            ==> r->Ok_0 == muse_glimmer_vision_act_elems(cfg, max_batch_size as int,
            max_image_shape.0 as int, max_image_shape.1 as int, max_num_images as int),
{
}

/// Room for what is seen or heard is planned for the workload of a multimodal model alone.
pub proof fn law_qwen2vl_plans_for_its_media(
    loader: Qwen2VLLoader,
    cfg: Qwen2VLConfig,
    params: AutoDeviceMapParams,
    r: Result<usize, LoaderError>,
)
    requires
        call_ensures(Qwen2VLLoader::non_mapped_max_act_size_elems, (&loader, &cfg, &params), r),
    ensures
        r is Ok <==> params is Multimodal,
        r is Err ==> r == Err::<usize, LoaderError>(LoaderError::ExpectedMultimodal),
        params matches AutoDeviceMapParams::Multimodal { max_batch_size, max_image_shape,
            max_num_images, .. }
            ==> r->Ok_0 == qwen2vl_vision_act_elems(cfg, max_batch_size as int,
            max_image_shape.0 as int, max_image_shape.1 as int, max_num_images as int),
{
}

/// Room for what is seen or heard is planned for the workload of a multimodal model alone.
pub proof fn law_qwen3_5_moe_plans_for_its_media(
    loader: Qwen3_5MoeLoader,
    cfg: Qwen3_5MoeConfig,
    params: AutoDeviceMapParams,
    r: Result<usize, LoaderError>,
)
    requires
        call_ensures(Qwen3_5MoeLoader::non_mapped_max_act_size_elems, (&loader, &cfg, &params), r),
    ensures
        r is Ok <==> params is Multimodal,
        r is Err ==> r == Err::<usize, LoaderError>(LoaderError::ExpectedMultimodal),
        params matches AutoDeviceMapParams::Multimodal { max_batch_size, max_image_shape,
            max_num_images, .. }
            ==> r->Ok_0 == qwen3vl_vision_act_elems(cfg.vision_config, max_batch_size as int,
            max_image_shape.0 as int, max_image_shape.1 as int, max_num_images as int),
{
}

/// Room for what is seen or heard is planned for the workload of a multimodal model alone.
pub proof fn law_qwen3vl_plans_for_its_media(
    loader: Qwen3VLLoader,
    cfg: Qwen3VLConfig,
    params: AutoDeviceMapParams,
    r: Result<usize, LoaderError>,
)
    requires
        call_ensures(Qwen3VLLoader::non_mapped_max_act_size_elems, (&loader, &cfg, &params), r),
    ensures
        r is Ok <==> params is Multimodal,
        r is Err ==> r == Err::<usize, LoaderError>(LoaderError::ExpectedMultimodal),
        params matches AutoDeviceMapParams::Multimodal { max_batch_size, max_image_shape,
            max_num_images, .. }
            ==> r->Ok_0 == qwen3vl_vision_act_elems(cfg.vision_config, max_batch_size as int,
            max_image_shape.0 as int, max_image_shape.1 as int, max_num_images as int),
{
}

/// Room for what is seen or heard is planned for the workload of a multimodal model alone.
pub proof fn law_vllama_plans_for_its_media(
    loader: VLlamaLoader,
    cfg: MLlamaConfig,
    params: AutoDeviceMapParams,
    r: Result<usize, LoaderError>,
)
    requires
        call_ensures(VLlamaLoader::non_mapped_max_act_size_elems, (&loader, &cfg, &params), r),
    ensures
        r is Ok <==> params is Multimodal,
        r is Err ==> r == Err::<usize, LoaderError>(LoaderError::ExpectedMultimodal),
        params matches AutoDeviceMapParams::Multimodal { max_batch_size, max_num_images, .. }
            ==> r->Ok_0 == vllama_vision_act_elems(cfg, max_batch_size as int,
            max_num_images as int),
{
}

/// Room for what is seen or heard is planned for the workload of a multimodal model alone.
pub proof fn law_voxtral_plans_for_its_media(
    loader: VoxtralLoader,
    cfg: VoxtralConfig,
    params: AutoDeviceMapParams,
    r: Result<usize, LoaderError>,
)
    requires
        call_ensures(VoxtralLoader::non_mapped_max_act_size_elems, (&loader, &cfg, &params), r),
    ensures
        r is Ok <==> params is Multimodal,
        r is Err ==> r == Err::<usize, LoaderError>(LoaderError::ExpectedMultimodal),
        params matches AutoDeviceMapParams::Multimodal { max_batch_size, .. }
            ==> r->Ok_0 == voxtral_encoder_act_elems(cfg, max_batch_size as int),
{
}

} // verus!
