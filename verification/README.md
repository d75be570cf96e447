# inference

The decisions of an inference engine, written in Verus and proved: what is planned,
sized, placed, scheduled or refused before any tensor is touched.

- `src/paged_attention`: the block pool of the paged cache, block hashes, and the
  scheduler that admits prompts, makes room for them and picks decode steps.
- `src/ops`: which launches of the logit kernels are accepted, with which sizes, and the
  workspaces that are reused between them.
- `src/loaders`: names of architectures, sizes of weights and activations, tensor
  placement and tensor name patterns, for text and multimodal models.
- `src/layout`: direct convolutions as plans: tiles, packed weights, phase planes, and what
  the planned steps add up to.
- `src/paddleocr_vl`: resizing and patching of images, the connector, attention heads.
- `src/ffi`: statuses, arguments and images of the C ABI.
- `src/tensor.rs`, `src/axes.rs`, `src/text.rs`, `src/lists.rs`: what the others share.
- `app`: ordinary Rust around it: the C entry points, threads, AVX2 kernels, candle
  tensors, configuration files.
- `tests`: the library on concrete values.

Contracts are stated over mathematical models: sequences, maps, views of the pools and
queues. Functions named `law_...` state what holds across several functions. What comes
from another crate (`image`, `regex`, `serde_json`, `num_cpus`) goes through a few small
trusted functions, each of which says what is taken for granted.
