# candle_wgpu

The planning side of a WebGPU backend for tensors and of the Gemma 4 text
models, verified with Verus.

* `src/` is the library. Every operation is a plan: which kernel runs, on which
  words of its uniform, in how many workgroups, over which buffers; or why the
  request is refused. A model's forward pass is a tensor program, and its
  contract is the formula of the program's result, and its type.
* `app/` is ordinary Rust around it: the GPU, tensor programs and greedy
  decoding on the host, host floats, JSON configuration, rotation tables, dumps
  on disk and error messages.
* `tests/` carries the plans out in software and holds the results against
  plain loops.

| Module | What it holds |
| --- | --- |
| `dtype`, `layout`, `bytes`, `text`, `error` | Element types, strided layouts, little-endian bytes, text, refusals |
| `cpu_storage`, `storage`, `device` | Host and GPU storage, read-back, the pipeline cache |
| `ops` | Unary, binary, affine, cast, reduce, softmax, rope, index selection, copies, matrix products |
| `quantized` | Block-quantized storage, packing of rows, products with quantized weights |
| `flash_attn` | Fused attention of one query position |
| `tensor` | Tensor programs and the formulas that they compute |
| `gemma4` | Configuration, weights, masks, caches and forward passes of the models |

Floats are held by their bit patterns throughout `src/`.
