//! The shape of the decoder: its heads, its three-way rotary positions and the names of
//! its tensors.

use vstd::prelude::*;

use crate::axes::{
    law_a_single_entry_needs_no_swap, lemma_swapped_at, lemma_within, swap_axes, swapped,
};
use crate::paddleocr_vl::connector::LinearSize;
use crate::text::{decimal, push_decimal};

verus! {

/// What the decoder is built from.
#[derive(Debug, Clone, Copy, PartialEq, Eq, Structural)]
pub struct TextConfig {
    pub hidden_size: usize,
    pub num_hidden_layers: usize,
    pub num_attention_heads: usize,
    pub num_key_value_heads: usize,
    pub head_dim: usize,
    pub intermediate_size: usize,
    pub vocab_size: usize,
}

/// The sizes of the layers of one decoder layer, and the heads of it that one of the
/// devices holds that share it.
#[derive(Debug, Clone, Copy, PartialEq, Eq, Structural)]
pub struct DecoderLayer {
    pub q_proj: LinearSize,
    pub k_proj: LinearSize,
    pub v_proj: LinearSize,
    pub o_proj: LinearSize,
    pub gate_proj: LinearSize,
    pub up_proj: LinearSize,
    pub down_proj: LinearSize,
    pub num_heads: usize,
    pub num_kv_heads: usize,
    pub head_dim: usize,
}

impl DecoderLayer {
    /// The layer of a configuration on one of `world_size` devices.
    pub open spec fn is_of(self, cfg: TextConfig, world_size: int) -> bool {
        let h = cfg.hidden_size;
        let q = cfg.num_attention_heads * cfg.head_dim;
        let kv = cfg.num_key_value_heads * cfg.head_dim;
        &&& self.q_proj.inputs == h && self.q_proj.outputs == q
        &&& self.k_proj.inputs == h && self.k_proj.outputs == kv
        &&& self.v_proj.inputs == h && self.v_proj.outputs == kv
        &&& self.o_proj.inputs == q && self.o_proj.outputs == h
        &&& self.gate_proj.inputs == h && self.gate_proj.outputs == cfg.intermediate_size
        &&& self.up_proj.inputs == h && self.up_proj.outputs == cfg.intermediate_size
        &&& self.down_proj.inputs == cfg.intermediate_size && self.down_proj.outputs == h
        &&& self.num_heads == cfg.num_attention_heads as int / world_size
        &&& self.num_kv_heads == if cfg.num_key_value_heads as int / world_size < 1 {
            1
        } else {
            cfg.num_key_value_heads as int / world_size
        }
        &&& self.head_dim == cfg.head_dim
    }

    pub fn load(cfg: &TextConfig, world_size: usize) -> (r: DecoderLayer)
        requires
            world_size > 0,
            cfg.num_attention_heads * cfg.head_dim <= usize::MAX,
            cfg.num_key_value_heads * cfg.head_dim <= usize::MAX,
        ensures
            r.is_of(*cfg, world_size as int),
    {
        let h: usize = cfg.hidden_size;
        let q: usize = cfg.num_attention_heads * cfg.head_dim;
        let kv: usize = cfg.num_key_value_heads * cfg.head_dim;
        let wide: usize = cfg.intermediate_size;
        let shared: usize = cfg.num_key_value_heads / world_size;
        DecoderLayer {
            q_proj: LinearSize { inputs: h, outputs: q },
            k_proj: LinearSize { inputs: h, outputs: kv },
            v_proj: LinearSize { inputs: h, outputs: kv },
            o_proj: LinearSize { inputs: q, outputs: h },
            gate_proj: LinearSize { inputs: h, outputs: wide },
            up_proj: LinearSize { inputs: h, outputs: wide },
            down_proj: LinearSize { inputs: wide, outputs: h },
            num_heads: cfg.num_attention_heads / world_size,
            num_kv_heads: if shared < 1 {
                1
            } else {
                shared
            },
            head_dim: cfg.head_dim,
        }
    }
}

/// Projected tokens as heads: from token by token to head by head.
pub open spec fn heads_of<T>(x: Seq<T>, q_len: int, heads: int, head_dim: int) -> Seq<T> {
    swapped(x, q_len, heads, head_dim)
}

/// Where a feature of a head stands, token by token.
pub open spec fn at_token(
    q_len: int,
    heads: int,
    head_dim: int,
    batch: int,
    token: int,
    head: int,
    k: int,
) -> int {
    ((batch * q_len + token) * heads + head) * head_dim + k
}

/// Where a feature of a head stands, head by head.
pub open spec fn at_head(
    q_len: int,
    heads: int,
    head_dim: int,
    batch: int,
    token: int,
    head: int,
    k: int,
) -> int {
    ((batch * heads + head) * q_len + token) * head_dim + k
}

/// Splits projected tokens into heads. There are none where the features are not those
/// of all heads of all tokens. A single token is head by head as it is.
pub fn split_heads<T: Copy>(
    x: &Vec<T>,
    batch: usize,
    q_len: usize,
    heads: usize,
    head_dim: usize,
) -> (r: Option<Vec<T>>)
    requires
        batch * q_len <= usize::MAX,
        batch * q_len * heads <= usize::MAX,
        batch * q_len * heads * head_dim <= usize::MAX,
    ensures
        match r {
            Some(split) => {
                &&& x@.len() == batch * q_len * heads * head_dim
                &&& split@ == heads_of(x@, q_len as int, heads as int, head_dim as int)
            },
            None => x@.len() != batch * q_len * heads * head_dim,
        },
{
    if x.len() != batch * q_len * heads * head_dim {
        return None;
    }
    if q_len != 1 {
        Some(swap_axes(x, batch, q_len, heads, head_dim))
    } else {
        proof {
            law_a_single_entry_needs_no_swap(x@, batch as int, heads as int, head_dim as int);
        }
        Some(copied(x))
    }
}

/// Joins heads into tokens again. Attention that ran without a mask gives tokens already.
pub fn join_heads<T: Copy>(
    x: &Vec<T>,
    batch: usize,
    q_len: usize,
    heads: usize,
    head_dim: usize,
    masked: bool,
) -> (r: Option<Vec<T>>)
    requires
        batch * q_len <= usize::MAX,
        batch * q_len * heads <= usize::MAX,
        batch * q_len * heads * head_dim <= usize::MAX,
    ensures
        match r {
            Some(joined) => {
                &&& x@.len() == batch * q_len * heads * head_dim
                &&& joined@ == if masked {
                    swapped(x@, heads as int, q_len as int, head_dim as int)
                } else {
                    x@
                }
            },
            None => x@.len() != batch * q_len * heads * head_dim,
        },
{
    if x.len() != batch * q_len * heads * head_dim {
        return None;
    }
    if masked {
        proof {
            assert(batch * heads * q_len * head_dim == batch * q_len * heads * head_dim)
                by (nonlinear_arith);
        }
        Some(swap_axes(x, batch, heads, q_len, head_dim))
    } else {
        Some(copied(x))
    }
}

fn copied<T: Copy>(x: &Vec<T>) -> (r: Vec<T>)
    ensures
        r@ == x@,
{
    let n: usize = x.len();
    let mut r: Vec<T> = Vec::with_capacity(n);
    let mut i: usize = 0;
    while i < n
        invariant
            i <= n == x@.len(),
            r@ == x@.take(i as int),
        decreases n - i,
    {
        r.push(x[i]);
        i += 1;
        assert(r@ =~= x@.take(i as int));
    }
    assert(r@ =~= x@);
    r
}

/// Each feature of a token is found again under its head.
pub proof fn law_each_feature_is_in_its_head<T>(
    x: Seq<T>,
    batch: int,
    q_len: int,
    heads: int,
    head_dim: int,
    b: int,
    token: int,
    head: int,
    k: int,
)
    requires
        x.len() == batch * q_len * heads * head_dim,
        0 <= b < batch,
        0 <= token < q_len,
        0 <= head < heads,
        0 <= k < head_dim,
    ensures
        heads_of(x, q_len, heads, head_dim)[at_head(q_len, heads, head_dim, b, token, head, k)]
            == x[at_token(q_len, heads, head_dim, b, token, head, k)],
{
    lemma_swapped_at(x, batch, q_len, heads, head_dim, b, token, head, k);
}

/// Joining heads undoes splitting them.
pub proof fn law_joining_undoes_splitting<T>(
    x: Seq<T>,
    batch: int,
    q_len: int,
    heads: int,
    head_dim: int,
)
    requires
        batch >= 0,
        q_len >= 0,
        heads >= 0,
        head_dim >= 0,
        x.len() == batch * q_len * heads * head_dim,
    ensures
        swapped(heads_of(x, q_len, heads, head_dim), heads, q_len, head_dim) == x,
{
    crate::axes::law_swapping_twice_changes_nothing(x, batch, q_len, heads, head_dim);
}

/// How the attention of a layer runs.
#[derive(Debug, Clone, Copy, PartialEq, Eq, Structural)]
pub enum AttentionPath {
    /// Over the pages of the cache.
    Paged,
    /// Paged, with nothing to read or keep: a pass over a prompt that only observes.
    PagedWithoutCache,
    /// Over the sequence's own cache.
    OwnCache,
}

/// How the attention of a layer runs: by pages where the layer is paged, with the pages
/// where there are any.
pub fn attention_path(paged: bool, has_pages: bool) -> (r: AttentionPath)
    ensures
        r == if !paged {
            AttentionPath::OwnCache
        } else if has_pages {
            AttentionPath::Paged
        } else {
            AttentionPath::PagedWithoutCache
        },
{
    if !paged {
        AttentionPath::OwnCache
    } else if has_pages {
        AttentionPath::Paged
    } else {
        AttentionPath::PagedWithoutCache
    }
}

/// Rows of `head_dim` features with their halves turned: the second half, negated,
/// before the first one.
pub open spec fn turned<T>(x: Seq<T>, negated: Seq<T>, head_dim: int, n: int) -> T {
    let half = head_dim / 2;
    let row = n / (2 * half);
    let k = n % (2 * half);
    if k < half {
        negated[row * head_dim + half + k]
    } else {
        x[row * head_dim + (k - half)]
    }
}

/// Turns the halves of each row, given the features and their negations. Of a row of odd
/// length the last feature falls away.
pub fn rotate_half<T: Copy>(
    x: &Vec<T>,
    negated: &Vec<T>,
    rows: usize,
    head_dim: usize,
) -> (r: Vec<T>)
    requires
        x@.len() == rows * head_dim,
        negated@.len() == x@.len(),
    ensures
        r@.len() == rows * (2 * (head_dim as int / 2)),
        forall|n: int|
            0 <= n < r@.len() ==> #[trigger] r@[n] == turned(x@, negated@, head_dim as int, n),
{
    let half: usize = head_dim / 2;
    let mut out: Vec<T> = Vec::new();
    let mut row: usize = 0;
    proof {
        assert(0 * (2 * half) == 0) by (nonlinear_arith);
    }
    while row < rows
        invariant
            row <= rows,
            half == head_dim / 2,
            x@.len() == rows * head_dim,
            negated@.len() == x@.len(),
            out@.len() == row * (2 * half),
            forall|n: int|
                0 <= n < out@.len() ==> #[trigger] out@[n] == turned(
                    x@,
                    negated@,
                    head_dim as int,
                    n,
                ),
        decreases rows - row,
    {
        let ghost before = row * (2 * half);
        proof {
            let w = head_dim as int;
            let r = row as int;
            let len = x.len();
            assert(0 <= r * w && r * w + w <= rows * w) by (nonlinear_arith)
                requires
                    0 <= r,
                    r + 1 <= rows,
                    w >= 0,
            ;
        }
        let start: usize = row * head_dim;
        let mut k: usize = 0;
        while k < 2 * half
            invariant
                k <= 2 * half,
                half == head_dim / 2,
                start == row * head_dim,
                start + head_dim <= x@.len(),
                x@.len() == negated@.len(),
                x@.len() <= usize::MAX,
                before == row * (2 * half),
                out@.len() == before + k,
                forall|n: int|
                    0 <= n < out@.len() ==> #[trigger] out@[n] == turned(
                        x@,
                        negated@,
                        head_dim as int,
                        n,
                    ),
            decreases 2 * half - k,
        {
            proof {
                crate::axes::lemma_digits(row as int, k as int, 2 * half);
            }
            if k < half {
                out.push(negated[start + half + k]);
            } else {
                out.push(x[start + (k - half)]);
            }
            k += 1;
        }
        proof {
            assert((row + 1) * (2 * half) == before + 2 * half) by (nonlinear_arith)
                requires
                    before == row * (2 * half),
            ;
        }
        row += 1;
    }
    out
}

/// The features before a section.
pub open spec fn before(sections: Seq<usize>, i: int) -> int
    decreases i,
{
    if i <= 0 {
        0
    } else {
        before(sections, i - 1) + sections[i - 1]
    }
}

/// The section that a feature lies in, among the first `i`.
pub open spec fn section_of(sections: Seq<usize>, i: int, k: int) -> int
    decreases i,
{
    if i <= 0 || k >= before(sections, i - 1) {
        i - 1
    } else {
        section_of(sections, i - 1, k)
    }
}

/// The axis that a feature takes its position from: sections take turns among the axes
/// of time, height and width.
pub open spec fn axis_of(sections: Seq<usize>, k: int) -> int {
    section_of(sections, sections.len() as int, k) % 3
}

/// The sections of both halves of a head.
pub open spec fn doubled(sections: Seq<usize>) -> Seq<usize> {
    sections + sections
}

/// The sections of both halves of a head.
pub fn double_sections(sections: &[usize; 3]) -> (r: Vec<usize>)
    ensures
        r@ == doubled(sections@),
{
    let r: Vec<usize> = vec![
        sections[0],
        sections[1],
        sections[2],
        sections[0],
        sections[1],
        sections[2],
    ];
    assert(r@ =~= doubled(sections@));
    r
}

proof fn lemma_before(sections: Seq<usize>, i: int, j: int)
    requires
        0 <= i <= j <= sections.len(),
    ensures
        0 <= before(sections, i) <= before(sections, j),
    decreases j,
{
    if i < j {
        lemma_before(sections, i, j - 1);
    } else if j > 0 {
        lemma_before(sections, j - 1, j - 1);
    }
}

proof fn lemma_section(sections: Seq<usize>, n: int, i: int, k: int)
    requires
        0 <= i < n <= sections.len(),
        before(sections, i) <= k < before(sections, i + 1),
    ensures
        section_of(sections, n, k) == i,
    decreases n,
{
    if i < n - 1 {
        lemma_before(sections, i + 1, n - 1);
        lemma_section(sections, n - 1, i, k);
    }
}

/// A table of `planes` axes, `rows` positions and `width` features, with the axis of each
/// feature selected. There is none without sections, where they exceed the features, or
/// where the table lacks an axis.
pub fn mrope_select<T: Copy>(
    table: &Vec<T>,
    planes: usize,
    rows: usize,
    width: usize,
    sections: &Vec<usize>,
) -> (r: Option<Vec<T>>)
    requires
        table@.len() == planes * rows * width,
    ensures
        ({
            let n = sections@.len() as int;
            let total = before(sections@, n);
            match r {
                Some(selected) => {
                    &&& 0 < n
                    &&& n <= planes || 3 <= planes
                    &&& total <= width
                    &&& selected@.len() == rows * total
                    &&& forall|row: int, k: int|
                        #![trigger at_row(total, row, k)]
                        0 <= row < rows && 0 <= k < total ==> selected@[at_row(total, row, k)]
                            == table@[at_row(
                            width as int,
                            axis_of(sections@, k) * rows + row,
                            k,
                        )]
                },
                None => n == 0 || (n > planes && 3 > planes) || total > width,
            }
        }),
{
    let n: usize = sections.len();
    if n == 0 || (n > planes && 3 > planes) {
        return None;
    }
    let mut total: usize = 0;
    let mut i: usize = 0;
    while i < n
        invariant
            i <= n == sections@.len(),
            total == before(sections@, i as int),
            total <= width,
            0 < n,
        decreases n - i,
    {
        if sections[i] > width - total {
            proof {
                lemma_before(sections@, i + 1, n as int);
            }
            return None;
        }
        total += sections[i];
        i += 1;
    }
    let axes: Vec<usize> = feature_axes(sections, total);
    let mut out: Vec<T> = Vec::new();
    let mut row: usize = 0;
    while row < rows
        invariant
            row <= rows,
            table@.len() == planes * rows * width,
            total == before(sections@, n as int),
            total <= width,
            n == sections@.len(),
            0 < n,
            n <= planes || 3 <= planes,
            axes@.len() == total,
            forall|k: int|
                0 <= k < total ==> #[trigger] axes@[k] == axis_of(sections@, k) && axes@[k] < n
                    && axes@[k] < 3,
            out@.len() == row * total,
            forall|r: int, k: int|
                #![trigger at_row(total as int, r, k)]
                0 <= r < row && 0 <= k < total ==> out@[at_row(total as int, r, k)]
                    == table@[at_row(width as int, axis_of(sections@, k) * rows + r, k)],
        decreases rows - row,
    {
        let ghost done = out@;
        let mut k: usize = 0;
        while k < total
            invariant
                k <= total <= width,
                row < rows,
                table@.len() == planes * rows * width,
                n <= planes || 3 <= planes,
                axes@.len() == total,
                forall|j: int|
                    0 <= j < total ==> #[trigger] axes@[j] == axis_of(sections@, j) && axes@[j] < n
                        && axes@[j] < 3,
                done.len() == row * total,
                out@.len() == done.len() + k,
                out@.take(done.len() as int) == done,
                forall|j: int|
                    0 <= j < k ==> #[trigger] out@[done.len() + j] == table@[at_row(
                        width as int,
                        axis_of(sections@, j) * rows + row,
                        j,
                    )],
            decreases total - k,
        {
            let axis: usize = axes[k];
            proof {
                lemma_within(axis as int, planes as int, row as int, rows as int);
                lemma_within(axis * rows + row, planes * rows, k as int, width as int);
                let len = table.len();
                assert(axis * rows >= 0 && axis * rows + row <= (axis * rows + row) * width)
                    by (nonlinear_arith)
                    requires
                        axis >= 0,
                        rows >= 0,
                        row >= 0,
                        width > 0,
                ;
            }
            let ghost prev = out@;
            out.push(table[(axis * rows + row) * width + k]);
            assert(out@.take(done.len() as int) =~= prev.take(done.len() as int));
            assert forall|j: int| 0 <= j < k + 1 implies #[trigger] out@[done.len() + j]
                == table@[at_row(width as int, axis_of(sections@, j) * rows + row, j)] by {
                if j < k {
                    assert(prev[done.len() + j] == out@[done.len() + j]);
                }
            }
            k += 1;
        }
        proof {
            assert((row + 1) * total == row * total + total) by (nonlinear_arith);
            assert forall|r: int, j: int|
                #![trigger at_row(total as int, r, j)]
                0 <= r < row + 1 && 0 <= j < total implies out@[at_row(total as int, r, j)]
                == table@[at_row(width as int, axis_of(sections@, j) * rows + r, j)] by {
                if r < row {
                    lemma_within(r, row as int, j, total as int);
                    assert(done[at_row(total as int, r, j)] == out@.take(
                        done.len() as int,
                    )[at_row(total as int, r, j)]);
                } else {
                    assert(at_row(total as int, r, j) == done.len() + j);
                }
            }
        }
        row += 1;
    }
    Some(out)
}

/// Where a feature stands in rows of `width` features.
pub open spec fn at_row(width: int, row: int, k: int) -> int {
    row * width + k
}

/// The axis of each feature.
fn feature_axes(sections: &Vec<usize>, total: usize) -> (r: Vec<usize>)
    requires
        total == before(sections@, sections@.len() as int),
    ensures
        r@.len() == total,
        forall|k: int|
            0 <= k < total ==> #[trigger] r@[k] == axis_of(sections@, k) && r@[k] < sections@.len()
                && r@[k] < 3,
{
    let n: usize = sections.len();
    let mut r: Vec<usize> = Vec::new();
    let mut i: usize = 0;
    while i < n
        invariant
            i <= n == sections@.len(),
            total == before(sections@, n as int),
            r@.len() == before(sections@, i as int),
            forall|k: int|
                0 <= k < r@.len() ==> #[trigger] r@[k] == axis_of(sections@, k) && r@[k] < n
                    && r@[k] < 3,
        decreases n - i,
    {
        proof {
            lemma_before(sections@, i + 1, n as int);
        }
        let size: usize = sections[i];
        let mut j: usize = 0;
        while j < size
            invariant
                j <= size == sections@[i as int],
                i < n == sections@.len(),
                r@.len() == before(sections@, i as int) + j,
                forall|k: int|
                    0 <= k < r@.len() ==> #[trigger] r@[k] == axis_of(sections@, k) && r@[k] < n
                        && r@[k] < 3,
            decreases size - j,
        {
            proof {
                lemma_section(sections@, n as int, i as int, before(sections@, i as int) + j);
            }
            r.push(i % 3);
            j += 1;
        }
        i += 1;
    }
    r
}

/// Both halves of a head take a feature's position from the same axis.
pub proof fn law_halves_share_their_axes(sections: Seq<usize>, k: int)
    requires
        sections.len() == 3,
        0 <= k < before(sections, 3),
    ensures
        axis_of(doubled(sections), k) == axis_of(doubled(sections), before(sections, 3) + k),
        before(doubled(sections), 6) == 2 * before(sections, 3),
{
    let both = doubled(sections);
    reveal_with_fuel(before, 7);
    let i: int = if k < before(sections, 1) {
        0
    } else if k < before(sections, 2) {
        1
    } else {
        2
    };
    lemma_section(both, 6, i, k);
    lemma_section(both, 6, i + 3, before(sections, 3) + k);
}

/// The name of a tensor of a layer.
pub open spec fn layer_name(i: nat, tensor: Seq<char>) -> Seq<char> {
    "model.layers."@ + decimal(i) + tensor
}

fn layer_tensor(i: usize, tensor: &str) -> (r: String)
    ensures
        r@ == layer_name(i as nat, tensor@),
{
    let mut name: String = "model.layers.".to_string();
    push_decimal(&mut name, i);
    name.append(tensor);
    name
}

/// The names of the norms of a decoder of `n` layers.
pub open spec fn norm_names(n: nat) -> Seq<Seq<char>>
    decreases n,
{
    if n == 0 {
        seq!["model.norm.weight"@]
    } else {
        let i = (n - 1) as nat;
        norm_names(i).push(layer_name(i, ".input_layernorm.weight"@)).push(
            layer_name(i, ".post_attention_layernorm.weight"@),
        )
    }
}

/// The projections of a layer.
#[derive(Debug, Clone, Copy, PartialEq, Eq, Structural)]
pub enum Projection {
    Query,
    Key,
    Value,
    Output,
    Gate,
    Up,
    Down,
}

impl Projection {
    /// The end of the name of a projection's weight.
    pub open spec fn suffix(self) -> Seq<char> {
        match self {
            Projection::Query => ".self_attn.q_proj.weight"@,
            Projection::Key => ".self_attn.k_proj.weight"@,
            Projection::Value => ".self_attn.v_proj.weight"@,
            Projection::Output => ".self_attn.o_proj.weight"@,
            Projection::Gate => ".mlp.gate_proj.weight"@,
            Projection::Up => ".mlp.up_proj.weight"@,
            Projection::Down => ".mlp.down_proj.weight"@,
        }
    }
}

/// The name of the weight of a projection.
pub fn projection_tensor(i: usize, projection: Projection) -> (r: String)
    ensures
        r@ == layer_name(i as nat, projection.suffix()),
{
    match projection {
        Projection::Query => layer_tensor(i, ".self_attn.q_proj.weight"),
        Projection::Key => layer_tensor(i, ".self_attn.k_proj.weight"),
        Projection::Value => layer_tensor(i, ".self_attn.v_proj.weight"),
        Projection::Output => layer_tensor(i, ".self_attn.o_proj.weight"),
        Projection::Gate => layer_tensor(i, ".mlp.gate_proj.weight"),
        Projection::Up => layer_tensor(i, ".mlp.up_proj.weight"),
        Projection::Down => layer_tensor(i, ".mlp.down_proj.weight"),
    }
}

/// The decoder, as far as it is known without its weights.
#[derive(Debug, Clone, Copy, PartialEq, Eq, Structural)]
pub struct ErnieTextModel {
    pub cfg: TextConfig,
}

impl ErnieTextModel {
    /// The names of the tensors that stay as they are when weights are quantized: the
    /// norms.
    pub fn residual_tensors(&self) -> (r: Vec<String>)
        ensures
            r@.len() == norm_names(self.cfg.num_hidden_layers as nat).len(),
            forall|i: int|
                0 <= i < r@.len() ==> #[trigger] r@[i]@ == norm_names(
                    self.cfg.num_hidden_layers as nat,
                )[i],
    {
        let mut names: Vec<String> = Vec::new();
        names.push("model.norm.weight".to_string());
        let n: usize = self.cfg.num_hidden_layers;
        let mut i: usize = 0;
        while i < n
            invariant
                i <= n,
                names@.len() == norm_names(i as nat).len(),
                forall|j: int|
                    0 <= j < names@.len() ==> #[trigger] names@[j]@ == norm_names(i as nat)[j],
            decreases n - i,
        {
            names.push(layer_tensor(i, ".input_layernorm.weight"));
            names.push(layer_tensor(i, ".post_attention_layernorm.weight"));
            i += 1;
        }
        names
    }
}

/// The character before the last seven.
spec fn eighth_last(name: Seq<char>) -> char {
    name[name.len() - 8]
}

proof fn lemma_norm_endings(n: nat, j: int)
    requires
        0 <= j < norm_names(n).len(),
    ensures
        norm_names(n)[j].len() >= 8,
        eighth_last(norm_names(n)[j]) == 'm',
    decreases n,
{
    reveal_strlit("model.norm.weight");
    reveal_strlit(".input_layernorm.weight");
    reveal_strlit(".post_attention_layernorm.weight");
    if n > 0 {
        let i = (n - 1) as nat;
        if j < norm_names(i).len() {
            lemma_norm_endings(i, j);
        }
    }
}

/// The tensors that stay as they are when weights are quantized are neither projections
/// nor the head of the vocabulary.
pub proof fn law_quantized_weights_are_not_residual(n: nat, i: nat, projection: Projection)
    ensures
        !norm_names(n).contains(layer_name(i, projection.suffix())),
        !norm_names(n).contains("lm_head.weight"@),
{
    reveal_strlit(".self_attn.q_proj.weight");
    reveal_strlit(".self_attn.k_proj.weight");
    reveal_strlit(".self_attn.v_proj.weight");
    reveal_strlit(".self_attn.o_proj.weight");
    reveal_strlit(".mlp.gate_proj.weight");
    reveal_strlit(".mlp.up_proj.weight");
    reveal_strlit(".mlp.down_proj.weight");
    reveal_strlit("lm_head.weight");
    let name = layer_name(i, projection.suffix());
    assert(eighth_last(name) == 'j');
    assert(eighth_last("lm_head.weight"@) == 'd');
    assert forall|j: int| 0 <= j < norm_names(n).len() implies #[trigger] norm_names(n)[j] != name
        && norm_names(n)[j] != "lm_head.weight"@ by {
        lemma_norm_endings(n, j);
    }
}

/// The heads of a layer are what its projections hold: on one device all of them, and on
/// devices that divide them each device its part. A device without a whole head of keys and
/// values of its own has one all the same.
pub proof fn law_heads_fill_their_projections(
    cfg: TextConfig,
    world_size: int,
    layer: DecoderLayer,
)
    requires
        world_size > 0,
        layer.is_of(cfg, world_size),
    ensures
        layer.head_dim == cfg.head_dim,
        layer.q_proj.outputs == cfg.num_attention_heads * cfg.head_dim,
        layer.k_proj.outputs == cfg.num_key_value_heads * cfg.head_dim,
        layer.v_proj == layer.k_proj,
        world_size == 1 ==> layer.num_heads * layer.head_dim == layer.q_proj.outputs,
        world_size == 1 && cfg.num_key_value_heads > 0 ==> layer.num_kv_heads * layer.head_dim
            == layer.k_proj.outputs == layer.v_proj.outputs,
        cfg.num_attention_heads as int % world_size == 0 ==> layer.num_heads * world_size
            * layer.head_dim == layer.q_proj.outputs,
        cfg.num_key_value_heads > 0 && cfg.num_key_value_heads as int % world_size == 0
            ==> layer.num_kv_heads * world_size * layer.head_dim == layer.k_proj.outputs,
        cfg.num_key_value_heads < world_size ==> layer.num_kv_heads == 1,
        layer.num_heads * world_size <= cfg.num_attention_heads < (layer.num_heads + 1)
            * world_size,
        cfg.num_key_value_heads >= world_size ==> layer.num_kv_heads * world_size
            <= cfg.num_key_value_heads < (layer.num_kv_heads + 1) * world_size,
{
    lemma_parts_of_a_whole(cfg.num_attention_heads as int, world_size);
    lemma_parts_of_a_whole(cfg.num_key_value_heads as int, world_size);
}

proof fn lemma_parts_of_a_whole(n: int, world_size: int)
    requires
        n >= 0,
        world_size > 0,
    ensures
        world_size == 1 ==> n / world_size == n,
        n % world_size == 0 ==> n / world_size * world_size == n,
        n > 0 && n % world_size == 0 ==> n / world_size >= 1,
        n < world_size ==> n / world_size == 0,
        n / world_size * world_size <= n < (n / world_size + 1) * world_size,
        n >= world_size ==> n / world_size >= 1,
{
    let q = n / world_size;
    assert(q * world_size + n % world_size == n && 0 <= n % world_size < world_size)
        by (nonlinear_arith)
        requires
            n >= 0,
            world_size > 0,
            q == n / world_size,
    ;
    assert((q + 1) * world_size == q * world_size + world_size) by (nonlinear_arith);
    assert(q >= 0) by (nonlinear_arith)
        requires
            n >= 0,
            world_size > 0,
            q == n / world_size,
    ;
    assert(q == 0 ==> q * world_size == 0) by (nonlinear_arith);
    assert(q >= 1 ==> q * world_size >= world_size) by (nonlinear_arith)
        requires
            world_size > 0,
    ;
    if world_size == 1 {
        assert(q * 1 == q);
    }
}

/// Each projection of a layer reads what the one before it gives: attention goes from the hidden
/// size over the heads back to it, and the feed-forward part over the intermediate size.
pub proof fn law_projections_of_a_layer_chain(
    cfg: TextConfig,
    world_size: int,
    layer: DecoderLayer,
)
    requires
        world_size > 0,
        layer.is_of(cfg, world_size),
    ensures
        layer.q_proj.inputs == layer.k_proj.inputs == layer.v_proj.inputs == cfg.hidden_size,
        layer.o_proj.inputs == layer.q_proj.outputs,
        layer.o_proj.outputs == cfg.hidden_size,
        layer.gate_proj.inputs == layer.up_proj.inputs == layer.o_proj.outputs,
        layer.gate_proj.outputs == layer.up_proj.outputs == layer.down_proj.inputs,
        layer.down_proj.inputs == cfg.intermediate_size,
        layer.down_proj.outputs == layer.q_proj.inputs,
{
}

/// Heads that were split and attended under a mask are joined to the tokens that they came from,
/// feature by feature; without a mask they are tokens already. A single token is split without
/// moving anything.
pub proof fn law_joined_heads_are_the_tokens_again<T: Copy>(
    x: &Vec<T>,
    batch: usize,
    q_len: usize,
    heads: usize,
    head_dim: usize,
    split: Option<Vec<T>>,
    joined: Option<Vec<T>>,
    kept: Option<Vec<T>>,
)
    requires
        x@.len() == batch * q_len * heads * head_dim,
        call_ensures(split_heads::<T>, (x, batch, q_len, heads, head_dim), split),
        split is Some ==> call_ensures(
            join_heads::<T>,
            (&split->0, batch, q_len, heads, head_dim, true),
            joined,
        ),
        call_ensures(join_heads::<T>, (x, batch, q_len, heads, head_dim, false), kept),
    ensures
        split is Some,
        joined is Some && joined->0@ == x@,
        kept is Some && kept->0@ == x@,
        q_len == 1 ==> split->0@ == x@,
        forall|b: int, token: int, head: int, k: int|
            0 <= b < batch && 0 <= token < q_len && 0 <= head < heads && 0 <= k < head_dim
                ==> split->0@[#[trigger] at_head(
                q_len as int,
                heads as int,
                head_dim as int,
                b,
                token,
                head,
                k,
            )] == x@[((b * q_len + token) * heads + head) * head_dim + k],
        forall|b: int, token: int, head: int, k: int|
            #[trigger] at_head(q_len as int, heads as int, head_dim as int, b, token, head, k)
                == ((b * heads + head) * q_len + token) * head_dim + k,
{
    let (n, l, h, d) = (batch as int, q_len as int, heads as int, head_dim as int);
    assert(split is Some);
    law_joining_undoes_splitting(x@, n, l, h, d);
    if q_len == 1 {
        law_a_single_entry_needs_no_swap(x@, n, h, d);
    }
    assert forall|b: int, token: int, head: int, k: int|
        0 <= b < batch && 0 <= token < q_len && 0 <= head < heads && 0 <= k
            < head_dim implies split->0@[#[trigger] at_head(l, h, d, b, token, head, k)] == x@[((b
        * q_len + token) * heads + head) * head_dim + k] by {
        law_each_feature_is_in_its_head(x@, n, l, h, d, b, token, head, k);
    }
}

/// Turning the halves of a row takes the pair of features `k` and `k + half` to the negated
/// second one and the first one.
pub proof fn law_halves_change_places<T: Copy>(
    x: &Vec<T>,
    negated: &Vec<T>,
    rows: usize,
    head_dim: usize,
    r: Vec<T>,
    row: int,
    k: int,
)
    requires
        x@.len() == rows * head_dim,
        negated@.len() == x@.len(),
        call_ensures(rotate_half::<T>, (x, negated, rows, head_dim), r),
        head_dim as int % 2 == 0,
        0 <= row < rows,
        0 <= k < head_dim as int / 2,
    ensures
        r@.len() == x@.len(),
        r@[row * head_dim + k] == negated@[row * head_dim + k + head_dim as int / 2],
        r@[row * head_dim + k + head_dim as int / 2] == x@[row * head_dim + k],
{
    let d = head_dim as int;
    let half = d / 2;
    assert(2 * half == d);
    lemma_within(row, rows as int, k, d);
    lemma_within(row, rows as int, k + half, d);
    crate::axes::lemma_digits(row, k, d);
    crate::axes::lemma_digits(row, k + half, d);
    assert(r@[row * d + k] == turned(x@, negated@, d, row * d + k));
    assert(r@[row * d + (k + half)] == turned(x@, negated@, d, row * d + (k + half)));
}

/// The sections of a head follow each other without gaps, and take turns among the three axes.
pub proof fn law_sections_take_turns_among_the_axes(sections: Seq<usize>, i: int, k: int)
    requires
        0 <= i < sections.len(),
    ensures
        before(sections, 0) == 0,
        before(sections, i + 1) == before(sections, i) + sections[i],
        before(sections, i) <= k < before(sections, i) + sections[i] ==> axis_of(sections, k) == i
            % 3,
{
    if before(sections, i) <= k < before(sections, i) + sections[i] {
        lemma_section(sections, sections.len() as int, i, k);
    }
}

/// Selecting takes each feature of a section from the section's axis, at the same position; it
/// fails exactly where there is no section, where the sections are wider than the table, or
/// where the table lacks an axis that some section takes.
pub proof fn law_selection_follows_the_sections<T: Copy>(
    table: &Vec<T>,
    planes: usize,
    rows: usize,
    width: usize,
    sections: &Vec<usize>,
    r: Option<Vec<T>>,
)
    requires
        table@.len() == planes * rows * width,
        call_ensures(mrope_select::<T>, (table, planes, rows, width, sections), r),
    ensures
        ({
            let n = sections@.len() as int;
            let total = before(sections@, n);
            &&& r is Some <==> (n > 0 && total <= width && forall|i: int|
                0 <= i < n ==> #[trigger] (i % 3) < planes)
            &&& r is Some ==> r->0@.len() == rows * total && forall|i: int, row: int, j: int|
                0 <= i < n && 0 <= row < rows && 0 <= j < sections@[i] ==> r->0@[#[trigger] at_row(
                    total,
                    row,
                    before(sections@, i) + j,
                )] == table@[((i % 3) * rows + row) * width + before(sections@, i) + j]
        }),
{
    let n = sections@.len() as int;
    let total = before(sections@, n);
    if n > planes && 3 > planes {
        let i = planes as int;
        assert(0 <= i < n && i % 3 == planes);
    }
    if r is Some {
        assert forall|i: int, row: int, j: int|
            0 <= i < n && 0 <= row < rows && 0 <= j < sections@[i] implies r->0@[#[trigger] at_row(
            total,
            row,
            before(sections@, i) + j,
        )] == table@[((i % 3) * rows + row) * width + before(sections@, i) + j] by {
            let k = before(sections@, i) + j;
            law_sections_take_turns_among_the_axes(sections@, i, k);
            lemma_before(sections@, i, i);
            lemma_before(sections@, i + 1, n);
        }
    }
}

/// Attention goes over pages only where a layer is paged, and reads or keeps them only where
/// there are any.
pub proof fn law_attention_uses_the_pages_there_are(
    paged: bool,
    has_pages: bool,
    r: AttentionPath,
)
    requires
        call_ensures(attention_path, (paged, has_pages), r),
    ensures
        paged <==> r != AttentionPath::OwnCache,
        r == AttentionPath::Paged <==> paged && has_pages,
{
}

/// The tensors that stay as they are when weights are quantized are two norms of each layer and
/// the last norm, and no others.
pub proof fn law_residual_tensors_are_the_norms(n: nat)
    ensures
        norm_names(n).len() == 2 * n + 1,
        norm_names(n)[0] == "model.norm.weight"@,
        forall|i: int|
            0 <= i < n ==> #[trigger] norm_names(n)[2 * i + 1] == "model.layers."@ + decimal(
                i as nat,
            ) + ".input_layernorm.weight"@,
        forall|i: int|
            0 <= i < n ==> #[trigger] norm_names(n)[2 * i + 2] == "model.layers."@ + decimal(
                i as nat,
            ) + ".post_attention_layernorm.weight"@,
    decreases n,
{
    if n > 0 {
        let m = (n - 1) as nat;
        law_residual_tensors_are_the_norms(m);
        assert forall|i: int| 0 <= i < n implies #[trigger] norm_names(n)[2 * i + 1]
            == "model.layers."@ + decimal(i as nat) + ".input_layernorm.weight"@ by {
            if i < m {
                assert(norm_names(n)[2 * i + 1] == norm_names(m)[2 * i + 1]);
            }
        }
        assert forall|i: int| 0 <= i < n implies #[trigger] norm_names(n)[2 * i + 2]
            == "model.layers."@ + decimal(i as nat) + ".post_attention_layernorm.weight"@ by {
            if i < m {
                assert(norm_names(n)[2 * i + 2] == norm_names(m)[2 * i + 2]);
            }
        }
    }
}

/// The name of a projection's weight tells where it belongs: those of attention under the
/// attention of the layer, those of the feed-forward part under that, each under its letter.
pub proof fn law_projections_are_named_apart(a: Projection, b: Projection)
    ensures
        a.suffix() == b.suffix() ==> a == b,
        ".self_attn."@.is_prefix_of(a.suffix()) <==> a is Query || a is Key || a is Value
            || a is Output,
        ".mlp."@.is_prefix_of(a.suffix()) <==> a is Gate || a is Up || a is Down,
        a is Query ==> a.suffix()[11] == 'q',
        a is Key ==> a.suffix()[11] == 'k',
        a is Value ==> a.suffix()[11] == 'v',
        a is Output ==> a.suffix()[11] == 'o',
        a is Gate ==> a.suffix()[5] == 'g',
        a is Up ==> a.suffix()[5] == 'u',
        a is Down ==> a.suffix()[5] == 'd',
{
    reveal_strlit(".self_attn.");
    reveal_strlit(".mlp.");
    reveal_strlit(".self_attn.q_proj.weight");
    reveal_strlit(".self_attn.k_proj.weight");
    reveal_strlit(".self_attn.v_proj.weight");
    reveal_strlit(".self_attn.o_proj.weight");
    reveal_strlit(".mlp.gate_proj.weight");
    reveal_strlit(".mlp.up_proj.weight");
    reveal_strlit(".mlp.down_proj.weight");
    assert(".self_attn."@[1] == 's' && ".mlp."@[1] == 'm');
    assert(a.suffix()[1] == 's' || a.suffix()[1] == 'm');
    assert(a.suffix()[11] != 'x');
    assert(b.suffix()[11] != 'x' && b.suffix()[1] != 'x' && b.suffix()[5] != 'x');
}

} // verus!
