//! Kernel launches of the dense model: which kernel, over what grid, with what arguments.
use vstd::prelude::*;

use crate::text::equal;

verus! {

/// An argument of a launch.
#[derive(Clone, Copy, Debug, PartialEq, Eq, Structural)]
pub enum LaunchArg {
    Addr(u64),
    I32(i32),
    /// An f32 by its bit pattern.
    F32(u32),
}

/// One kernel launch.
pub struct Launch {
    pub kernel: &'static str,
    pub grid: (u32, u32, u32),
    pub block: u32,
    pub shared_bytes: u32,
    pub args: Vec<LaunchArg>,
}

/// Blocks that cover `n` elements.
pub open spec fn cover(n: int, block: int) -> int {
    (n + block - 1) / block
}

/// A kernel module: the kernels that were found in its files.
pub struct KernelModule {
    pub kernels: Vec<String>,
}

impl KernelModule {
    /// The module has the kernel.
    pub open spec fn has(&self, name: Seq<char>) -> bool {
        exists|i: int| 0 <= i < self.kernels@.len() && (#[trigger] self.kernels@[i])@ == name
    }

    /// Where the kernel stands, where it was found.
    pub fn get_func(&self, name: &str) -> (r: Option<usize>)
        ensures
            match r {
                Some(i) => i < self.kernels@.len() && self.kernels@[i as int]@ == name@,
                None => !self.has(name@),
            },
    {
        let mut i: usize = 0;
        while i < self.kernels.len()
            invariant
                i <= self.kernels@.len(),
                forall|k: int| 0 <= k < i ==> (#[trigger] self.kernels@[k])@ != name@,
            decreases self.kernels@.len() - i,
        {
            if equal(self.kernels[i].as_str(), name) {
                return Some(i);
            }
            i = i + 1;
        }
        None
    }

    /// Kernels that were found.
    pub fn len(&self) -> (n: usize)
        ensures
            n == self.kernels@.len(),
    {
        self.kernels.len()
    }

    /// No kernel was found.
    pub fn is_empty(&self) -> (b: bool)
        ensures
            b == (self.kernels@.len() == 0),
    {
        self.kernels.len() == 0
    }
}

/// The files of the module: name, path, and kernels.
pub fn ptx_files() -> (r: Vec<(&'static str, &'static str, Vec<&'static str>)>)
    ensures
        r@.len() == 4,
        r@[0].0@ == "gemm_nvfp4"@ && r@[0].1@ == "src/ptx/gemm_nvfp4.ptx"@ && r@[0].2@
            == seq!["gemm_nvfp4_sm121"],
        r@[1].0@ == "fused_decode"@ && r@[1].1@ == "src/ptx/fused_decode.ptx"@ && r@[1].2@
            == seq!["fused_decode_single_token"],
        r@[2].0@ == "rms_norm"@ && r@[2].1@ == "src/ptx/rms_norm.ptx"@ && r@[2].2@ == seq![
            "rms_norm_kernel",
            "silu_gate_mul_kernel",
            "add_residual_kernel",
            "apply_rope_kernel",
        ],
        r@[3].0@ == "silu_gate"@ && r@[3].1@ == "src/ptx/silu_gate.ptx"@ && r@[3].2@ == seq![
            "silu_gate_mul_kernel",
            "add_residual_kernel",
        ],
{
    let a: Vec<&'static str> = vec!["gemm_nvfp4_sm121"];
    let b: Vec<&'static str> = vec!["fused_decode_single_token"];
    let c: Vec<&'static str> = vec![
        "rms_norm_kernel",
        "silu_gate_mul_kernel",
        "add_residual_kernel",
        "apply_rope_kernel",
    ];
    let d: Vec<&'static str> = vec!["silu_gate_mul_kernel", "add_residual_kernel"];
    proof {
        assert(a@ =~= seq!["gemm_nvfp4_sm121"]);
        assert(b@ =~= seq!["fused_decode_single_token"]);
        assert(c@ =~= seq![
            "rms_norm_kernel",
            "silu_gate_mul_kernel",
            "add_residual_kernel",
            "apply_rope_kernel",
        ]);
        assert(d@ =~= seq!["silu_gate_mul_kernel", "add_residual_kernel"]);
    }
    vec![
        ("gemm_nvfp4", "src/ptx/gemm_nvfp4.ptx", a),
        ("fused_decode", "src/ptx/fused_decode.ptx", b),
        ("rms_norm", "src/ptx/rms_norm.ptx", c),
        ("silu_gate", "src/ptx/silu_gate.ptx", d),
    ]
}

/// `l` is a launch of `kernel` that covers `n` elements with blocks of 256 threads.
pub open spec fn covers(l: Launch, kernel: Seq<char>, n: int, shared: int) -> bool {
    &&& l.kernel@ == kernel
    &&& l.grid == (cover(n, 256) as u32, 1u32, 1u32)
    &&& l.block == 256
    &&& l.shared_bytes == shared
}

/// A count that a launch can take.
pub open spec fn countable(n: int) -> bool {
    n <= i32::MAX
}

fn covering(kernel: &'static str, n: usize, shared: u32, args: Vec<LaunchArg>) -> (l: Launch)
    requires
        countable(n as int),
    ensures
        covers(l, kernel@, n as int, shared as int),
        l.args@ == args@,
{
    Launch {
        kernel,
        grid: (((n + 255) / 256) as u32, 1, 1),
        block: 256,
        shared_bytes: shared,
        args,
    }
}

/// A packed matrix product: tiles of 64 by 64.
pub fn launch_gemm_nvfp4(
    out: u64,
    a: u64,
    weights: u64,
    scales: u64,
    m: usize,
    n: usize,
    k: usize,
) -> (l: Launch)
    requires
        countable(m as int),
        countable(n as int),
        countable(k as int),
    ensures
        l.kernel@ == "gemm_nvfp4_sm121"@,
        l.grid == (cover(m as int, 64) as u32, cover(n as int, 64) as u32, 1u32),
        l.block == 256,
        l.shared_bytes == 0,
        l.args@ == seq![
            LaunchArg::Addr(a),
            LaunchArg::Addr(weights),
            LaunchArg::Addr(scales),
            LaunchArg::Addr(out),
            LaunchArg::I32(m as i32),
            LaunchArg::I32(n as i32),
            LaunchArg::I32(k as i32),
        ],
{
    let args: Vec<LaunchArg> = vec![
        LaunchArg::Addr(a),
        LaunchArg::Addr(weights),
        LaunchArg::Addr(scales),
        LaunchArg::Addr(out),
        LaunchArg::I32(m as i32),
        LaunchArg::I32(n as i32),
        LaunchArg::I32(k as i32),
    ];
    proof {
        assert(args@ =~= seq![
            LaunchArg::Addr(a),
            LaunchArg::Addr(weights),
            LaunchArg::Addr(scales),
            LaunchArg::Addr(out),
            LaunchArg::I32(m as i32),
            LaunchArg::I32(n as i32),
            LaunchArg::I32(k as i32),
        ]);
    }
    Launch {
        kernel: "gemm_nvfp4_sm121",
        grid: (((m + 63) / 64) as u32, ((n + 63) / 64) as u32, 1),
        block: 256,
        shared_bytes: 0,
        args,
    }
}

/// A norm; a block's partial sums are shared.
pub fn launch_rms_norm(out: u64, input: u64, weight: u64, n: usize, eps_bits: u32) -> (l: Launch)
    requires
        countable(n as int),
    ensures
        covers(l, "rms_norm_kernel"@, n as int, 1024),
        l.args@ == seq![
            LaunchArg::Addr(input),
            LaunchArg::Addr(out),
            LaunchArg::Addr(weight),
            LaunchArg::I32(n as i32),
            LaunchArg::F32(eps_bits),
        ],
{
    let args: Vec<LaunchArg> = vec![
        LaunchArg::Addr(input),
        LaunchArg::Addr(out),
        LaunchArg::Addr(weight),
        LaunchArg::I32(n as i32),
        LaunchArg::F32(eps_bits),
    ];
    proof {
        assert(args@ =~= seq![
            LaunchArg::Addr(input),
            LaunchArg::Addr(out),
            LaunchArg::Addr(weight),
            LaunchArg::I32(n as i32),
            LaunchArg::F32(eps_bits),
        ]);
    }
    covering("rms_norm_kernel", n, 1024, args)
}

/// An elementwise kernel over two inputs.
pub open spec fn binary_args(x: u64, y: u64, out: u64, n: usize) -> Seq<LaunchArg> {
    seq![
        LaunchArg::Addr(x),
        LaunchArg::Addr(y),
        LaunchArg::Addr(out),
        LaunchArg::I32(n as i32),
    ]
}

fn binary(kernel: &'static str, x: u64, y: u64, out: u64, n: usize) -> (l: Launch)
    requires
        countable(n as int),
    ensures
        covers(l, kernel@, n as int, 0),
        l.args@ == binary_args(x, y, out, n),
{
    let args: Vec<LaunchArg> = vec![
        LaunchArg::Addr(x),
        LaunchArg::Addr(y),
        LaunchArg::Addr(out),
        LaunchArg::I32(n as i32),
    ];
    proof {
        assert(args@ =~= binary_args(x, y, out, n));
    }
    covering(kernel, n, 0, args)
}

/// The gated activation.
pub fn launch_silu_gate_mul(out: u64, gate: u64, up: u64, n: usize) -> (l: Launch)
    requires
        countable(n as int),
    ensures
        covers(l, "silu_gate_mul_kernel"@, n as int, 0),
        l.args@ == binary_args(gate, up, out, n),
{
    binary("silu_gate_mul_kernel", gate, up, out, n)
}

/// A residual sum.
pub fn launch_add_residual(out: u64, a: u64, b: u64, n: usize) -> (l: Launch)
    requires
        countable(n as int),
    ensures
        covers(l, "add_residual_kernel"@, n as int, 0),
        l.args@ == binary_args(a, b, out, n),
{
    binary("add_residual_kernel", a, b, out, n)
}

/// Bits of the f32 ten thousand: the base of the rotary angles.
pub const ROPE_BASE_BITS: u32 = 0x461C_4000;

/// The rotary embedding of all heads at one position.
pub fn launch_apply_rope(out: u64, input: u64, pos: usize, head_dim: usize, num_heads: usize) -> (l:
    Launch)
    requires
        countable(pos as int),
        countable(head_dim as int),
        countable(num_heads as int),
        countable(num_heads * head_dim),
    ensures
        covers(l, "apply_rope_kernel"@, num_heads * head_dim, 0),
        l.args@ == seq![
            LaunchArg::Addr(input),
            LaunchArg::Addr(out),
            LaunchArg::I32(pos as i32),
            LaunchArg::I32(num_heads as i32),
            LaunchArg::I32(head_dim as i32),
            LaunchArg::F32(ROPE_BASE_BITS),
        ],
{
    proof {
        assert(0 <= num_heads * head_dim) by (nonlinear_arith);
    }
    let args: Vec<LaunchArg> = vec![
        LaunchArg::Addr(input),
        LaunchArg::Addr(out),
        LaunchArg::I32(pos as i32),
        LaunchArg::I32(num_heads as i32),
        LaunchArg::I32(head_dim as i32),
        LaunchArg::F32(ROPE_BASE_BITS),
    ];
    proof {
        assert(args@ =~= seq![
            LaunchArg::Addr(input),
            LaunchArg::Addr(out),
            LaunchArg::I32(pos as i32),
            LaunchArg::I32(num_heads as i32),
            LaunchArg::I32(head_dim as i32),
            LaunchArg::F32(ROPE_BASE_BITS),
        ]);
    }
    covering("apply_rope_kernel", num_heads * head_dim, 0, args)
}

/// Attention of one token: a block of 128 threads per head.
pub fn launch_fused_attention_decode(
    output: u64,
    q: u64,
    k_cache: u64,
    v_cache: u64,
    seq_len: usize,
    num_heads: usize,
    head_dim: usize,
    num_kv_heads: usize,
    layer: usize,
) -> (l: Launch)
    requires
        countable(seq_len as int),
        countable(num_heads as int),
        countable(head_dim as int),
        countable(num_kv_heads as int),
        countable(layer as int),
    ensures
        l.kernel@ == "fused_decode_single_token"@,
        l.grid == (num_heads as u32, 1u32, 1u32),
        l.block == 128,
        l.shared_bytes == 0,
        l.args@ == seq![
            LaunchArg::Addr(q),
            LaunchArg::Addr(k_cache),
            LaunchArg::Addr(v_cache),
            LaunchArg::Addr(output),
            LaunchArg::I32(seq_len as i32),
            LaunchArg::I32(num_heads as i32),
            LaunchArg::I32(num_kv_heads as i32),
            LaunchArg::I32(head_dim as i32),
            LaunchArg::I32(layer as i32),
        ],
{
    let args: Vec<LaunchArg> = vec![
        LaunchArg::Addr(q),
        LaunchArg::Addr(k_cache),
        LaunchArg::Addr(v_cache),
        LaunchArg::Addr(output),
        LaunchArg::I32(seq_len as i32),
        LaunchArg::I32(num_heads as i32),
        LaunchArg::I32(num_kv_heads as i32),
        LaunchArg::I32(head_dim as i32),
        LaunchArg::I32(layer as i32),
    ];
    proof {
        assert(args@ =~= seq![
            LaunchArg::Addr(q),
            LaunchArg::Addr(k_cache),
            LaunchArg::Addr(v_cache),
            LaunchArg::Addr(output),
            LaunchArg::I32(seq_len as i32),
            LaunchArg::I32(num_heads as i32),
            LaunchArg::I32(num_kv_heads as i32),
            LaunchArg::I32(head_dim as i32),
            LaunchArg::I32(layer as i32),
        ]);
    }
    Launch {
        kernel: "fused_decode_single_token",
        grid: (num_heads as u32, 1, 1),
        block: 128,
        shared_bytes: 0,
        args,
    }
}

} // verus!
