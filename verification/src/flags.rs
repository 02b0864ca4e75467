//! wgpu's flag sets as plain bits: their names, the sample counts of a format, and the features
//! a device is asked for.
use crate::text::{lemma_take_next, lower, lowered, push_text, texts};
use vstd::prelude::*;

verus! {

/// The names of the flags of `table` that are set in `bits`, in table order.
pub open spec fn set_names(table: Seq<(u32, Seq<char>)>, bits: u32) -> Seq<Seq<char>>
    decreases table.len(),
{
    if table.len() == 0 {
        seq![]
    } else if bits & table.last().0 != 0 {
        set_names(table.drop_last(), bits).push(table.last().1)
    } else {
        set_names(table.drop_last(), bits)
    }
}

// ---------------------------------------------------------------------------
// Backends
// ---------------------------------------------------------------------------

/// The bit of the Vulkan backend.
pub const VULKAN: u32 = 0x2;

/// The bit of the Metal backend.
pub const METAL: u32 = 0x4;

/// The bit of the Direct3D 12 backend.
pub const DX12: u32 = 0x8;

/// The bit of the OpenGL backend.
pub const GL: u32 = 0x10;

/// The bits of the backends with first tier support.
pub const PRIMARY: u32 = 0x2e;

/// The bits of all backends.
pub const ALL_BACKENDS: u32 = 0x3f;

/// The backends and their bits, as `wgpu::Backends` declares them.
pub open spec fn backend_table() -> Seq<(u32, Seq<char>)> {
    seq![
        (0x1u32, "NOOP"@),
        (0x2u32, "VULKAN"@),
        (0x10u32, "GL"@),
        (0x4u32, "METAL"@),
        (0x8u32, "DX12"@),
        (0x20u32, "BROWSER_WEBGPU"@),
    ]
}

/// `wgpu::Backends::iter_names`: the names of the backends that are set, in declaration order.
#[verifier::external_body]
fn backend_flag_names(bits: u32) -> (r: Vec<String>)
    ensures
        texts(r@) == set_names(backend_table(), bits),
{
    wgpu::Backends::from_bits_retain(bits).iter_names().map(|(n, _)| n.to_string()).collect()
}

/// The names of the requested backends as a report spells them: small.
pub open spec fn backend_labels(bits: u32) -> Seq<Seq<char>> {
    let names = set_names(backend_table(), bits);
    Seq::new(names.len(), |i: int| lowered(names[i]))
}

/// The names of the backends in `bits`, small.
pub fn backends_requested(bits: u32) -> (r: Vec<String>)
    ensures
        texts(r@) == backend_labels(bits),
{
    let names = backend_flag_names(bits);
    let mut r: Vec<String> = Vec::new();
    let mut i: usize = 0;
    while i < names.len()
        invariant
            i <= names@.len(),
            texts(names@) == set_names(backend_table(), bits),
            texts(r@) == backend_labels(bits).take(i as int),
        decreases names@.len() - i,
    {
        assert(texts(names@)[i as int] == names@[i as int]@);
        push_text(&mut r, lower(names[i].as_str()));
        proof {
            lemma_take_next(backend_labels(bits), i as int);
        }
        i = i + 1;
    }
    assert(backend_labels(bits).take(i as int) =~= backend_labels(bits));
    r
}

// ---------------------------------------------------------------------------
// Texture formats
// ---------------------------------------------------------------------------

/// The texture usages and their bits, as `wgpu::TextureUsages` declares them.
pub open spec fn texture_usage_table() -> Seq<(u32, Seq<char>)> {
    seq![
        (0x1u32, "COPY_SRC"@),
        (0x2u32, "COPY_DST"@),
        (0x4u32, "TEXTURE_BINDING"@),
        (0x8u32, "STORAGE_BINDING"@),
        (0x10u32, "RENDER_ATTACHMENT"@),
        (0x20u32, "TRANSIENT_ATTACHMENT"@),
        (0x10000u32, "STORAGE_ATOMIC"@),
    ]
}

/// `wgpu::TextureUsages::iter_names`: the names of the usages that are set, in declaration order.
#[verifier::external_body]
pub(crate) fn texture_usage_names(bits: u32) -> (r: Vec<String>)
    ensures
        texts(r@) == set_names(texture_usage_table(), bits),
{
    wgpu::TextureUsages::from_bits_retain(bits).iter_names().map(|(n, _)| n.to_string()).collect()
}

/// The format feature flags and their bits, as `wgpu::TextureFormatFeatureFlags` declares them.
pub open spec fn format_flag_table() -> Seq<(u32, Seq<char>)> {
    seq![
        (0x1u32, "FILTERABLE"@),
        (0x2u32, "MULTISAMPLE_X2"@),
        (0x4u32, "MULTISAMPLE_X4"@),
        (0x8u32, "MULTISAMPLE_X8"@),
        (0x10u32, "MULTISAMPLE_X16"@),
        (0x20u32, "MULTISAMPLE_RESOLVE"@),
        (0x40u32, "STORAGE_READ_ONLY"@),
        (0x80u32, "STORAGE_WRITE_ONLY"@),
        (0x100u32, "STORAGE_READ_WRITE"@),
        (0x200u32, "STORAGE_ATOMIC"@),
        (0x400u32, "BLENDABLE"@),
    ]
}

/// `wgpu::TextureFormatFeatureFlags::iter_names`: the names of the flags that are set, in
/// declaration order.
#[verifier::external_body]
pub(crate) fn format_flag_names(bits: u32) -> (r: Vec<String>)
    ensures
        texts(r@) == set_names(format_flag_table(), bits),
{
    wgpu::TextureFormatFeatureFlags::from_bits_retain(bits)
        .iter_names()
        .map(|(n, _)| n.to_string())
        .collect()
}

/// The format feature flag that allows `count` samples per texel; single sampling needs none.
pub open spec fn sample_count_flag(count: u32) -> u32 {
    if count == 2 {
        0x2
    } else if count == 4 {
        0x4
    } else if count == 8 {
        0x8
    } else if count == 16 {
        0x10
    } else {
        0
    }
}

/// Do the format feature flags allow `count` samples per texel?
pub open spec fn sample_count_allowed(flags: u32, count: u32) -> bool {
    count == 1 || flags & sample_count_flag(count) != 0
}

/// `wgpu::TextureFormatFeatureFlags::sample_count_supported`: one sample always, two, four,
/// eight and sixteen where their flag is set, no other count.
#[verifier::external_body]
fn sample_count_supported(flags: u32, count: u32) -> (r: bool)
    ensures
        count == 1 || count == 2 || count == 4 || count == 8 || count == 16 ==> r
            == sample_count_allowed(flags, count),
        !(count == 1 || count == 2 || count == 4 || count == 8 || count == 16) ==> !r,
{
    wgpu::TextureFormatFeatureFlags::from_bits_retain(flags).sample_count_supported(count)
}

/// The counts that a format may be asked for, in rising order.
pub open spec fn possible_sample_counts() -> Seq<u32> {
    seq![1u32, 2u32, 4u32, 8u32, 16u32]
}

/// The possible sample counts that `flags` allow, in rising order.
pub open spec fn allowed_sample_counts(flags: u32) -> Seq<u32> {
    possible_sample_counts().filter(|c: u32| sample_count_allowed(flags, c))
}

/// The sample counts that format feature flags allow, in rising order; always at least one.
#[must_use]
pub fn sample_counts_from_flags(flags: u32) -> (r: Vec<u32>)
    ensures
        r@ == allowed_sample_counts(flags),
        r@.contains(1),
{
    let counts: [u32; 5] = [1, 2, 4, 8, 16];
    let mut r: Vec<u32> = Vec::new();
    let ghost allowed = |c: u32| sample_count_allowed(flags, c);
    assert(counts@ =~= possible_sample_counts());
    assert(counts@.take(0).filter(allowed) =~= seq![]) by {
        reveal(Seq::filter);
    }
    let mut i: usize = 0;
    while i < 5
        invariant
            i <= 5,
            counts@ == possible_sample_counts(),
            allowed == (|c: u32| sample_count_allowed(flags, c)),
            r@ == counts@.take(i as int).filter(allowed),
            i > 0 ==> r@.len() > 0 && r@[0] == 1,
        decreases 5 - i,
    {
        let c = counts[i];
        if sample_count_supported(flags, c) {
            r.push(c);
        }
        proof {
            reveal(Seq::filter);
            assert(counts@.take(i + 1).drop_last() =~= counts@.take(i as int));
        }
        i = i + 1;
    }
    assert(counts@.take(5) =~= counts@);
    r
}

// ---------------------------------------------------------------------------
// Downlevel flags
// ---------------------------------------------------------------------------

/// The downlevel flags and their bits, as `wgpu::DownlevelFlags` declares them.
pub open spec fn downlevel_table() -> Seq<(u32, Seq<char>)> {
    seq![
        (0x1u32, "COMPUTE_SHADERS"@),
        (0x2u32, "FRAGMENT_WRITABLE_STORAGE"@),
        (0x4u32, "INDIRECT_EXECUTION"@),
        (0x8u32, "BASE_VERTEX"@),
        (0x10u32, "READ_ONLY_DEPTH_STENCIL"@),
        (0x20u32, "NON_POWER_OF_TWO_MIPMAPPED_TEXTURES"@),
        (0x40u32, "CUBE_ARRAY_TEXTURES"@),
        (0x80u32, "COMPARISON_SAMPLERS"@),
        (0x100u32, "INDEPENDENT_BLEND"@),
        (0x200u32, "VERTEX_STORAGE"@),
        (0x400u32, "ANISOTROPIC_FILTERING"@),
        (0x800u32, "FRAGMENT_STORAGE"@),
        (0x1000u32, "MULTISAMPLED_SHADING"@),
        (0x2000u32, "DEPTH_TEXTURE_AND_BUFFER_COPIES"@),
        (0x4000u32, "WEBGPU_TEXTURE_FORMAT_SUPPORT"@),
        (0x8000u32, "BUFFER_BINDINGS_NOT_16_BYTE_ALIGNED"@),
        (0x10000u32, "UNRESTRICTED_INDEX_BUFFER"@),
        (0x20000u32, "FULL_DRAW_INDEX_UINT32"@),
        (0x40000u32, "DEPTH_BIAS_CLAMP"@),
        (0x80000u32, "VIEW_FORMATS"@),
        (0x100000u32, "UNRESTRICTED_EXTERNAL_TEXTURE_COPIES"@),
        (0x200000u32, "SURFACE_VIEW_FORMATS"@),
        (0x400000u32, "NONBLOCKING_QUERY_RESOLVE"@),
        (0x800000u32, "SHADER_F16_IN_F32"@),
        (0x1000000u32, "MSL2_1"@),
        (0x2000000u32, "TEXTURE_COMPRESSION"@),
    ]
}

/// `wgpu::DownlevelFlags::iter_names`: the names of the flags that are set, in declaration order.
#[verifier::external_body]
pub(crate) fn downlevel_flag_names(bits: u32) -> (r: Vec<String>)
    ensures
        texts(r@) == set_names(downlevel_table(), bits),
{
    wgpu::DownlevelFlags::from_bits_retain(bits).iter_names().map(|(n, _)| n.to_string()).collect()
}

/// Every downlevel flag but anisotropic filtering, which WebGPU does not require.
pub const COMPLIANT_FLAGS: u32 = 0x3fffbff;

/// The shader models, from the least capable on.
#[derive(Debug, Clone, Copy, PartialEq, Eq, Structural)]
pub enum ShaderModel {
    /// Extremely limited shaders.
    Sm2,
    /// Missing minor features and storage images.
    Sm4,
    /// What WebGPU requires.
    Sm5,
}

/// `wgpu::DownlevelCapabilities::is_webgpu_compliant`: all flags but anisotropic filtering are
/// set and the shader model is the highest.
#[verifier::external_body]
pub(crate) fn is_webgpu_compliant(flags: u32, shader_model: ShaderModel) -> (r: bool)
    ensures
        r == (flags & COMPLIANT_FLAGS == COMPLIANT_FLAGS && shader_model == ShaderModel::Sm5),
{
    wgpu::DownlevelCapabilities {
        flags: wgpu::DownlevelFlags::from_bits_retain(flags),
        limits: wgpu::DownlevelLimits::default(),
        shader_model: match shader_model {
            ShaderModel::Sm2 => wgpu::ShaderModel::Sm2,
            ShaderModel::Sm4 => wgpu::ShaderModel::Sm4,
            ShaderModel::Sm5 => wgpu::ShaderModel::Sm5,
        },
    }.is_webgpu_compliant()
}

// ---------------------------------------------------------------------------
// Features
// ---------------------------------------------------------------------------

/// A set of optional features: wgpu's own, and those of the WebGPU standard.
#[derive(Debug, Clone, Copy, PartialEq, Eq, Structural)]
pub struct FeatureBits {
    /// The features that wgpu adds.
    pub wgpu: u64,
    /// The features of the WebGPU standard.
    pub webgpu: u64,
}

/// The names of the features that are set in the two words of a `wgpu::Features`.
pub uninterp spec fn feature_flag_names(wgpu: u64, webgpu: u64) -> Seq<Seq<char>>;

/// `wgpu::Features::iter_names`: the names of the features that are set. The result is named,
/// not stated.
#[verifier::external_body]
pub(crate) fn feature_names(bits: FeatureBits) -> (r: Vec<String>)
    ensures
        texts(r@) == feature_flag_names(bits.wgpu, bits.webgpu),
{
    wgpu::Features::from_internal_flags(
        wgpu::FeaturesWGPU::from_bits_retain(bits.wgpu),
        wgpu::FeaturesWebGPU::from_bits_retain(bits.webgpu),
    )
        .iter_names()
        .map(|(n, _)| n.to_string())
        .collect()
}

/// wgpu's own features.
pub const WGPU_FEATURES: u64 = 0xffff_ffff_fdfe_bfff;

/// The features of the WebGPU standard.
pub const WEBGPU_FEATURES: u64 = 0x3ffff;

/// Those of wgpu's own features that are experimental.
pub const EXPERIMENTAL_FEATURES: u64 = 0x0287_0001_0100_0000;

/// `wgpu::Features::all`: every feature that is declared.
#[verifier::external_body]
fn all_features() -> (r: FeatureBits)
    ensures
        r == (FeatureBits { wgpu: WGPU_FEATURES, webgpu: WEBGPU_FEATURES }),
{
    let bits = wgpu::Features::all().bits().0;
    FeatureBits { wgpu: bits[0], webgpu: bits[1] }
}

/// `wgpu::Features::all_experimental_mask`: the experimental features, all of them wgpu's own.
#[verifier::external_body]
fn experimental_features() -> (r: FeatureBits)
    ensures
        r == (FeatureBits { wgpu: EXPERIMENTAL_FEATURES, webgpu: 0 }),
{
    let bits = wgpu::Features::all_experimental_mask().bits().0;
    FeatureBits { wgpu: bits[0], webgpu: bits[1] }
}

/// Every feature that is not experimental: a device that is asked for an experimental one
/// without an opt-in refuses the whole request.
#[must_use]
pub fn stable_features() -> (r: FeatureBits)
    ensures
        r.wgpu == WGPU_FEATURES & !EXPERIMENTAL_FEATURES,
        r.wgpu & EXPERIMENTAL_FEATURES == 0,
        r.webgpu == WEBGPU_FEATURES,
{
    let all = all_features();
    let experimental = experimental_features();
    assert(0xffff_ffff_fdfe_bfffu64 & !0x0287_0001_0100_0000u64 & 0x0287_0001_0100_0000u64 == 0)
        by (bit_vector);
    assert(0x3ffffu64 & !0u64 == 0x3ffffu64) by (bit_vector);
    FeatureBits {
        wgpu: all.wgpu & !experimental.wgpu,
        webgpu: all.webgpu & !experimental.webgpu,
    }
}

// ---------------------------------------------------------------------------
// Laws
// ---------------------------------------------------------------------------

/// The names of the flags that are set: a flag more in the table adds its name at the end exactly
/// where its bit is set.
pub proof fn law_set_names(table: Seq<(u32, Seq<char>)>, bit: u32, name: Seq<char>, bits: u32)
    ensures
        set_names(seq![], bits) == Seq::<Seq<char>>::empty(),
        bits & bit != 0 ==> set_names(table.push((bit, name)), bits) == set_names(table, bits).push(
            name,
        ),
        bits & bit == 0 ==> set_names(table.push((bit, name)), bits) == set_names(table, bits),
        set_names(table.push((bit, name)), bits) == set_names(table, bits) + (if bits & bit != 0 {
            seq![name]
        } else {
            seq![]
        }),
{
    assert(table.push((bit, name)).drop_last() =~= table);
    assert(set_names(table, bits).push(name) =~= set_names(table, bits) + seq![name]);
    assert(set_names(table, bits) + Seq::empty() =~= set_names(table, bits));
}

/// Every flag of a table whose bit is set is named, and no other is.
pub proof fn law_every_set_flag_is_named(table: Seq<(u32, Seq<char>)>, bits: u32)
    ensures
        forall|i: int|
            0 <= i < table.len() && bits & (#[trigger] table[i]).0 != 0 ==> set_names(
                table,
                bits,
            ).contains(table[i].1),
        forall|name: Seq<char>| #[trigger]
            set_names(table, bits).contains(name) ==> exists|i: int|
                0 <= i < table.len() && bits & (#[trigger] table[i]).0 != 0 && table[i].1 == name,
    decreases table.len(),
{
    if table.len() > 0 {
        let front = table.drop_last();
        let before = set_names(front, bits);
        let all = set_names(table, bits);
        law_every_set_flag_is_named(front, bits);
        assert forall|i: int| 0 <= i < table.len() && bits & (#[trigger] table[i]).0
            != 0 implies all.contains(table[i].1) by {
            if i < front.len() {
                assert(front[i] == table[i]);
                let k = choose|k: int| 0 <= k < before.len() && before[k] == table[i].1;
                assert(all[k] == table[i].1);
            } else {
                assert(all[before.len() as int] == table[i].1);
            }
        }
        assert forall|name: Seq<char>| #[trigger] all.contains(name) implies exists|i: int|
            0 <= i < table.len() && bits & (#[trigger] table[i]).0 != 0 && table[i].1 == name by {
            let k = choose|k: int| 0 <= k < all.len() && all[k] == name;
            if k < before.len() {
                assert(before[k] == name);
                assert(before.contains(name));
                let i = choose|i: int|
                    0 <= i < front.len() && bits & (#[trigger] front[i]).0 != 0 && front[i].1
                        == name;
                assert(table[i] == front[i]);
            } else {
                assert(table[front.len() as int].1 == name);
            }
        }
    }
}

spec fn lowered_all(names: Seq<Seq<char>>) -> Seq<Seq<char>> {
    Seq::new(names.len(), |i: int| lowered(names[i]))
}

proof fn lemma_lowered_all(a: Seq<Seq<char>>, b: Seq<Seq<char>>)
    ensures
        lowered_all(a + b) == lowered_all(a) + lowered_all(b),
{
    assert(lowered_all(a + b) =~= lowered_all(a) + lowered_all(b));
}

/// The requested backends are named one by one, in small letters, each exactly where its bit is
/// set.
pub proof fn law_requested_backends(bits: u32)
    ensures
        backend_labels(bits) == (if bits & 0x1 != 0 {
            seq!["noop"@]
        } else {
            seq![]
        }) + (if bits & 0x2 != 0 {
            seq!["vulkan"@]
        } else {
            seq![]
        }) + (if bits & 0x10 != 0 {
            seq!["gl"@]
        } else {
            seq![]
        }) + (if bits & 0x4 != 0 {
            seq!["metal"@]
        } else {
            seq![]
        }) + (if bits & 0x8 != 0 {
            seq!["dx12"@]
        } else {
            seq![]
        }) + (if bits & 0x20 != 0 {
            seq!["browser_webgpu"@]
        } else {
            seq![]
        }),
{
    let table = backend_table();
    reveal_strlit("noop");
    reveal_strlit("NOOP");
    assert(lowered("NOOP"@) =~= "noop"@);
    reveal_strlit("vulkan");
    reveal_strlit("VULKAN");
    assert(lowered("VULKAN"@) =~= "vulkan"@);
    reveal_strlit("gl");
    reveal_strlit("GL");
    assert(lowered("GL"@) =~= "gl"@);
    reveal_strlit("metal");
    reveal_strlit("METAL");
    assert(lowered("METAL"@) =~= "metal"@);
    reveal_strlit("dx12");
    reveal_strlit("DX12");
    assert(lowered("DX12"@) =~= "dx12"@);
    reveal_strlit("browser_webgpu");
    reveal_strlit("BROWSER_WEBGPU");
    assert(lowered("BROWSER_WEBGPU"@) =~= "browser_webgpu"@);
    assert(table.take(0) =~= seq![]);
    assert(lowered_all(set_names(table.take(0), bits)) =~= seq![]);
    assert(set_names(table.take(0), bits) =~= seq![]);
    let t1 = table.take(1);
    assert(t1.drop_last() =~= table.take(0));
    law_set_names(table.take(0), 0x1u32, "NOOP"@, bits);
    assert(t1 =~= table.take(0).push((0x1u32, "NOOP"@)));
    lemma_lowered_all(set_names(table.take(0), bits), if bits & 0x1 != 0 {
        seq!["NOOP"@]
    } else {
        seq![]
    });
    assert(lowered_all(if bits & 0x1 != 0 {
        seq!["NOOP"@]
    } else {
        seq![]
    }) =~= if bits & 0x1 != 0 {
        seq!["noop"@]
    } else {
        seq![]
    });
    let t2 = table.take(2);
    assert(t2.drop_last() =~= table.take(1));
    law_set_names(table.take(1), 0x2u32, "VULKAN"@, bits);
    assert(t2 =~= table.take(1).push((0x2u32, "VULKAN"@)));
    lemma_lowered_all(set_names(table.take(1), bits), if bits & 0x2 != 0 {
        seq!["VULKAN"@]
    } else {
        seq![]
    });
    assert(lowered_all(if bits & 0x2 != 0 {
        seq!["VULKAN"@]
    } else {
        seq![]
    }) =~= if bits & 0x2 != 0 {
        seq!["vulkan"@]
    } else {
        seq![]
    });
    let t3 = table.take(3);
    assert(t3.drop_last() =~= table.take(2));
    law_set_names(table.take(2), 0x10u32, "GL"@, bits);
    assert(t3 =~= table.take(2).push((0x10u32, "GL"@)));
    lemma_lowered_all(set_names(table.take(2), bits), if bits & 0x10 != 0 {
        seq!["GL"@]
    } else {
        seq![]
    });
    assert(lowered_all(if bits & 0x10 != 0 {
        seq!["GL"@]
    } else {
        seq![]
    }) =~= if bits & 0x10 != 0 {
        seq!["gl"@]
    } else {
        seq![]
    });
    let t4 = table.take(4);
    assert(t4.drop_last() =~= table.take(3));
    law_set_names(table.take(3), 0x4u32, "METAL"@, bits);
    assert(t4 =~= table.take(3).push((0x4u32, "METAL"@)));
    lemma_lowered_all(set_names(table.take(3), bits), if bits & 0x4 != 0 {
        seq!["METAL"@]
    } else {
        seq![]
    });
    assert(lowered_all(if bits & 0x4 != 0 {
        seq!["METAL"@]
    } else {
        seq![]
    }) =~= if bits & 0x4 != 0 {
        seq!["metal"@]
    } else {
        seq![]
    });
    let t5 = table.take(5);
    assert(t5.drop_last() =~= table.take(4));
    law_set_names(table.take(4), 0x8u32, "DX12"@, bits);
    assert(t5 =~= table.take(4).push((0x8u32, "DX12"@)));
    lemma_lowered_all(set_names(table.take(4), bits), if bits & 0x8 != 0 {
        seq!["DX12"@]
    } else {
        seq![]
    });
    assert(lowered_all(if bits & 0x8 != 0 {
        seq!["DX12"@]
    } else {
        seq![]
    }) =~= if bits & 0x8 != 0 {
        seq!["dx12"@]
    } else {
        seq![]
    });
    let t6 = table.take(6);
    assert(t6.drop_last() =~= table.take(5));
    law_set_names(table.take(5), 0x20u32, "BROWSER_WEBGPU"@, bits);
    assert(t6 =~= table.take(5).push((0x20u32, "BROWSER_WEBGPU"@)));
    lemma_lowered_all(set_names(table.take(5), bits), if bits & 0x20 != 0 {
        seq!["BROWSER_WEBGPU"@]
    } else {
        seq![]
    });
    assert(lowered_all(if bits & 0x20 != 0 {
        seq!["BROWSER_WEBGPU"@]
    } else {
        seq![]
    }) =~= if bits & 0x20 != 0 {
        seq!["browser_webgpu"@]
    } else {
        seq![]
    });
    assert(table.take(6) =~= table);
    assert(lowered_all(set_names(table, bits)) =~= backend_labels(bits));
    assert(backend_labels(bits) =~= (if bits & 0x1 != 0 {
            seq!["noop"@]
        } else {
            seq![]
        }) + (if bits & 0x2 != 0 {
            seq!["vulkan"@]
        } else {
            seq![]
        }) + (if bits & 0x10 != 0 {
            seq!["gl"@]
        } else {
            seq![]
        }) + (if bits & 0x4 != 0 {
            seq!["metal"@]
        } else {
            seq![]
        }) + (if bits & 0x8 != 0 {
            seq!["dx12"@]
        } else {
            seq![]
        }) + (if bits & 0x20 != 0 {
            seq!["browser_webgpu"@]
        } else {
            seq![]
        }));
}

/// The sample counts of a format: one always, and 2, 4, 8 and 16 each exactly where its own flag is
/// set, in rising order.
pub proof fn law_sample_counts(flags: u32)
    ensures
        allowed_sample_counts(flags) == seq![1u32] + (if flags & 0x2 != 0 {
            seq![2u32]
        } else {
            seq![]
        }) + (if flags & 0x4 != 0 {
            seq![4u32]
        } else {
            seq![]
        }) + (if flags & 0x8 != 0 {
            seq![8u32]
        } else {
            seq![]
        }) + (if flags & 0x10 != 0 {
            seq![16u32]
        } else {
            seq![]
        }),
{
    let all = possible_sample_counts();
    let allowed = |c: u32| sample_count_allowed(flags, c);
    reveal(Seq::filter);
    assert(all.take(5) =~= all);
    assert(all.take(5).drop_last() =~= all.take(4));
    assert(all.take(4).drop_last() =~= all.take(3));
    assert(all.take(3).drop_last() =~= all.take(2));
    assert(all.take(2).drop_last() =~= all.take(1));
    assert(all.take(1).drop_last() =~= all.take(0));
    let none = Seq::<u32>::empty();
    let s0 = all.take(0).filter(allowed);
    assert(s0 =~= none);
    let s1 = all.take(1).filter(allowed);
    assert(s1 =~= seq![1u32]);
    let s2 = all.take(2).filter(allowed);
    assert(s2 =~= s1 + if flags & 0x2 != 0 { seq![2u32] } else { none });
    let s3 = all.take(3).filter(allowed);
    assert(s3 =~= s2 + if flags & 0x4 != 0 { seq![4u32] } else { none });
    let s4 = all.take(4).filter(allowed);
    assert(s4 =~= s3 + if flags & 0x8 != 0 { seq![8u32] } else { none });
    assert(all.filter(allowed) =~= s4 + if flags & 0x10 != 0 { seq![16u32] } else { none });
}

} // verus!
