//! Plain description of a system's GPU capabilities.
//!
//! Limits are reported as numbers under wgpu's own names; everything else (features, backend,
//! downlevel flags, formats) is flattened into text.
use crate::caps::Limits;
use crate::flags::{
    backend_labels, backends_requested, downlevel_flag_names, downlevel_table, feature_flag_names,
    feature_names, format_flag_names, format_flag_table, is_webgpu_compliant, set_names,
    texture_usage_names, texture_usage_table, FeatureBits, ShaderModel, COMPLIANT_FLAGS,
};
use crate::text::{lemma_take_next, same_text, texts};
use vstd::prelude::*;

verus! {

// ---------------------------------------------------------------------------
// Reports
// ---------------------------------------------------------------------------

/// Allowed usages and feature flags for one texture format.
#[derive(Debug, Clone, PartialEq)]
pub struct TextureFormatReport {
    /// Format name (e.g. `Rgba8Unorm`).
    pub format: String,
    /// Allowed texture usages for this format, as flag names.
    pub allowed_usages: Vec<String>,
    /// Additional format feature flags, as flag names.
    pub flags: Vec<String>,
}

/// What a [`TextureFormatReport`] holds.
#[verifier::ext_equal]
pub struct FormatView {
    /// Format name.
    pub format: Seq<char>,
    /// Allowed texture usages.
    pub allowed_usages: Seq<Seq<char>>,
    /// Format feature flags.
    pub flags: Seq<Seq<char>>,
}

impl View for TextureFormatReport {
    type V = FormatView;

    open spec fn view(&self) -> FormatView {
        FormatView {
            format: self.format@,
            allowed_usages: texts(self.allowed_usages@),
            flags: texts(self.flags@),
        }
    }
}

/// How the platform diverges from the baseline WebGPU standard.
#[derive(Debug, Clone, PartialEq)]
pub struct DownlevelReport {
    /// True if the adapter fully meets the baseline WebGPU standard.
    pub is_webgpu_compliant: bool,
    /// Highest supported shader model (`Sm2`, `Sm4`, `Sm5`).
    pub shader_model: String,
    /// Set downlevel flags, as flag names.
    pub flags: Vec<String>,
}

/// What a [`DownlevelReport`] holds.
#[verifier::ext_equal]
pub struct DownlevelView {
    /// Is the adapter compliant?
    pub is_webgpu_compliant: bool,
    /// Shader model.
    pub shader_model: Seq<char>,
    /// Downlevel flags.
    pub flags: Seq<Seq<char>>,
}

impl View for DownlevelReport {
    type V = DownlevelView;

    open spec fn view(&self) -> DownlevelView {
        DownlevelView {
            is_webgpu_compliant: self.is_webgpu_compliant,
            shader_model: self.shader_model@,
            flags: texts(self.flags@),
        }
    }
}

/// Capabilities of a single adapter.
#[derive(Debug, Clone, PartialEq)]
pub struct AdapterReport {
    /// Adapter name as reported by the driver.
    pub name: String,
    /// Backend this adapter is exposed through (`vulkan`, `dx12`, `metal`, `gl`, ...).
    pub backend: String,
    /// Device class: `DiscreteGpu`, `IntegratedGpu`, `VirtualGpu`, `Cpu`, `Other`.
    pub device_type: String,
    /// Backend-specific vendor id (usually a PCI vendor id in the low 16 bits).
    pub vendor: u32,
    /// Human-readable vendor name when the id is recognized.
    pub vendor_name: Option<String>,
    /// Backend-specific device id.
    pub device: u32,
    /// PCI bus id (`bus:device.function`) when the backend provides it.
    pub pci_bus_id: String,
    /// Driver name.
    pub driver: String,
    /// Driver version or build.
    pub driver_info: String,
    /// Smallest subgroup size on this adapter.
    pub subgroup_min_size: u32,
    /// Largest subgroup size on this adapter.
    pub subgroup_max_size: u32,
    /// Supported optional features, as flag names.
    pub features: Vec<String>,
    /// The best limits the adapter can grant.
    pub limits: Limits,
    /// Downlevel capability description.
    pub downlevel: DownlevelReport,
    /// Per-format usage support for a curated set of common texture formats.
    pub texture_formats: Vec<TextureFormatReport>,
}

/// What an [`AdapterReport`] holds.
#[verifier::ext_equal]
pub struct AdapterView {
    /// Adapter name.
    pub name: Seq<char>,
    /// Backend.
    pub backend: Seq<char>,
    /// Device class.
    pub device_type: Seq<char>,
    /// Vendor id.
    pub vendor: u32,
    /// Vendor name.
    pub vendor_name: Option<Seq<char>>,
    /// Device id.
    pub device: u32,
    /// PCI bus id.
    pub pci_bus_id: Seq<char>,
    /// Driver name.
    pub driver: Seq<char>,
    /// Driver version.
    pub driver_info: Seq<char>,
    /// Smallest subgroup size.
    pub subgroup_min_size: u32,
    /// Largest subgroup size.
    pub subgroup_max_size: u32,
    /// Features.
    pub features: Seq<Seq<char>>,
    /// Limits.
    pub limits: Limits,
    /// Downlevel capabilities.
    pub downlevel: DownlevelView,
    /// Texture formats.
    pub texture_formats: Seq<FormatView>,
}

/// What an optional text holds.
pub open spec fn option_view(o: Option<String>) -> Option<Seq<char>> {
    match o {
        Some(s) => Some(s@),
        None => None,
    }
}

/// What a list of format reports holds.
pub open spec fn formats_view(v: Seq<TextureFormatReport>) -> Seq<FormatView> {
    Seq::new(v.len(), |i: int| v[i]@)
}

impl View for AdapterReport {
    type V = AdapterView;

    open spec fn view(&self) -> AdapterView {
        AdapterView {
            name: self.name@,
            backend: self.backend@,
            device_type: self.device_type@,
            vendor: self.vendor,
            vendor_name: option_view(self.vendor_name),
            device: self.device,
            pci_bus_id: self.pci_bus_id@,
            driver: self.driver@,
            driver_info: self.driver_info@,
            subgroup_min_size: self.subgroup_min_size,
            subgroup_max_size: self.subgroup_max_size,
            features: texts(self.features@),
            limits: self.limits,
            downlevel: self.downlevel@,
            texture_formats: formats_view(self.texture_formats@),
        }
    }
}

/// Full capability snapshot for every adapter wgpu can enumerate on this system.
#[derive(Debug, Clone, PartialEq)]
pub struct GpuReport {
    /// Version of the library that produced the report.
    pub wgpu_info_version: String,
    /// wgpu version the report was built against.
    pub wgpu_version: String,
    /// Backends that were requested during enumeration (e.g. `["vulkan", "dx12"]`).
    pub backends_requested: Vec<String>,
    /// One entry per enumerated adapter. A single physical GPU may appear more than once when it
    /// is exposed through several backends.
    pub adapters: Vec<AdapterReport>,
}

/// What a [`GpuReport`] holds.
#[verifier::ext_equal]
pub struct ReportView {
    /// Version of the library.
    pub wgpu_info_version: Seq<char>,
    /// wgpu version.
    pub wgpu_version: Seq<char>,
    /// Requested backends.
    pub backends_requested: Seq<Seq<char>>,
    /// Adapters.
    pub adapters: Seq<AdapterView>,
}

/// What a list of adapter reports holds.
pub open spec fn adapters_view(v: Seq<AdapterReport>) -> Seq<AdapterView> {
    Seq::new(v.len(), |i: int| v[i]@)
}

impl View for GpuReport {
    type V = ReportView;

    open spec fn view(&self) -> ReportView {
        ReportView {
            wgpu_info_version: self.wgpu_info_version@,
            wgpu_version: self.wgpu_version@,
            backends_requested: texts(self.backends_requested@),
            adapters: adapters_view(self.adapters@),
        }
    }
}

// ---------------------------------------------------------------------------
// Names
// ---------------------------------------------------------------------------

/// The name of the vendor with this id, where it is recognized.
///
/// The GL backend can report Mesa's full 17-bit id, which is matched unmasked and first;
/// everything else uses the low 16 bits as a PCI vendor id.
pub open spec fn vendor_label(vendor: u32) -> Option<Seq<char>> {
    let id = vendor & 0xffff;
    if vendor == 0x10005 {
        Some("Mesa"@)
    } else if id == 0x10de {
        Some("NVIDIA"@)
    } else if id == 0x1002 || id == 0x1022 {
        Some("AMD"@)
    } else if id == 0x8086 {
        Some("Intel"@)
    } else if id == 0x13b5 {
        Some("ARM"@)
    } else if id == 0x5143 {
        Some("Qualcomm"@)
    } else if id == 0x1010 {
        Some("ImgTec"@)
    } else if id == 0x106b {
        Some("Apple"@)
    } else if id == 0x1414 {
        Some("Microsoft"@)
    } else {
        None
    }
}

/// What an optional piece of text holds.
pub open spec fn option_str(o: Option<&'static str>) -> Option<Seq<char>> {
    match o {
        Some(s) => Some(s@),
        None => None,
    }
}

/// Map a backend-specific vendor id to a human name.
pub fn vendor_name(vendor: u32) -> (r: Option<&'static str>)
    ensures
        option_str(r) == vendor_label(vendor),
{
    if vendor == 0x10005 {
        return Some("Mesa");
    }
    match vendor & 0xffff {
        0x10de => Some("NVIDIA"),
        0x1002 | 0x1022 => Some("AMD"),
        0x8086 => Some("Intel"),
        0x13b5 => Some("ARM"),
        0x5143 => Some("Qualcomm"),
        0x1010 => Some("ImgTec"),
        0x106b => Some("Apple"),
        0x1414 => Some("Microsoft"),
        _ => None,
    }
}

/// The device classes.
#[derive(Debug, Clone, Copy, PartialEq, Eq, Structural)]
pub enum DeviceType {
    /// Other or unknown.
    Other,
    /// Shares memory with the CPU.
    IntegratedGpu,
    /// Has memory of its own.
    DiscreteGpu,
    /// Virtual or hosted.
    VirtualGpu,
    /// Software rendering.
    Cpu,
}

/// The report's name of a device class.
pub open spec fn device_type_label(t: DeviceType) -> Seq<char> {
    match t {
        DeviceType::Other => "Other"@,
        DeviceType::IntegratedGpu => "IntegratedGpu"@,
        DeviceType::DiscreteGpu => "DiscreteGpu"@,
        DeviceType::VirtualGpu => "VirtualGpu"@,
        DeviceType::Cpu => "Cpu"@,
    }
}

/// The report's name of a device class.
pub fn device_type_str(t: DeviceType) -> (r: &'static str)
    ensures
        r@ == device_type_label(t),
{
    match t {
        DeviceType::Other => "Other",
        DeviceType::IntegratedGpu => "IntegratedGpu",
        DeviceType::DiscreteGpu => "DiscreteGpu",
        DeviceType::VirtualGpu => "VirtualGpu",
        DeviceType::Cpu => "Cpu",
    }
}

/// The report's name of a shader model.
pub open spec fn shader_model_label(m: ShaderModel) -> Seq<char> {
    match m {
        ShaderModel::Sm2 => "Sm2"@,
        ShaderModel::Sm4 => "Sm4"@,
        ShaderModel::Sm5 => "Sm5"@,
    }
}

/// The report's name of a shader model.
pub fn shader_model_str(m: ShaderModel) -> (r: &'static str)
    ensures
        r@ == shader_model_label(m),
{
    match m {
        ShaderModel::Sm2 => "Sm2",
        ShaderModel::Sm4 => "Sm4",
        ShaderModel::Sm5 => "Sm5",
    }
}

/// The graphics interfaces an adapter can be exposed through.
#[derive(Debug, Clone, Copy, PartialEq, Eq, Structural)]
pub enum Backend {
    /// Dummy backend for testing.
    Noop,
    /// Vulkan.
    Vulkan,
    /// Metal.
    Metal,
    /// Direct3D 12.
    Dx12,
    /// OpenGL.
    Gl,
    /// WebGPU in the browser.
    BrowserWebGpu,
}

/// The report's name of a backend.
pub open spec fn backend_label(b: Backend) -> Seq<char> {
    match b {
        Backend::Noop => "noop"@,
        Backend::Vulkan => "vulkan"@,
        Backend::Metal => "metal"@,
        Backend::Dx12 => "dx12"@,
        Backend::Gl => "gl"@,
        Backend::BrowserWebGpu => "webgpu"@,
    }
}

/// The report's name of a backend.
pub fn backend_str(b: Backend) -> (r: &'static str)
    ensures
        r@ == backend_label(b),
{
    match b {
        Backend::Noop => "noop",
        Backend::Vulkan => "vulkan",
        Backend::Metal => "metal",
        Backend::Dx12 => "dx12",
        Backend::Gl => "gl",
        Backend::BrowserWebGpu => "webgpu",
    }
}

/// The texture formats that a report covers: the common render, compute, depth and compressed
/// set.
#[derive(Debug, Clone, Copy, PartialEq, Eq, Structural)]
pub enum TextureFormat {
    /// One 8-bit channel.
    R8Unorm,
    /// Two 8-bit channels.
    Rg8Unorm,
    /// Four 8-bit channels.
    Rgba8Unorm,
    /// Four 8-bit channels in sRGB.
    Rgba8UnormSrgb,
    /// Four 8-bit channels, blue first.
    Bgra8Unorm,
    /// Four 8-bit channels in sRGB, blue first.
    Bgra8UnormSrgb,
    /// Ten bits of color per channel, two of alpha.
    Rgb10a2Unorm,
    /// Packed unsigned floats.
    Rg11b10Ufloat,
    /// One half float.
    R16Float,
    /// Two half floats.
    Rg16Float,
    /// Four half floats.
    Rgba16Float,
    /// One float.
    R32Float,
    /// Two floats.
    Rg32Float,
    /// Four floats.
    Rgba32Float,
    /// One integer.
    R32Uint,
    /// Four integers.
    Rgba32Uint,
    /// 16-bit depth.
    Depth16Unorm,
    /// At least 24 bits of depth.
    Depth24Plus,
    /// At least 24 bits of depth and a stencil.
    Depth24PlusStencil8,
    /// Float depth.
    Depth32Float,
    /// Block compression 1.
    Bc1RgbaUnorm,
    /// Block compression 7.
    Bc7RgbaUnorm,
}

/// The name of a texture format.
pub open spec fn format_label(f: TextureFormat) -> Seq<char> {
    match f {
        TextureFormat::R8Unorm => "R8Unorm"@,
        TextureFormat::Rg8Unorm => "Rg8Unorm"@,
        TextureFormat::Rgba8Unorm => "Rgba8Unorm"@,
        TextureFormat::Rgba8UnormSrgb => "Rgba8UnormSrgb"@,
        TextureFormat::Bgra8Unorm => "Bgra8Unorm"@,
        TextureFormat::Bgra8UnormSrgb => "Bgra8UnormSrgb"@,
        TextureFormat::Rgb10a2Unorm => "Rgb10a2Unorm"@,
        TextureFormat::Rg11b10Ufloat => "Rg11b10Ufloat"@,
        TextureFormat::R16Float => "R16Float"@,
        TextureFormat::Rg16Float => "Rg16Float"@,
        TextureFormat::Rgba16Float => "Rgba16Float"@,
        TextureFormat::R32Float => "R32Float"@,
        TextureFormat::Rg32Float => "Rg32Float"@,
        TextureFormat::Rgba32Float => "Rgba32Float"@,
        TextureFormat::R32Uint => "R32Uint"@,
        TextureFormat::Rgba32Uint => "Rgba32Uint"@,
        TextureFormat::Depth16Unorm => "Depth16Unorm"@,
        TextureFormat::Depth24Plus => "Depth24Plus"@,
        TextureFormat::Depth24PlusStencil8 => "Depth24PlusStencil8"@,
        TextureFormat::Depth32Float => "Depth32Float"@,
        TextureFormat::Bc1RgbaUnorm => "Bc1RgbaUnorm"@,
        TextureFormat::Bc7RgbaUnorm => "Bc7RgbaUnorm"@,
    }
}

/// The name of a texture format.
pub fn format_str(f: TextureFormat) -> (r: &'static str)
    ensures
        r@ == format_label(f),
{
    match f {
        TextureFormat::R8Unorm => "R8Unorm",
        TextureFormat::Rg8Unorm => "Rg8Unorm",
        TextureFormat::Rgba8Unorm => "Rgba8Unorm",
        TextureFormat::Rgba8UnormSrgb => "Rgba8UnormSrgb",
        TextureFormat::Bgra8Unorm => "Bgra8Unorm",
        TextureFormat::Bgra8UnormSrgb => "Bgra8UnormSrgb",
        TextureFormat::Rgb10a2Unorm => "Rgb10a2Unorm",
        TextureFormat::Rg11b10Ufloat => "Rg11b10Ufloat",
        TextureFormat::R16Float => "R16Float",
        TextureFormat::Rg16Float => "Rg16Float",
        TextureFormat::Rgba16Float => "Rgba16Float",
        TextureFormat::R32Float => "R32Float",
        TextureFormat::Rg32Float => "Rg32Float",
        TextureFormat::Rgba32Float => "Rgba32Float",
        TextureFormat::R32Uint => "R32Uint",
        TextureFormat::Rgba32Uint => "Rgba32Uint",
        TextureFormat::Depth16Unorm => "Depth16Unorm",
        TextureFormat::Depth24Plus => "Depth24Plus",
        TextureFormat::Depth24PlusStencil8 => "Depth24PlusStencil8",
        TextureFormat::Depth32Float => "Depth32Float",
        TextureFormat::Bc1RgbaUnorm => "Bc1RgbaUnorm",
        TextureFormat::Bc7RgbaUnorm => "Bc7RgbaUnorm",
    }
}

/// The texture formats that a report covers, in report order.
pub open spec fn covered_formats() -> Seq<TextureFormat> {
    seq![
        TextureFormat::R8Unorm,
        TextureFormat::Rg8Unorm,
        TextureFormat::Rgba8Unorm,
        TextureFormat::Rgba8UnormSrgb,
        TextureFormat::Bgra8Unorm,
        TextureFormat::Bgra8UnormSrgb,
        TextureFormat::Rgb10a2Unorm,
        TextureFormat::Rg11b10Ufloat,
        TextureFormat::R16Float,
        TextureFormat::Rg16Float,
        TextureFormat::Rgba16Float,
        TextureFormat::R32Float,
        TextureFormat::Rg32Float,
        TextureFormat::Rgba32Float,
        TextureFormat::R32Uint,
        TextureFormat::Rgba32Uint,
        TextureFormat::Depth16Unorm,
        TextureFormat::Depth24Plus,
        TextureFormat::Depth24PlusStencil8,
        TextureFormat::Depth32Float,
        TextureFormat::Bc1RgbaUnorm,
        TextureFormat::Bc7RgbaUnorm,
    ]
}

/// The texture formats to probe of an adapter, in report order.
pub fn common_formats() -> (r: Vec<TextureFormat>)
    ensures
        r@ == covered_formats(),
{
    let r = vec![
        TextureFormat::R8Unorm,
        TextureFormat::Rg8Unorm,
        TextureFormat::Rgba8Unorm,
        TextureFormat::Rgba8UnormSrgb,
        TextureFormat::Bgra8Unorm,
        TextureFormat::Bgra8UnormSrgb,
        TextureFormat::Rgb10a2Unorm,
        TextureFormat::Rg11b10Ufloat,
        TextureFormat::R16Float,
        TextureFormat::Rg16Float,
        TextureFormat::Rgba16Float,
        TextureFormat::R32Float,
        TextureFormat::Rg32Float,
        TextureFormat::Rgba32Float,
        TextureFormat::R32Uint,
        TextureFormat::Rgba32Uint,
        TextureFormat::Depth16Unorm,
        TextureFormat::Depth24Plus,
        TextureFormat::Depth24PlusStencil8,
        TextureFormat::Depth32Float,
        TextureFormat::Bc1RgbaUnorm,
        TextureFormat::Bc7RgbaUnorm,
    ];
    assert(r@ =~= covered_formats());
    r
}

// ---------------------------------------------------------------------------
// Building a report
// ---------------------------------------------------------------------------

/// What an adapter says of one texture format.
#[derive(Debug, Clone, Copy, PartialEq, Eq)]
pub struct FormatFacts {
    /// The format.
    pub format: TextureFormat,
    /// The bits of the allowed usages.
    pub allowed_usages: u32,
    /// The bits of the format feature flags.
    pub flags: u32,
}

/// What an adapter says of itself, as plain values.
#[derive(Debug, Clone, PartialEq)]
pub struct AdapterFacts {
    /// Adapter name as reported by the driver.
    pub name: String,
    /// The backend.
    pub backend: Backend,
    /// The device class.
    pub device_type: DeviceType,
    /// Vendor id.
    pub vendor: u32,
    /// Device id.
    pub device: u32,
    /// PCI bus id, empty where the backend provides none.
    pub device_pci_bus_id: String,
    /// Driver name.
    pub driver: String,
    /// Driver version or build.
    pub driver_info: String,
    /// Smallest subgroup size.
    pub subgroup_min_size: u32,
    /// Largest subgroup size.
    pub subgroup_max_size: u32,
    /// Supported optional features.
    pub features: FeatureBits,
    /// The best limits the adapter can grant.
    pub limits: Limits,
    /// The bits of the downlevel flags.
    pub downlevel_flags: u32,
    /// Highest supported shader model.
    pub shader_model: ShaderModel,
    /// What the adapter says of the formats of [`common_formats`].
    pub formats: Vec<FormatFacts>,
}

/// The report on one texture format.
pub open spec fn format_report(f: FormatFacts) -> FormatView {
    FormatView {
        format: format_label(f.format),
        allowed_usages: set_names(texture_usage_table(), f.allowed_usages),
        flags: set_names(format_flag_table(), f.flags),
    }
}

/// The reports on texture formats.
pub open spec fn format_reports(fs: Seq<FormatFacts>) -> Seq<FormatView> {
    Seq::new(fs.len(), |i: int| format_report(fs[i]))
}

/// The report on an adapter that says `facts` of itself.
pub open spec fn adapter_report(facts: AdapterFacts) -> AdapterView {
    AdapterView {
        name: facts.name@,
        backend: backend_label(facts.backend),
        device_type: device_type_label(facts.device_type),
        vendor: facts.vendor,
        vendor_name: vendor_label(facts.vendor),
        device: facts.device,
        pci_bus_id: facts.device_pci_bus_id@,
        driver: facts.driver@,
        driver_info: facts.driver_info@,
        subgroup_min_size: facts.subgroup_min_size,
        subgroup_max_size: facts.subgroup_max_size,
        features: feature_flag_names(facts.features.wgpu, facts.features.webgpu),
        limits: facts.limits,
        downlevel: DownlevelView {
            is_webgpu_compliant: facts.downlevel_flags & COMPLIANT_FLAGS == COMPLIANT_FLAGS
                && facts.shader_model == ShaderModel::Sm5,
            shader_model: shader_model_label(facts.shader_model),
            flags: set_names(downlevel_table(), facts.downlevel_flags),
        },
        texture_formats: format_reports(facts.formats@),
    }
}

impl TextureFormatReport {
    /// The report on one texture format.
    fn from_facts(f: &FormatFacts) -> (r: Self)
        ensures
            r@ == format_report(*f),
    {
        TextureFormatReport {
            format: format_str(f.format).to_owned(),
            allowed_usages: texture_usage_names(f.allowed_usages),
            flags: format_flag_names(f.flags),
        }
    }
}

impl AdapterReport {
    /// Build a report from what a live adapter says of itself.
    pub fn from_adapter(facts: &AdapterFacts) -> (r: Self)
        ensures
            r@ == adapter_report(*facts),
    {
        let ghost all = format_reports(facts.formats@);
        let mut texture_formats: Vec<TextureFormatReport> = Vec::new();
        let mut i: usize = 0;
        assert(formats_view(texture_formats@) =~= all.take(0));
        while i < facts.formats.len()
            invariant
                i <= facts.formats@.len(),
                all == format_reports(facts.formats@),
                formats_view(texture_formats@) == all.take(i as int),
            decreases facts.formats@.len() - i,
        {
            let ghost before = texture_formats@;
            let one = TextureFormatReport::from_facts(&facts.formats[i]);
            texture_formats.push(one);
            proof {
                lemma_take_next(all, i as int);
                assert(formats_view(texture_formats@) =~= formats_view(before).push(one@));
            }
            i = i + 1;
        }
        assert(all.take(all.len() as int) =~= all);
        let vendor = match vendor_name(facts.vendor) {
            Some(v) => Some(v.to_owned()),
            None => None,
        };
        AdapterReport {
            name: facts.name.clone(),
            backend: backend_str(facts.backend).to_owned(),
            device_type: device_type_str(facts.device_type).to_owned(),
            vendor: facts.vendor,
            vendor_name: vendor,
            device: facts.device,
            pci_bus_id: facts.device_pci_bus_id.clone(),
            driver: facts.driver.clone(),
            driver_info: facts.driver_info.clone(),
            subgroup_min_size: facts.subgroup_min_size,
            subgroup_max_size: facts.subgroup_max_size,
            features: feature_names(facts.features),
            limits: facts.limits,
            downlevel: DownlevelReport {
                is_webgpu_compliant: is_webgpu_compliant(facts.downlevel_flags, facts.shader_model),
                shader_model: shader_model_str(facts.shader_model).to_owned(),
                flags: downlevel_flag_names(facts.downlevel_flags),
            },
            texture_formats,
        }
    }
}

/// The reports on adapters.
pub open spec fn adapter_reports(facts: Seq<AdapterFacts>) -> Seq<AdapterView> {
    Seq::new(facts.len(), |i: int| adapter_report(facts[i]))
}

/// Do the facts tell of every covered format, in report order?
pub open spec fn covers_formats(facts: AdapterFacts) -> bool {
    &&& facts.formats@.len() == covered_formats().len()
    &&& forall|i: int|
        0 <= i < covered_formats().len() ==> (#[trigger] facts.formats@[i]).format
            == covered_formats()[i]
}

/// The report on an adapter that was asked for every covered format lists each of the 22 once, by
/// its name, in report order, with what the adapter said of it.
pub proof fn law_report_covers_the_formats(facts: AdapterFacts)
    requires
        covers_formats(facts),
    ensures
        covered_formats().len() == 22,
        covered_formats().no_duplicates(),
        adapter_report(facts).texture_formats.len() == 22,
        forall|i: int|
            0 <= i < 22 ==> (#[trigger] adapter_report(facts).texture_formats[i]).format
                == format_label(covered_formats()[i]),
        forall|i: int|
            0 <= i < 22 ==> (#[trigger] adapter_report(facts).texture_formats[i]) == format_report(
                FormatFacts { format: covered_formats()[i], ..facts.formats@[i] },
            ),
{
}

/// Major wgpu version this library targets.
pub const WGPU_VERSION: &'static str = "30";

/// The report of an enumeration of the backends in `backends` that found `adapters`, in order.
///
/// `info_version` is the version of this library.
#[must_use]
pub fn query_backends(
    info_version: &str,
    backends: u32,
    adapters: &Vec<AdapterFacts>,
) -> (r: GpuReport)
    ensures
        r@ == (ReportView {
            wgpu_info_version: info_version@,
            wgpu_version: "30"@,
            backends_requested: backend_labels(backends),
            adapters: adapter_reports(adapters@),
        }),
{
    let ghost all = adapter_reports(adapters@);
    let mut reports: Vec<AdapterReport> = Vec::new();
    let mut i: usize = 0;
    assert(adapters_view(reports@) =~= all.take(0));
    while i < adapters.len()
        invariant
            i <= adapters@.len(),
            all == adapter_reports(adapters@),
            adapters_view(reports@) == all.take(i as int),
        decreases adapters@.len() - i,
    {
        let ghost before = reports@;
        let one = AdapterReport::from_adapter(&adapters[i]);
        reports.push(one);
        proof {
            lemma_take_next(all, i as int);
            assert(adapters_view(reports@) =~= adapters_view(before).push(one@));
        }
        i = i + 1;
    }
    assert(all.take(all.len() as int) =~= all);
    GpuReport {
        wgpu_info_version: info_version.to_owned(),
        wgpu_version: WGPU_VERSION.to_owned(),
        backends_requested: backends_requested(backends),
        adapters: reports,
    }
}

// ---------------------------------------------------------------------------
// Primary adapter
// ---------------------------------------------------------------------------

/// Is this the report on a discrete GPU?
pub open spec fn is_discrete(a: AdapterView) -> bool {
    a.device_type == "DiscreteGpu"@
}

/// The first discrete GPU among `adapters`, or their number where there is none.
pub open spec fn first_discrete(adapters: Seq<AdapterView>) -> int
    decreases adapters.len(),
{
    if adapters.len() == 0 || is_discrete(adapters[0]) {
        0
    } else {
        1 + first_discrete(adapters.subrange(1, adapters.len() as int))
    }
}

/// The index of the primary adapter: the first discrete GPU, else the first adapter.
pub open spec fn primary_index(adapters: Seq<AdapterView>) -> int {
    if first_discrete(adapters) < adapters.len() {
        first_discrete(adapters)
    } else {
        0
    }
}

/// `first_discrete` points at the first discrete GPU or behind the last adapter.
pub proof fn lemma_first_discrete(adapters: Seq<AdapterView>)
    ensures
        0 <= first_discrete(adapters) <= adapters.len(),
        first_discrete(adapters) < adapters.len() ==> is_discrete(adapters[first_discrete(adapters)]),
        forall|i: int| 0 <= i < first_discrete(adapters) ==> !is_discrete(#[trigger] adapters[i]),
    decreases adapters.len(),
{
    if adapters.len() > 0 && !is_discrete(adapters[0]) {
        let rest = adapters.subrange(1, adapters.len() as int);
        lemma_first_discrete(rest);
        assert forall|i: int| 0 <= i < first_discrete(adapters) implies !is_discrete(
            #[trigger] adapters[i],
        ) by {
            if i > 0 {
                assert(rest[i - 1] == adapters[i]);
            }
        }
    }
}

/// Name and backend of the primary adapter.
pub open spec fn primary(adapters: Seq<AdapterView>) -> (Seq<char>, Seq<char>) {
    if adapters.len() == 0 {
        ("unknown"@, "none"@)
    } else {
        let a = adapters[primary_index(adapters)];
        (a.name, a.backend)
    }
}

impl GpuReport {
    /// Plain `(name, backend)` strings for the report's primary adapter.
    ///
    /// A discrete GPU is preferred when several adapters are enumerated (the same physical GPU
    /// often appears once per backend); falls back to the first adapter, and to
    /// `("unknown", "none")` when no adapter was found.
    #[must_use]
    pub fn primary_summary(&self) -> (r: (String, String))
        ensures
            (r.0@, r.1@) == primary(self@.adapters),
    {
        let n = self.adapters.len();
        if n == 0 {
            return ("unknown".to_owned(), "none".to_owned());
        }
        let ghost all = self@.adapters;
        let mut pick: usize = 0;
        let mut i: usize = 0;
        proof {
            lemma_first_discrete(all);
        }
        while i < n
            invariant_except_break
                pick == 0,
                forall|j: int| 0 <= j < i ==> !is_discrete(#[trigger] all[j]),
            invariant
                i <= n,
                n == self.adapters@.len(),
                all == self@.adapters,
                first_discrete(all) < all.len() ==> is_discrete(all[first_discrete(all)]),
                forall|j: int| 0 <= j < first_discrete(all) ==> !is_discrete(#[trigger] all[j]),
                0 <= first_discrete(all) <= all.len(),
            ensures
                pick == primary_index(all),
            decreases n - i,
        {
            assert(all[i as int] == self.adapters@[i as int]@);
            if same_text(self.adapters[i].device_type.as_str(), "DiscreteGpu") {
                pick = i;
                break;
            }
            i = i + 1;
        }
        let a = &self.adapters[pick];
        assert(all[pick as int] == a@);
        (a.name.clone(), a.backend.clone())
    }
}

/// The primary adapter of a report that has any: one of its adapters, and a discrete one where
/// there is one.
pub proof fn law_primary_is_discrete_where_possible(adapters: Seq<AdapterView>)
    requires
        adapters.len() > 0,
    ensures
        0 <= primary_index(adapters) < adapters.len(),
        primary(adapters) == (
            adapters[primary_index(adapters)].name,
            adapters[primary_index(adapters)].backend,
        ),
        (exists|i: int| 0 <= i < adapters.len() && is_discrete(#[trigger] adapters[i]))
            ==> is_discrete(adapters[primary_index(adapters)]),
{
    lemma_first_discrete(adapters);
}

/// A report's view tells all that the report holds, adapter by adapter, feature by feature and
/// format by format.
pub proof fn law_views_leave_nothing_out(r: GpuReport, i: int)
    requires
        0 <= i < r.adapters@.len(),
    ensures
        r@.wgpu_info_version == r.wgpu_info_version@,
        r@.wgpu_version == r.wgpu_version@,
        r@.backends_requested.len() == r.backends_requested@.len(),
        forall|k: int|
            0 <= k < r.backends_requested@.len() ==> r@.backends_requested[k] == (
            #[trigger] r.backends_requested@[k])@,
        r@.adapters.len() == r.adapters@.len(),
        r@.adapters[i].name == r.adapters@[i].name@,
        r@.adapters[i].backend == r.adapters@[i].backend@,
        r@.adapters[i].device_type == r.adapters@[i].device_type@,
        r@.adapters[i].vendor == r.adapters@[i].vendor,
        r@.adapters[i].device == r.adapters@[i].device,
        r@.adapters[i].pci_bus_id == r.adapters@[i].pci_bus_id@,
        r@.adapters[i].driver == r.adapters@[i].driver@,
        r@.adapters[i].driver_info == r.adapters@[i].driver_info@,
        r@.adapters[i].subgroup_min_size == r.adapters@[i].subgroup_min_size,
        r@.adapters[i].subgroup_max_size == r.adapters@[i].subgroup_max_size,
        r@.adapters[i].limits == r.adapters@[i].limits,
        r@.adapters[i].vendor_name is Some <==> r.adapters@[i].vendor_name is Some,
        r.adapters@[i].vendor_name is Some ==> r@.adapters[i].vendor_name->0
            == r.adapters@[i].vendor_name->0@,
        r@.adapters[i].features.len() == r.adapters@[i].features@.len(),
        forall|k: int|
            0 <= k < r.adapters@[i].features@.len() ==> r@.adapters[i].features[k] == (
            #[trigger] r.adapters@[i].features@[k])@,
        r@.adapters[i].downlevel.is_webgpu_compliant
            == r.adapters@[i].downlevel.is_webgpu_compliant,
        r@.adapters[i].downlevel.shader_model == r.adapters@[i].downlevel.shader_model@,
        r@.adapters[i].downlevel.flags.len() == r.adapters@[i].downlevel.flags@.len(),
        forall|k: int|
            0 <= k < r.adapters@[i].downlevel.flags@.len() ==> r@.adapters[i].downlevel.flags[k]
                == (#[trigger] r.adapters@[i].downlevel.flags@[k])@,
        r@.adapters[i].texture_formats.len() == r.adapters@[i].texture_formats@.len(),
        forall|k: int|
            0 <= k < r.adapters@[i].texture_formats@.len() ==> r@.adapters[i].texture_formats[k]
                == (#[trigger] r.adapters@[i].texture_formats@[k])@,
        forall|k: int|
            0 <= k < r.adapters@[i].texture_formats@.len() ==> (
            #[trigger] r.adapters@[i].texture_formats@[k])@.format
                == r.adapters@[i].texture_formats@[k].format@,
{
    assert(r@.adapters[i] == r.adapters@[i]@);
}

/// The report on an adapter says of it what the adapter says of itself, field by field.
pub proof fn law_reports_say_what_adapters_say(facts: AdapterFacts)
    ensures
        adapter_report(facts).name == facts.name@,
        adapter_report(facts).backend == backend_label(facts.backend),
        adapter_report(facts).device_type == device_type_label(facts.device_type),
        adapter_report(facts).vendor == facts.vendor,
        adapter_report(facts).vendor_name == vendor_label(facts.vendor),
        adapter_report(facts).device == facts.device,
        adapter_report(facts).pci_bus_id == facts.device_pci_bus_id@,
        adapter_report(facts).driver == facts.driver@,
        adapter_report(facts).driver_info == facts.driver_info@,
        adapter_report(facts).subgroup_min_size == facts.subgroup_min_size,
        adapter_report(facts).subgroup_max_size == facts.subgroup_max_size,
        adapter_report(facts).features == feature_flag_names(
            facts.features.wgpu,
            facts.features.webgpu,
        ),
        adapter_report(facts).limits == facts.limits,
        adapter_report(facts).downlevel.is_webgpu_compliant <==> facts.downlevel_flags & 0x3fffbff
            == 0x3fffbff && facts.shader_model == ShaderModel::Sm5,
        adapter_report(facts).downlevel.shader_model == shader_model_label(facts.shader_model),
        adapter_report(facts).downlevel.flags == set_names(
            downlevel_table(),
            facts.downlevel_flags,
        ),
        adapter_report(facts).texture_formats.len() == facts.formats@.len(),
        forall|k: int|
            0 <= k < facts.formats@.len() ==> ({
                let told = #[trigger] facts.formats@[k];
                let f = adapter_report(facts).texture_formats[k];
                f.format == format_label(told.format) && f.allowed_usages == set_names(
                    texture_usage_table(),
                    told.allowed_usages,
                ) && f.flags == set_names(format_flag_table(), told.flags)
            }),
{
}

/// Every adapter is reported on, in the order they were found.
pub proof fn law_one_report_for_each_adapter(found: Seq<AdapterFacts>, more: AdapterFacts)
    ensures
        adapter_reports(seq![]) == Seq::<AdapterView>::empty(),
        adapter_reports(found.push(more)) == adapter_reports(found).push(adapter_report(more)),
{
    assert(adapter_reports(seq![]) =~= Seq::<AdapterView>::empty());
    assert(adapter_reports(found.push(more)) =~= adapter_reports(found).push(adapter_report(more)));
}

/// Which vendor an id stands for: Mesa's is matched whole, every other by its low 16 bits, and ids
/// that are none of these are not recognized.
pub proof fn law_vendors(vendor: u32)
    ensures
        vendor == 0x10005 ==> vendor_label(vendor) == Some("Mesa"@),
        vendor & 0xffff == 0x10de ==> vendor_label(vendor) == Some("NVIDIA"@),
        vendor & 0xffff == 0x1002 ==> vendor_label(vendor) == Some("AMD"@),
        vendor & 0xffff == 0x1022 ==> vendor_label(vendor) == Some("AMD"@),
        vendor & 0xffff == 0x8086 ==> vendor_label(vendor) == Some("Intel"@),
        vendor & 0xffff == 0x13b5 ==> vendor_label(vendor) == Some("ARM"@),
        vendor & 0xffff == 0x5143 ==> vendor_label(vendor) == Some("Qualcomm"@),
        vendor & 0xffff == 0x1010 ==> vendor_label(vendor) == Some("ImgTec"@),
        vendor & 0xffff == 0x106b ==> vendor_label(vendor) == Some("Apple"@),
        vendor & 0xffff == 0x1414 ==> vendor_label(vendor) == Some("Microsoft"@),
        vendor_label(vendor) is Some <==> vendor == 0x10005 || vendor & 0xffff
            == 0x10de || vendor & 0xffff
            == 0x1002 || vendor & 0xffff
            == 0x1022 || vendor & 0xffff
            == 0x8086 || vendor & 0xffff
            == 0x13b5 || vendor & 0xffff
            == 0x5143 || vendor & 0xffff
            == 0x1010 || vendor & 0xffff
            == 0x106b || vendor & 0xffff
            == 0x1414,
{
    assert(0x10005u32 & 0xffff == 5) by (bit_vector);
}

/// Device classes, shader models and backends go by these names.
pub proof fn law_names_in_reports()
    ensures
        device_type_label(DeviceType::Other) == "Other"@,
        device_type_label(DeviceType::IntegratedGpu) == "IntegratedGpu"@,
        device_type_label(DeviceType::DiscreteGpu) == "DiscreteGpu"@,
        device_type_label(DeviceType::VirtualGpu) == "VirtualGpu"@,
        device_type_label(DeviceType::Cpu) == "Cpu"@,
        shader_model_label(ShaderModel::Sm2) == "Sm2"@,
        shader_model_label(ShaderModel::Sm4) == "Sm4"@,
        shader_model_label(ShaderModel::Sm5) == "Sm5"@,
        backend_label(Backend::Noop) == "noop"@,
        backend_label(Backend::Vulkan) == "vulkan"@,
        backend_label(Backend::Metal) == "metal"@,
        backend_label(Backend::Dx12) == "dx12"@,
        backend_label(Backend::Gl) == "gl"@,
        backend_label(Backend::BrowserWebGpu) == "webgpu"@,
{
}

/// A texture format goes by its own name.
pub proof fn law_format_names()
    ensures
        format_label(TextureFormat::R8Unorm) == "R8Unorm"@,
        format_label(TextureFormat::Rg8Unorm) == "Rg8Unorm"@,
        format_label(TextureFormat::Rgba8Unorm) == "Rgba8Unorm"@,
        format_label(TextureFormat::Rgba8UnormSrgb) == "Rgba8UnormSrgb"@,
        format_label(TextureFormat::Bgra8Unorm) == "Bgra8Unorm"@,
        format_label(TextureFormat::Bgra8UnormSrgb) == "Bgra8UnormSrgb"@,
        format_label(TextureFormat::Rgb10a2Unorm) == "Rgb10a2Unorm"@,
        format_label(TextureFormat::Rg11b10Ufloat) == "Rg11b10Ufloat"@,
        format_label(TextureFormat::R16Float) == "R16Float"@,
        format_label(TextureFormat::Rg16Float) == "Rg16Float"@,
        format_label(TextureFormat::Rgba16Float) == "Rgba16Float"@,
        format_label(TextureFormat::R32Float) == "R32Float"@,
        format_label(TextureFormat::Rg32Float) == "Rg32Float"@,
        format_label(TextureFormat::Rgba32Float) == "Rgba32Float"@,
        format_label(TextureFormat::R32Uint) == "R32Uint"@,
        format_label(TextureFormat::Rgba32Uint) == "Rgba32Uint"@,
        format_label(TextureFormat::Depth16Unorm) == "Depth16Unorm"@,
        format_label(TextureFormat::Depth24Plus) == "Depth24Plus"@,
        format_label(TextureFormat::Depth24PlusStencil8) == "Depth24PlusStencil8"@,
        format_label(TextureFormat::Depth32Float) == "Depth32Float"@,
        format_label(TextureFormat::Bc1RgbaUnorm) == "Bc1RgbaUnorm"@,
        format_label(TextureFormat::Bc7RgbaUnorm) == "Bc7RgbaUnorm"@,
{
}

/// Every texture format is covered by a report, once.
pub proof fn law_every_format_is_covered(f: TextureFormat)
    ensures
        covered_formats().contains(f),
        covered_formats().no_duplicates(),
{
    let all = covered_formats();
    let i: int = match f {
        TextureFormat::R8Unorm => 0,
        TextureFormat::Rg8Unorm => 1,
        TextureFormat::Rgba8Unorm => 2,
        TextureFormat::Rgba8UnormSrgb => 3,
        TextureFormat::Bgra8Unorm => 4,
        TextureFormat::Bgra8UnormSrgb => 5,
        TextureFormat::Rgb10a2Unorm => 6,
        TextureFormat::Rg11b10Ufloat => 7,
        TextureFormat::R16Float => 8,
        TextureFormat::Rg16Float => 9,
        TextureFormat::Rgba16Float => 10,
        TextureFormat::R32Float => 11,
        TextureFormat::Rg32Float => 12,
        TextureFormat::Rgba32Float => 13,
        TextureFormat::R32Uint => 14,
        TextureFormat::Rgba32Uint => 15,
        TextureFormat::Depth16Unorm => 16,
        TextureFormat::Depth24Plus => 17,
        TextureFormat::Depth24PlusStencil8 => 18,
        TextureFormat::Depth32Float => 19,
        TextureFormat::Bc1RgbaUnorm => 20,
        TextureFormat::Bc7RgbaUnorm => 21,
    };
    assert(all[i] == f);
}

/// The primary adapter is the first discrete GPU; where there is none, the first adapter; where
/// there is no adapter, it is unknown.
pub proof fn law_which_adapter_is_primary(adapters: Seq<AdapterView>, i: int)
    ensures
        0 <= i < adapters.len() && adapters[i].device_type == "DiscreteGpu"@ && (forall|j: int|
            0 <= j < i ==> (#[trigger] adapters[j]).device_type != "DiscreteGpu"@) ==> primary(
            adapters,
        ) == (adapters[i].name, adapters[i].backend),
        adapters.len() > 0 && (forall|j: int|
            0 <= j < adapters.len() ==> (#[trigger] adapters[j]).device_type != "DiscreteGpu"@)
            ==> primary(adapters) == (adapters[0].name, adapters[0].backend),
        adapters.len() == 0 ==> primary(adapters) == ("unknown"@, "none"@),
{
    lemma_first_discrete(adapters);
    let f = first_discrete(adapters);
    if 0 <= i < adapters.len() && adapters[i].device_type == "DiscreteGpu"@ {
        assert(is_discrete(adapters[i]));
    }
    if f < adapters.len() {
        assert(is_discrete(adapters[f]));
    }
}

} // verus!
