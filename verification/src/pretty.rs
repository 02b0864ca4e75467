//! Reports as text for people.
use crate::caps::{limit_pairs, limits_kv, pairs_view, Limits};
use crate::model::{
    adapter_report, adapters_view, option_view, AdapterFacts, AdapterReport, AdapterView,
    GpuReport, ReportView,
};
use crate::number::{decimal, hex, push_decimal, push_hex};
use crate::text::{chars_of, texts};
use vstd::prelude::*;

verus! {

/// The first `n` of `parts` with `separator` between them, behind `s`.
pub open spec fn with_joined(
    s: Seq<char>,
    parts: Seq<Seq<char>>,
    separator: Seq<char>,
    n: nat,
) -> Seq<char>
    decreases n,
{
    if n == 0 {
        s
    } else if n == 1 {
        s + parts[0]
    } else {
        with_joined(s, parts, separator, (n - 1) as nat) + separator + parts[n - 1]
    }
}

/// Appends the texts in `parts` with `separator` between them.
fn push_joined(out: &mut String, parts: &Vec<String>, separator: &str)
    ensures
        final(out)@ == with_joined(old(out)@, texts(parts@), separator@, parts@.len()),
{
    let mut i: usize = 0;
    while i < parts.len()
        invariant
            i <= parts@.len(),
            out@ == with_joined(old(out)@, texts(parts@), separator@, i as nat),
        decreases parts@.len() - i,
    {
        if i > 0 {
            out.append(separator);
        }
        out.append(parts[i].as_str());
        i = i + 1;
    }
}

/// `s` with `k` behind it, filled with blanks to `width` characters.
pub open spec fn with_padded(s: Seq<char>, k: Seq<char>, width: nat) -> Seq<char> {
    s + k + Seq::new((if k.len() < width { width - k.len() } else { 0 }) as nat, |i: int| ' ')
}

/// Appends `k`, filled with blanks to `width` characters.
fn push_padded(out: &mut String, k: &str, width: usize)
    ensures
        final(out)@ == with_padded(old(out)@, k@, width as nat),
{
    let n = chars_of(k).len();
    out.append(k);
    let mut i: usize = n;
    assert(out@ =~= old(out)@ + k@ + Seq::new(0, |i: int| ' '));
    while i < width
        invariant
            n == k@.len(),
            n <= i,
            i <= width || i == n,
            out@ == old(out)@ + k@ + Seq::new((i - n) as nat, |i: int| ' '),
        decreases width - i,
    {
        out.push(' ');
        i = i + 1;
        assert(out@ =~= old(out)@ + k@ + Seq::new((i - n) as nat, |i: int| ' '));
    }
}

/// The text of a truth value.
pub open spec fn bool_text(b: bool) -> Seq<char> {
    if b {
        "true"@
    } else {
        "false"@
    }
}

/// The text of a truth value.
fn bool_str(b: bool) -> (r: &'static str)
    ensures
        r@ == bool_text(b),
{
    if b {
        "true"
    } else {
        "false"
    }
}

/// The low 16 bits of an id in hexadecimal, behind `s`.
pub open spec fn with_id(s: Seq<char>, id: u32) -> Seq<char> {
    s + "0x"@ + hex((id & 0xffff) as nat, 4, false)
}

/// Appends the low 16 bits of an id in hexadecimal.
fn push_id(out: &mut String, id: u32)
    ensures
        final(out)@ == with_id(old(out)@, id),
{
    out.append("0x");
    push_hex(out, id & 0xffff, 4, false);
}

/// The vendor behind `s`: its name, where it is known, and its id.
pub open spec fn with_vendor(s: Seq<char>, name: Option<Seq<char>>, id: u32) -> Seq<char> {
    match name {
        Some(v) => with_id(s + v + " ("@, id) + ")"@,
        None => with_id(s, id),
    }
}

/// Appends the vendor: its name, where it is known, and its id.
fn push_vendor(out: &mut String, name: &Option<String>, id: u32)
    ensures
        final(out)@ == with_vendor(old(out)@, option_view(*name), id),
{
    match name {
        Some(v) => {
            out.append(v.as_str());
            out.append(" (");
            push_id(out, id);
            out.append(")");
        },
        None => push_id(out, id),
    }
}

// ---------------------------------------------------------------------------
// The full report
// ---------------------------------------------------------------------------

/// One line for each of the first `n` limits, behind `s`.
pub open spec fn with_limits(
    s: Seq<char>,
    pairs: Seq<(Seq<char>, Seq<char>)>,
    n: nat,
) -> Seq<char>
    decreases n,
{
    if n == 0 {
        s
    } else {
        with_padded(
            with_limits(s, pairs, (n - 1) as nat) + "        "@,
            pairs[n - 1].0,
            55,
        ) + " "@ + pairs[n - 1].1 + "\n"@
    }
}

/// One line for each of the first `n` features, behind `s`.
pub open spec fn with_features(s: Seq<char>, features: Seq<Seq<char>>, n: nat) -> Seq<char>
    decreases n,
{
    if n == 0 {
        s
    } else {
        with_features(s, features, (n - 1) as nat) + "        "@ + features[n - 1] + "\n"@
    }
}

/// The lines on who adapter number `i` is, behind `s`.
#[verifier::opaque]
pub open spec fn with_identity(s: Seq<char>, i: nat, a: AdapterView) -> Seq<char> {
    let s = s + "\n["@ + decimal(i) + "] "@ + a.name + " ("@ + a.backend + ")\n"@;
    let s = s + "    type        : "@ + a.device_type + "\n"@;
    let s = with_vendor(s + "    vendor      : "@, a.vendor_name, a.vendor) + "\n"@;
    let s = with_id(s + "    device      : "@, a.device) + "\n"@;
    let s = if a.driver.len() > 0 || a.driver_info.len() > 0 {
        s + "    driver      : "@ + a.driver + " "@ + a.driver_info + "\n"@
    } else {
        s
    };
    if a.pci_bus_id.len() > 0 {
        s + "    pci bus id  : "@ + a.pci_bus_id + "\n"@
    } else {
        s
    }
}

/// The lines on what an adapter can do, behind `s`.
#[verifier::opaque]
pub open spec fn with_capabilities(s: Seq<char>, a: AdapterView) -> Seq<char> {
    let s = s + "    subgroup    : "@ + decimal(a.subgroup_min_size as nat) + ".."@ + decimal(
        a.subgroup_max_size as nat,
    ) + "\n"@;
    let s = s + "    downlevel   : shader_model="@ + a.downlevel.shader_model
        + ", webgpu_compliant="@ + bool_text(a.downlevel.is_webgpu_compliant) + "\n"@;
    let pairs = limit_pairs(a.limits);
    let s = with_limits(s + "    limits:\n"@, pairs, pairs.len());
    let s = s + "    features ("@ + decimal(a.features.len()) + "):\n"@;
    if a.features.len() == 0 {
        s + "        (none)\n"@
    } else {
        with_features(s, a.features, a.features.len())
    }
}

/// The first `n` adapters, behind `s`.
pub open spec fn with_adapters(s: Seq<char>, adapters: Seq<AdapterView>, n: nat) -> Seq<char>
    decreases n,
{
    if n == 0 {
        s
    } else {
        with_capabilities(
            with_identity(
                with_adapters(s, adapters, (n - 1) as nat),
                (n - 1) as nat,
                adapters[n - 1],
            ),
            adapters[n - 1],
        )
    }
}

/// A report as text for people.
pub open spec fn pretty(r: ReportView) -> Seq<char> {
    let s = "wgpu-info "@ + r.wgpu_info_version + " (wgpu "@ + r.wgpu_version + ") — backends: "@;
    let s = with_joined(s, r.backends_requested, ", "@, r.backends_requested.len()) + "\n"@;
    if r.adapters.len() == 0 {
        s + "\nNo adapters found.\n"@
    } else {
        with_adapters(s, r.adapters, r.adapters.len())
    }
}

/// Appends one line for each limit.
fn push_limits(out: &mut String, limits: &Limits)
    ensures
        final(out)@ == with_limits(old(out)@, limit_pairs(*limits), limit_pairs(*limits).len()),
{
    let pairs = limits_kv(limits);
    let ghost view = limit_pairs(*limits);
    let mut i: usize = 0;
    assert(pairs_view(pairs@).len() == pairs@.len());
    while i < pairs.len()
        invariant
            i <= pairs@.len(),
            view == pairs_view(pairs@),
            out@ == with_limits(old(out)@, view, i as nat),
        decreases pairs@.len() - i,
    {
        assert(view[i as int] == (pairs@[i as int].0@, pairs@[i as int].1@));
        out.append("        ");
        push_padded(out, pairs[i].0.as_str(), 55);
        out.append(" ");
        out.append(pairs[i].1.as_str());
        out.append("\n");
        i = i + 1;
    }
}

/// Appends one line for each feature.
fn push_features(out: &mut String, features: &Vec<String>)
    ensures
        final(out)@ == with_features(old(out)@, texts(features@), features@.len()),
{
    let mut i: usize = 0;
    while i < features.len()
        invariant
            i <= features@.len(),
            out@ == with_features(old(out)@, texts(features@), i as nat),
        decreases features@.len() - i,
    {
        assert(texts(features@)[i as int] == features@[i as int]@);
        out.append("        ");
        out.append(features[i].as_str());
        out.append("\n");
        i = i + 1;
    }
}

/// Appends the lines on who adapter number `i` is.
fn push_identity(out: &mut String, i: usize, a: &AdapterReport)
    ensures
        final(out)@ == with_identity(old(out)@, i as nat, a@),
{
    proof {
        reveal(with_identity);
    }
    out.append("\n[");
    push_decimal(out, i as u64);
    out.append("] ");
    out.append(a.name.as_str());
    out.append(" (");
    out.append(a.backend.as_str());
    out.append(")\n");
    out.append("    type        : ");
    out.append(a.device_type.as_str());
    out.append("\n");
    out.append("    vendor      : ");
    push_vendor(out, &a.vendor_name, a.vendor);
    out.append("\n");
    out.append("    device      : ");
    push_id(out, a.device);
    out.append("\n");
    if !a.driver.as_str().is_empty() || !a.driver_info.as_str().is_empty() {
        out.append("    driver      : ");
        out.append(a.driver.as_str());
        out.append(" ");
        out.append(a.driver_info.as_str());
        out.append("\n");
    }
    if !a.pci_bus_id.as_str().is_empty() {
        out.append("    pci bus id  : ");
        out.append(a.pci_bus_id.as_str());
        out.append("\n");
    }
}

/// Appends the lines on what an adapter can do.
fn push_capabilities(out: &mut String, a: &AdapterReport)
    ensures
        final(out)@ == with_capabilities(old(out)@, a@),
{
    proof {
        reveal(with_capabilities);
    }
    out.append("    subgroup    : ");
    push_decimal(out, a.subgroup_min_size as u64);
    out.append("..");
    push_decimal(out, a.subgroup_max_size as u64);
    out.append("\n");
    out.append("    downlevel   : shader_model=");
    out.append(a.downlevel.shader_model.as_str());
    out.append(", webgpu_compliant=");
    out.append(bool_str(a.downlevel.is_webgpu_compliant));
    out.append("\n");
    out.append("    limits:\n");
    push_limits(out, &a.limits);
    out.append("    features (");
    push_decimal(out, a.features.len() as u64);
    out.append("):\n");
    if a.features.len() == 0 {
        out.append("        (none)\n");
    } else {
        push_features(out, &a.features);
    }
}

/// Appends the adapters.
fn push_adapters(out: &mut String, adapters: &Vec<AdapterReport>)
    ensures
        final(out)@ == with_adapters(old(out)@, adapters_view(adapters@), adapters@.len()),
{
    let ghost view = adapters_view(adapters@);
    let mut i: usize = 0;
    while i < adapters.len()
        invariant
            i <= adapters@.len(),
            view == adapters_view(adapters@),
            out@ == with_adapters(old(out)@, view, i as nat),
        decreases adapters@.len() - i,
    {
        assert(view[i as int] == adapters@[i as int]@);
        push_identity(out, i, &adapters[i]);
        push_capabilities(out, &adapters[i]);
        i = i + 1;
    }
}

impl GpuReport {
    /// Render a human-readable, multi-adapter capability report.
    #[verifier::spinoff_prover]
    pub fn to_pretty(&self) -> (r: String)
        ensures
            r@ == pretty(self@),
    {
        let mut s = "wgpu-info ".to_owned();
        s.append(self.wgpu_info_version.as_str());
        s.append(" (wgpu ");
        s.append(self.wgpu_version.as_str());
        s.append(") — backends: ");
        push_joined(&mut s, &self.backends_requested, ", ");
        s.append("\n");
        if self.adapters.len() == 0 {
            s.append("\nNo adapters found.\n");
        } else {
            push_adapters(&mut s, &self.adapters);
        }
        s
    }
}

// ---------------------------------------------------------------------------
// The summary
// ---------------------------------------------------------------------------

/// The summary lines on who an adapter is.
pub open spec fn summary_identity(a: AdapterView) -> Seq<char> {
    let s = "GPU: "@ + a.name + "  ["@ + a.backend + ", "@ + a.device_type + "]\n"@;
    let s = with_vendor(s + "  vendor   : "@, a.vendor_name, a.vendor);
    let s = with_id(s + "   device "@, a.device) + "\n"@;
    if a.driver.len() > 0 || a.driver_info.len() > 0 {
        s + "  driver   : "@ + a.driver + " "@ + a.driver_info + "\n"@
    } else {
        s
    }
}

/// The summary lines on shaders and buffers, behind `s`.
pub open spec fn with_shader_summary(s: Seq<char>, a: AdapterView) -> Seq<char> {
    let l = a.limits;
    let s = s + "  shader   : model="@ + a.downlevel.shader_model + "  webgpu_compliant="@
        + bool_text(a.downlevel.is_webgpu_compliant) + "  subgroup="@ + decimal(
        a.subgroup_min_size as nat,
    ) + ".."@ + decimal(a.subgroup_max_size as nat) + "\n"@;
    s + "  buffers  : storage/stage="@ + decimal(l.max_storage_buffers_per_shader_stage as nat)
        + "  uniform/stage="@ + decimal(l.max_uniform_buffers_per_shader_stage as nat)
        + "  max_storage_binding="@ + decimal(l.max_storage_buffer_binding_size as nat)
        + "  max_buffer="@ + decimal(l.max_buffer_size as nat) + "\n"@
}

/// The summary lines on compute work and bindings, behind `s`.
pub open spec fn with_compute_summary(s: Seq<char>, l: Limits) -> Seq<char> {
    let s = s + "  compute  : invocations/wg="@ + decimal(
        l.max_compute_invocations_per_workgroup as nat,
    ) + "  wg_size=["@ + decimal(l.max_compute_workgroup_size_x as nat) + ", "@ + decimal(
        l.max_compute_workgroup_size_y as nat,
    ) + ", "@ + decimal(l.max_compute_workgroup_size_z as nat) + "]  wg/dim="@ + decimal(
        l.max_compute_workgroups_per_dimension as nat,
    ) + "\n"@;
    s + "  binding  : bind_groups="@ + decimal(l.max_bind_groups as nat)
        + "  sampled_textures/stage="@ + decimal(l.max_sampled_textures_per_shader_stage as nat)
        + "  samplers/stage="@ + decimal(l.max_samplers_per_shader_stage as nat)
}

/// The summary of an adapter.
pub open spec fn summary(a: AdapterView) -> Seq<char> {
    with_compute_summary(with_shader_summary(summary_identity(a), a), a.limits)
}

/// Appends a labelled number.
fn push_count(out: &mut String, label: &str, n: u64)
    ensures
        final(out)@ == old(out)@ + label@ + decimal(n as nat),
{
    out.append(label);
    push_decimal(out, n);
}

/// The summary of the adapter that the report is on.
#[must_use]
pub fn report_summary(r: &AdapterReport) -> (s: String)
    ensures
        s@ == summary(r@),
{
    let l = &r.limits;
    let mut s = "GPU: ".to_owned();
    s.append(r.name.as_str());
    s.append("  [");
    s.append(r.backend.as_str());
    s.append(", ");
    s.append(r.device_type.as_str());
    s.append("]\n");
    s.append("  vendor   : ");
    push_vendor(&mut s, &r.vendor_name, r.vendor);
    s.append("   device ");
    push_id(&mut s, r.device);
    s.append("\n");
    if !r.driver.as_str().is_empty() || !r.driver_info.as_str().is_empty() {
        s.append("  driver   : ");
        s.append(r.driver.as_str());
        s.append(" ");
        s.append(r.driver_info.as_str());
        s.append("\n");
    }
    assert(s@ == summary_identity(r@));
    s.append("  shader   : model=");
    s.append(r.downlevel.shader_model.as_str());
    s.append("  webgpu_compliant=");
    s.append(bool_str(r.downlevel.is_webgpu_compliant));
    push_count(&mut s, "  subgroup=", r.subgroup_min_size as u64);
    push_count(&mut s, "..", r.subgroup_max_size as u64);
    s.append("\n");
    push_count(
        &mut s,
        "  buffers  : storage/stage=",
        l.max_storage_buffers_per_shader_stage as u64,
    );
    push_count(&mut s, "  uniform/stage=", l.max_uniform_buffers_per_shader_stage as u64);
    push_count(&mut s, "  max_storage_binding=", l.max_storage_buffer_binding_size);
    push_count(&mut s, "  max_buffer=", l.max_buffer_size);
    s.append("\n");
    assert(s@ == with_shader_summary(summary_identity(r@), r@));
    push_count(
        &mut s,
        "  compute  : invocations/wg=",
        l.max_compute_invocations_per_workgroup as u64,
    );
    push_count(&mut s, "  wg_size=[", l.max_compute_workgroup_size_x as u64);
    push_count(&mut s, ", ", l.max_compute_workgroup_size_y as u64);
    push_count(&mut s, ", ", l.max_compute_workgroup_size_z as u64);
    push_count(&mut s, "]  wg/dim=", l.max_compute_workgroups_per_dimension as u64);
    s.append("\n");
    push_count(&mut s, "  binding  : bind_groups=", l.max_bind_groups as u64);
    push_count(
        &mut s,
        "  sampled_textures/stage=",
        l.max_sampled_textures_per_shader_stage as u64,
    );
    push_count(&mut s, "  samplers/stage=", l.max_samplers_per_shader_stage as u64);
    s
}

/// A compact, multi-line summary of a chosen adapter for startup logging.
#[must_use]
pub fn adapter_summary(adapter: &AdapterFacts) -> (s: String)
    ensures
        s@ == summary(adapter_report(*adapter)),
{
    report_summary(&AdapterReport::from_adapter(adapter))
}

// ---------------------------------------------------------------------------
// Laws
// ---------------------------------------------------------------------------

proof fn lemma_grouping(a: Seq<char>, b: Seq<char>, c: Seq<char>)
    ensures
        (a + b) + c == a + (b + c),
{
    assert((a + b) + c =~= a + (b + c));
}

proof fn lemma_line_of_3(
    s: Seq<char>,
    a: Seq<char>,
    b: Seq<char>,
    c: Seq<char>,
)
    ensures
        s + a + b + c == s + (a + b + c),
{
    lemma_grouping(s, a, b);
    lemma_grouping(s, a + b, c);
}

proof fn lemma_line_of_4(
    s: Seq<char>,
    a: Seq<char>,
    b: Seq<char>,
    c: Seq<char>,
    d: Seq<char>,
)
    ensures
        s + a + b + c + d == s + (a + b + c + d),
{
    lemma_line_of_3(s, a, b, c);
    lemma_grouping(s, a + b + c, d);
}

proof fn lemma_line_of_5(
    s: Seq<char>,
    a: Seq<char>,
    b: Seq<char>,
    c: Seq<char>,
    d: Seq<char>,
    e: Seq<char>,
)
    ensures
        s + a + b + c + d + e == s + (a + b + c + d + e),
{
    lemma_line_of_4(s, a, b, c, d);
    lemma_grouping(s, a + b + c + d, e);
}

proof fn lemma_line_of_6(
    s: Seq<char>,
    a: Seq<char>,
    b: Seq<char>,
    c: Seq<char>,
    d: Seq<char>,
    e: Seq<char>,
    f: Seq<char>,
)
    ensures
        s + a + b + c + d + e + f == s + (a + b + c + d + e + f),
{
    lemma_line_of_5(s, a, b, c, d, e);
    lemma_grouping(s, a + b + c + d + e, f);
}

proof fn lemma_line_of_7(
    s: Seq<char>,
    a: Seq<char>,
    b: Seq<char>,
    c: Seq<char>,
    d: Seq<char>,
    e: Seq<char>,
    f: Seq<char>,
    g: Seq<char>,
)
    ensures
        s + a + b + c + d + e + f + g == s + (a + b + c + d + e + f + g),
{
    lemma_line_of_6(s, a, b, c, d, e, f);
    lemma_grouping(s, a + b + c + d + e + f, g);
}

proof fn lemma_limits_behind(s: Seq<char>, pairs: Seq<(Seq<char>, Seq<char>)>, n: nat)
    ensures
        with_limits(s, pairs, n) == s + with_limits(seq![], pairs, n),
    decreases n,
{
    if n == 0 {
        assert(s + Seq::<char>::empty() =~= s);
    } else {
        lemma_limits_behind(s, pairs, (n - 1) as nat);
        let before = with_limits(seq![], pairs, (n - 1) as nat);
        let name = pairs[n - 1].0;
        let blanks = with_padded(seq![], name, 55).skip(name.len() as int);
        assert forall|t: Seq<char>| #[trigger] with_padded(t, name, 55) == t + name + blanks by {
            assert(with_padded(t, name, 55) =~= t + name + blanks);
        }
        lemma_line_of_7(s, before, "        "@, name, blanks, " "@, pairs[n - 1].1, "\n"@);
    }
}

proof fn lemma_features_behind(s: Seq<char>, features: Seq<Seq<char>>, n: nat)
    ensures
        with_features(s, features, n) == s + with_features(seq![], features, n),
    decreases n,
{
    if n == 0 {
        assert(s + Seq::<char>::empty() =~= s);
    } else {
        lemma_features_behind(s, features, (n - 1) as nat);
        let before = with_features(seq![], features, (n - 1) as nat);
        lemma_line_of_4(s, before, "        "@, features[n - 1], "\n"@);
    }
}

/// A joined list with one part more is the list, the separator and that part; a list of one part is
/// the part alone, and one without parts is nothing.
pub proof fn law_joined(
    s: Seq<char>,
    parts: Seq<Seq<char>>,
    separator: Seq<char>,
    more: Seq<char>,
)
    ensures
        with_joined(s, seq![], separator, 0) == s,
        with_joined(s, seq![more], separator, 1) == s + more,
        parts.len() > 0 ==> with_joined(s, parts.push(more), separator, parts.len() + 1)
            == with_joined(s, parts, separator, parts.len()) + separator + more,
{
    lemma_joined_before(s, parts, separator, more, parts.len());
}

proof fn lemma_joined_before(
    s: Seq<char>,
    parts: Seq<Seq<char>>,
    separator: Seq<char>,
    more: Seq<char>,
    n: nat,
)
    requires
        n <= parts.len(),
    ensures
        with_joined(s, parts.push(more), separator, n) == with_joined(s, parts, separator, n),
    decreases n,
{
    if n > 0 {
        lemma_joined_before(s, parts, separator, more, (n - 1) as nat);
    }
}

/// A padded text is the text and blanks up to the width; a wider one is left as it is.
pub proof fn law_padded(s: Seq<char>, k: Seq<char>, width: nat)
    ensures
        k.len() >= width ==> with_padded(s, k, width) == s + k,
        k.len() < width ==> with_padded(s, k, width).len() == s.len() + width,
        with_padded(s, k, width).take((s.len() + k.len()) as int) == s + k,
        forall|i: int|
            s.len() + k.len() <= i < with_padded(s, k, width).len() ==> (#[trigger] with_padded(
                s,
                k,
                width,
            )[i]) == ' ',
{
    let t = with_padded(s, k, width);
    assert(t.take((s.len() + k.len()) as int) =~= s + k);
    if k.len() >= width {
        assert(t =~= s + k);
    }
}

/// An adapter's lines on who it is: number, name and backend; its type; its vendor by name and id,
/// or by id where the name is not known; its device id; its driver, where one is told; and its
/// place on the bus, where that is told.
pub proof fn law_identity_lines(s: Seq<char>, i: nat, a: AdapterView)
    ensures
        ({
            let heading = "\n["@ + decimal(i) + "] "@ + a.name + " ("@ + a.backend + ")\n"@;
            let kind = "    type        : "@ + a.device_type + "\n"@;
            let vendor_id = hex((a.vendor & 0xffff) as nat, 4, false);
            let vendor = match a.vendor_name {
                Some(v) => "    vendor      : "@ + v + " ("@ + "0x"@ + vendor_id + ")"@ + "\n"@,
                None => "    vendor      : "@ + "0x"@ + vendor_id + "\n"@,
            };
            let device = "    device      : "@ + "0x"@ + hex((a.device & 0xffff) as nat, 4, false)
                + "\n"@;
            let driver = if a.driver.len() == 0 && a.driver_info.len() == 0 {
                seq![]
            } else {
                "    driver      : "@ + a.driver + " "@ + a.driver_info + "\n"@
            };
            let bus = if a.pci_bus_id.len() == 0 {
                seq![]
            } else {
                "    pci bus id  : "@ + a.pci_bus_id + "\n"@
            };
            with_identity(s, i, a) == s + (heading + kind + vendor + device + driver + bus)
        }),
{
    reveal(with_identity);
    let heading = "\n["@ + decimal(i) + "] "@ + a.name + " ("@ + a.backend + ")\n"@;
    let kind = "    type        : "@ + a.device_type + "\n"@;
    let vendor_id = hex((a.vendor & 0xffff) as nat, 4, false);
    let vendor = match a.vendor_name {
        Some(v) => "    vendor      : "@ + v + " ("@ + "0x"@ + vendor_id + ")"@ + "\n"@,
        None => "    vendor      : "@ + "0x"@ + vendor_id + "\n"@,
    };
    let device_id = hex((a.device & 0xffff) as nat, 4, false);
    let device = "    device      : "@ + "0x"@ + device_id + "\n"@;
    let driver = if a.driver.len() == 0 && a.driver_info.len() == 0 {
        seq![]
    } else {
        "    driver      : "@ + a.driver + " "@ + a.driver_info + "\n"@
    };
    let bus = if a.pci_bus_id.len() == 0 {
        seq![]
    } else {
        "    pci bus id  : "@ + a.pci_bus_id + "\n"@
    };
    lemma_line_of_7(s, "\n["@, decimal(i), "] "@, a.name, " ("@, a.backend, ")\n"@);
    let t = s + heading;
    lemma_line_of_3(t, "    type        : "@, a.device_type, "\n"@);
    let t = t + kind;
    match a.vendor_name {
        Some(v) => {
            lemma_line_of_7(t, "    vendor      : "@, v, " ("@, "0x"@, vendor_id, ")"@, "\n"@);
        },
        None => {
            lemma_line_of_4(t, "    vendor      : "@, "0x"@, vendor_id, "\n"@);
        },
    }
    let t = t + vendor;
    lemma_line_of_4(t, "    device      : "@, "0x"@, device_id, "\n"@);
    let t = t + device;
    lemma_line_of_5(t, "    driver      : "@, a.driver, " "@, a.driver_info, "\n"@);
    assert(t + Seq::<char>::empty() =~= t);
    let t = t + driver;
    lemma_line_of_3(t, "    pci bus id  : "@, a.pci_bus_id, "\n"@);
    assert(t + Seq::<char>::empty() =~= t);
    lemma_line_of_6(s, heading, kind, vendor, device, driver, bus);
}

/// An adapter's lines on what it can do: the sizes of its subgroups, its shader model and whether
/// it is WebGPU compliant, one line for each limit, the number of its features, and one line for
/// each feature, or `(none)`.
pub proof fn law_capability_lines(s: Seq<char>, a: AdapterView)
    ensures
        ({
            let subgroup = "    subgroup    : "@ + decimal(a.subgroup_min_size as nat) + ".."@
                + decimal(a.subgroup_max_size as nat) + "\n"@;
            let downlevel = "    downlevel   : shader_model="@ + a.downlevel.shader_model
                + ", webgpu_compliant="@ + (if a.downlevel.is_webgpu_compliant {
                "true"@
            } else {
                "false"@
            }) + "\n"@;
            let limits = with_limits(
                seq![],
                limit_pairs(a.limits),
                limit_pairs(a.limits).len(),
            );
            let count = "    features ("@ + decimal(a.features.len()) + "):\n"@;
            let features = if a.features.len() == 0 {
                "        (none)\n"@
            } else {
                with_features(seq![], a.features, a.features.len())
            };
            with_capabilities(s, a) == s + (subgroup + downlevel + "    limits:\n"@ + limits
                + count + features)
        }),
{
    reveal(with_capabilities);
    let pairs = limit_pairs(a.limits);
    let min = decimal(a.subgroup_min_size as nat);
    let max = decimal(a.subgroup_max_size as nat);
    let subgroup = "    subgroup    : "@ + min + ".."@ + max + "\n"@;
    let compliant = bool_text(a.downlevel.is_webgpu_compliant);
    let downlevel = "    downlevel   : shader_model="@ + a.downlevel.shader_model
        + ", webgpu_compliant="@ + compliant + "\n"@;
    let limits = with_limits(seq![], pairs, pairs.len());
    let count = "    features ("@ + decimal(a.features.len()) + "):\n"@;
    let features = if a.features.len() == 0 {
        "        (none)\n"@
    } else {
        with_features(seq![], a.features, a.features.len())
    };
    lemma_line_of_5(s, "    subgroup    : "@, min, ".."@, max, "\n"@);
    let t = s + subgroup;
    lemma_line_of_5(
        t,
        "    downlevel   : shader_model="@,
        a.downlevel.shader_model,
        ", webgpu_compliant="@,
        compliant,
        "\n"@,
    );
    let t = t + downlevel + "    limits:\n"@;
    lemma_limits_behind(t, pairs, pairs.len());
    let t = t + limits;
    lemma_line_of_3(t, "    features ("@, decimal(a.features.len()), "):\n"@);
    let t = t + count;
    lemma_features_behind(t, a.features, a.features.len());
    lemma_line_of_6(s, subgroup, downlevel, "    limits:\n"@, limits, count, features);
}

/// Each limit has a line of its own: its name, filled up to 55 characters, and its value.
pub proof fn law_limit_lines(
    s: Seq<char>,
    pairs: Seq<(Seq<char>, Seq<char>)>,
    name: Seq<char>,
    value: Seq<char>,
)
    ensures
        with_limits(s, seq![], 0) == s,
        with_limits(s, pairs.push((name, value)), pairs.len() + 1) == with_limits(
            s,
            pairs,
            pairs.len(),
        ) + "        "@ + name + Seq::new(
            (if name.len() < 55 {
                55 - name.len()
            } else {
                0
            }) as nat,
            |i: int| ' ',
        ) + " "@ + value + "\n"@,
{
    lemma_limits_before(s, pairs, (name, value), pairs.len());
    let before = with_limits(s, pairs, pairs.len()) + "        "@;
    assert(with_padded(before, name, 55) =~= before + name + Seq::new(
        (if name.len() < 55 {
            55 - name.len()
        } else {
            0
        }) as nat,
        |i: int| ' ',
    ));
}

proof fn lemma_limits_before(
    s: Seq<char>,
    pairs: Seq<(Seq<char>, Seq<char>)>,
    more: (Seq<char>, Seq<char>),
    n: nat,
)
    requires
        n <= pairs.len(),
    ensures
        with_limits(s, pairs.push(more), n) == with_limits(s, pairs, n),
    decreases n,
{
    if n > 0 {
        lemma_limits_before(s, pairs, more, (n - 1) as nat);
    }
}

/// Each feature has a line of its own.
pub proof fn law_feature_lines(s: Seq<char>, features: Seq<Seq<char>>, more: Seq<char>)
    ensures
        with_features(s, seq![], 0) == s,
        with_features(s, features.push(more), features.len() + 1) == with_features(
            s,
            features,
            features.len(),
        ) + "        "@ + more + "\n"@,
{
    lemma_features_before(s, features, more, features.len());
}

proof fn lemma_features_before(s: Seq<char>, features: Seq<Seq<char>>, more: Seq<char>, n: nat)
    requires
        n <= features.len(),
    ensures
        with_features(s, features.push(more), n) == with_features(s, features, n),
    decreases n,
{
    if n > 0 {
        lemma_features_before(s, features, more, (n - 1) as nat);
    }
}

proof fn lemma_adapters_before(
    s: Seq<char>,
    adapters: Seq<AdapterView>,
    others: Seq<AdapterView>,
    n: nat,
)
    requires
        n <= adapters.len(),
        n <= others.len(),
        forall|i: int| 0 <= i < n ==> adapters[i] == others[i],
    ensures
        with_adapters(s, adapters, n) == with_adapters(s, others, n),
    decreases n,
{
    if n > 0 {
        lemma_adapters_before(s, adapters, others, (n - 1) as nat);
    }
}

/// The text of a report with one adapter more is the text of the report, followed by a section that
/// begins with that adapter's index, name and backend and goes on with its other lines.
pub proof fn law_one_more_adapter(r: ReportView, a: AdapterView)
    requires
        r.adapters.len() > 0,
    ensures
        ({
            let n = r.adapters.len();
            let more = pretty(ReportView { adapters: r.adapters.push(a), ..r });
            let heading = "\n["@ + decimal(n) + "] "@ + a.name + " ("@ + a.backend + ")\n"@;
            let section = with_capabilities(with_identity(seq![], n, a), a);
            &&& more == pretty(r) + section
            &&& section.len() > heading.len()
            &&& section.take(heading.len() as int) == heading
        }),
{
    let n = r.adapters.len();
    let all = r.adapters.push(a);
    let s = "wgpu-info "@ + r.wgpu_info_version + " (wgpu "@ + r.wgpu_version + ") — backends: "@;
    let s = with_joined(s, r.backends_requested, ", "@, r.backends_requested.len()) + "\n"@;
    lemma_adapters_before(s, all, r.adapters, n);
    assert(all[n as int] == a);
    let before = with_adapters(s, r.adapters, n);
    assert(with_adapters(s, all, n + 1) == with_capabilities(with_identity(before, n, a), a));
    lemma_section(before, n, a);
}

proof fn lemma_section(before: Seq<char>, n: nat, a: AdapterView)
    ensures
        ({
            let heading = "\n["@ + decimal(n) + "] "@ + a.name + " ("@ + a.backend + ")\n"@;
            let section = with_capabilities(with_identity(seq![], n, a), a);
            &&& with_capabilities(with_identity(before, n, a), a) == before + section
            &&& section.len() > heading.len()
            &&& section.take(heading.len() as int) == heading
        }),
{
    let none = Seq::<char>::empty();
    let heading = "\n["@ + decimal(n) + "] "@ + a.name + " ("@ + a.backend + ")\n"@;
    let identity = with_identity(none, n, a);
    let section = with_capabilities(identity, a);
    law_identity_lines(before, n, a);
    law_identity_lines(none, n, a);
    assert forall|t: Seq<char>| #[trigger] (none + t) == t by {
        assert(none + t =~= t);
    }
    assert(with_identity(before, n, a) == before + identity);
    law_capability_lines(before + identity, a);
    law_capability_lines(identity, a);
    law_capability_lines(none, a);
    let able = with_capabilities(none, a);
    assert(section == identity + able);
    lemma_grouping(before, identity, able);
    lemma_identity_begins(n, a);
    assert(section.take(heading.len() as int) =~= identity.take(heading.len() as int));
}

proof fn lemma_identity_begins(n: nat, a: AdapterView)
    ensures
        ({
            let heading = "\n["@ + decimal(n) + "] "@ + a.name + " ("@ + a.backend + ")\n"@;
            let identity = with_identity(seq![], n, a);
            identity.len() > heading.len() && identity.take(heading.len() as int) == heading
        }),
{
    let none = Seq::<char>::empty();
    let heading = "\n["@ + decimal(n) + "] "@ + a.name + " ("@ + a.backend + ")\n"@;
    let identity = with_identity(none, n, a);
    law_identity_lines(none, n, a);
    let kind = "    type        : "@ + a.device_type + "\n"@;
    let vendor_id = hex((a.vendor & 0xffff) as nat, 4, false);
    let vendor = match a.vendor_name {
        Some(v) => "    vendor      : "@ + v + " ("@ + "0x"@ + vendor_id + ")"@ + "\n"@,
        None => "    vendor      : "@ + "0x"@ + vendor_id + "\n"@,
    };
    let device = "    device      : "@ + "0x"@ + hex((a.device & 0xffff) as nat, 4, false)
        + "\n"@;
    let driver = if a.driver.len() == 0 && a.driver_info.len() == 0 {
        seq![]
    } else {
        "    driver      : "@ + a.driver + " "@ + a.driver_info + "\n"@
    };
    let bus = if a.pci_bus_id.len() == 0 {
        seq![]
    } else {
        "    pci bus id  : "@ + a.pci_bus_id + "\n"@
    };
    reveal_strlit("\n");
    lemma_line_of_5(heading, kind, vendor, device, driver, bus);
    let rest = kind + vendor + device + driver + bus;
    assert(rest.len() > 0);
    assert(identity =~= heading + rest);
    assert(identity.take(heading.len() as int) =~= heading);
}

/// Every adapter has its section, in order: behind the text of a report with the adapters in front
/// of it, or behind the first line where it is the first, stand its index, name and backend.
pub proof fn law_every_adapter_has_its_section(r: ReportView, i: nat)
    requires
        i < r.adapters.len(),
    ensures
        ({
            let a = r.adapters[i as int];
            let line = "wgpu-info "@ + r.wgpu_info_version + " (wgpu "@ + r.wgpu_version
                + ") — backends: "@;
            let line = with_joined(line, r.backends_requested, ", "@, r.backends_requested.len())
                + "\n"@;
            let before = if i == 0 {
                line
            } else {
                pretty(ReportView { adapters: r.adapters.take(i as int), ..r })
            };
            let heading = "\n["@ + decimal(i) + "] "@ + a.name + " ("@ + a.backend + ")\n"@;
            &&& pretty(r).len() > before.len() + heading.len()
            &&& pretty(r).take(before.len() as int) == before
            &&& pretty(r).subrange(before.len() as int, (before.len() + heading.len()) as int)
                == heading
        }),
    decreases r.adapters.len(),
{
    let a = r.adapters[i as int];
    let line = "wgpu-info "@ + r.wgpu_info_version + " (wgpu "@ + r.wgpu_version + ") — backends: "@;
    let line = with_joined(line, r.backends_requested, ", "@, r.backends_requested.len()) + "\n"@;
    let front = r.adapters.take(i as int);
    let before = if i == 0 {
        line
    } else {
        pretty(ReportView { adapters: front, ..r })
    };
    let heading = "\n["@ + decimal(i) + "] "@ + a.name + " ("@ + a.backend + ")\n"@;
    if i + 1 == r.adapters.len() {
        let section = with_capabilities(with_identity(seq![], i, a), a);
        lemma_adapters_before(line, r.adapters, front, i);
        assert(before == with_adapters(line, front, i));
        assert(with_adapters(line, r.adapters, i + 1) == with_capabilities(
            with_identity(before, i, a),
            a,
        ));
        lemma_section(before, i, a);
        assert(pretty(r) == before + section);
        assert((before + section).take(before.len() as int) =~= before);
        assert((before + section).subrange(
            before.len() as int,
            (before.len() + heading.len()) as int,
        ) =~= section.take(heading.len() as int));
    } else {
        let fewer = ReportView { adapters: r.adapters.drop_last(), ..r };
        law_every_adapter_has_its_section(fewer, i);
        assert(fewer.adapters.take(i as int) =~= front);
        law_one_more_adapter(fewer, r.adapters.last());
        assert(fewer.adapters.push(r.adapters.last()) =~= r.adapters);
        assert(pretty(r).take(before.len() as int) =~= pretty(fewer).take(before.len() as int));
        assert(pretty(r).subrange(before.len() as int, (before.len() + heading.len()) as int)
            =~= pretty(fewer).subrange(
            before.len() as int,
            (before.len() + heading.len()) as int,
        ));
    }
}

/// The text of a report with a single adapter is the first line and the adapter's section; without
/// adapters the text says so.
pub proof fn law_few_adapters(r: ReportView)
    ensures
        ({
            let line = "wgpu-info "@ + r.wgpu_info_version + " (wgpu "@ + r.wgpu_version
                + ") — backends: "@;
            let line = with_joined(line, r.backends_requested, ", "@, r.backends_requested.len())
                + "\n"@;
            &&& r.adapters.len() == 0 ==> pretty(r) == line + "\nNo adapters found.\n"@
            &&& r.adapters.len() == 1 ==> pretty(r) == line + with_capabilities(
                with_identity(seq![], 0, r.adapters[0]),
                r.adapters[0],
            )
        }),
{
    let line = "wgpu-info "@ + r.wgpu_info_version + " (wgpu "@ + r.wgpu_version + ") — backends: "@;
    let line = with_joined(line, r.backends_requested, ", "@, r.backends_requested.len()) + "\n"@;
    if r.adapters.len() == 1 {
        lemma_section(line, 0, r.adapters[0]);
        assert(with_adapters(line, r.adapters, 0) == line);
        assert(with_adapters(line, r.adapters, 1) == with_capabilities(
            with_identity(line, 0, r.adapters[0]),
            r.adapters[0],
        ));
    }
}

/// The summary's lines: name, backend and type; vendor and device; the driver, where one is told;
/// the shader model; the limits on buffers, on compute work and on bindings.
pub proof fn law_summary_lines(a: AdapterView)
    ensures
        ({
            let l = a.limits;
            let s = "GPU: "@ + a.name + "  ["@ + a.backend + ", "@ + a.device_type + "]\n"@;
            let s = match a.vendor_name {
                Some(v) => s + "  vendor   : "@ + v + " ("@ + "0x"@ + hex(
                    (a.vendor & 0xffff) as nat,
                    4,
                    false,
                ) + ")"@,
                None => s + "  vendor   : "@ + "0x"@ + hex((a.vendor & 0xffff) as nat, 4, false),
            };
            let s = s + "   device "@ + "0x"@ + hex((a.device & 0xffff) as nat, 4, false) + "\n"@;
            let s = if a.driver.len() == 0 && a.driver_info.len() == 0 {
                s
            } else {
                s + "  driver   : "@ + a.driver + " "@ + a.driver_info + "\n"@
            };
            let s = s + "  shader   : model="@ + a.downlevel.shader_model
                + "  webgpu_compliant="@ + (if a.downlevel.is_webgpu_compliant {
                "true"@
            } else {
                "false"@
            }) + "  subgroup="@ + decimal(a.subgroup_min_size as nat) + ".."@ + decimal(
                a.subgroup_max_size as nat,
            ) + "\n"@;
            let s = s + "  buffers  : storage/stage="@ + decimal(
                l.max_storage_buffers_per_shader_stage as nat,
            ) + "  uniform/stage="@ + decimal(l.max_uniform_buffers_per_shader_stage as nat)
                + "  max_storage_binding="@ + decimal(l.max_storage_buffer_binding_size as nat)
                + "  max_buffer="@ + decimal(l.max_buffer_size as nat) + "\n"@;
            let s = s + "  compute  : invocations/wg="@ + decimal(
                l.max_compute_invocations_per_workgroup as nat,
            ) + "  wg_size=["@ + decimal(l.max_compute_workgroup_size_x as nat) + ", "@ + decimal(
                l.max_compute_workgroup_size_y as nat,
            ) + ", "@ + decimal(l.max_compute_workgroup_size_z as nat) + "]  wg/dim="@ + decimal(
                l.max_compute_workgroups_per_dimension as nat,
            ) + "\n"@;
            summary(a) == s + "  binding  : bind_groups="@ + decimal(l.max_bind_groups as nat)
                + "  sampled_textures/stage="@ + decimal(
                l.max_sampled_textures_per_shader_stage as nat,
            ) + "  samplers/stage="@ + decimal(l.max_samplers_per_shader_stage as nat)
        }),
{
}

} // verus!
