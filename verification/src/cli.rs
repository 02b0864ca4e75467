//! What the command line tool decides: which backends to ask, which adapters to show, and what a
//! comparison says.
use crate::flags::{
    backend_labels, law_requested_backends, ALL_BACKENDS, DX12, GL, METAL, PRIMARY, VULKAN,
};
use crate::model::{backend_label, Backend, GpuReport, ReportView};
use crate::number::{decimal, push_decimal};
use crate::text::{lower, lowered, same_text, texts};
use vstd::prelude::*;

verus! {

/// The backend bits that a name, in small letters, stands for.
pub open spec fn named_backends(name: Seq<char>) -> Option<u32> {
    if name == "all"@ {
        Some(ALL_BACKENDS)
    } else if name == "primary"@ {
        Some(PRIMARY)
    } else if name == "vulkan"@ || name == "vk"@ {
        Some(VULKAN)
    } else if name == "dx12"@ || name == "d3d12"@ {
        Some(DX12)
    } else if name == "metal"@ || name == "mtl"@ {
        Some(METAL)
    } else if name == "gl"@ || name == "opengl"@ || name == "gles"@ {
        Some(GL)
    } else {
        None
    }
}

/// The complaint about a name that stands for no backend.
pub open spec fn unknown_backend(name: Seq<char>) -> Seq<char> {
    "unknown backend '"@ + name + "' (use vulkan|dx12|metal|gl|primary|all)"@
}

/// The backend bits that `name` stands for, whatever its case.
pub fn parse_backends(name: &str) -> (r: Result<u32, String>)
    ensures
        match r {
            Ok(bits) => named_backends(lowered(name@)) == Some(bits),
            Err(e) => named_backends(lowered(name@)) is None && e@ == unknown_backend(
                lowered(name@),
            ),
        },
{
    let name = lower(name);
    let n = name.as_str();
    if same_text(n, "all") {
        Ok(ALL_BACKENDS)
    } else if same_text(n, "primary") {
        Ok(PRIMARY)
    } else if same_text(n, "vulkan") || same_text(n, "vk") {
        Ok(VULKAN)
    } else if same_text(n, "dx12") || same_text(n, "d3d12") {
        Ok(DX12)
    } else if same_text(n, "metal") || same_text(n, "mtl") {
        Ok(METAL)
    } else if same_text(n, "gl") || same_text(n, "opengl") || same_text(n, "gles") {
        Ok(GL)
    } else {
        let mut e = "unknown backend '".to_owned();
        e.append(n);
        e.append("' (use vulkan|dx12|metal|gl|primary|all)");
        Err(e)
    }
}

/// The complaint about an adapter index that is too large.
pub open spec fn index_out_of_range(idx: nat, found: nat) -> Seq<char> {
    "adapter index "@ + decimal(idx) + " out of range ("@ + decimal(found) + " adapters found)"@
}

/// A report with only the adapter at index `idx`.
pub open spec fn with_only(r: ReportView, idx: int) -> ReportView {
    ReportView { adapters: seq![r.adapters[idx]], ..r }
}

/// Keeps only the adapter at index `idx` in the report.
pub fn select_adapter(report: GpuReport, idx: usize) -> (r: Result<GpuReport, String>)
    ensures
        match r {
            Ok(kept) => idx < report@.adapters.len() && kept@ == with_only(report@, idx as int),
            Err(e) => idx >= report@.adapters.len() && e@ == index_out_of_range(
                idx as nat,
                report@.adapters.len(),
            ),
        },
{
    let mut report = report;
    let ghost before = report@;
    if idx >= report.adapters.len() {
        let mut e = "adapter index ".to_owned();
        push_decimal(&mut e, idx as u64);
        e.append(" out of range (");
        push_decimal(&mut e, report.adapters.len() as u64);
        e.append(" adapters found)");
        return Err(e);
    }
    let a = report.adapters.swap_remove(idx);
    assert(a@ == before.adapters[idx as int]);
    report.adapters = vec![a];
    assert(report@.adapters =~= with_only(before, idx as int).adapters);
    Ok(report)
}

/// What the tool prints of a comparison, and whether it succeeds.
pub struct Comparison {
    /// The text to print.
    pub text: String,
    /// Nothing differs. Where something does the tool fails, so that a comparison can gate a
    /// build.
    pub same: bool,
}

/// One indented line for each of the first `n` differences, behind `s`.
pub open spec fn with_differences(s: Seq<char>, diffs: Seq<Seq<char>>, n: nat) -> Seq<char>
    decreases n,
{
    if n == 0 {
        s
    } else {
        with_differences(s, diffs, (n - 1) as nat) + "  "@ + diffs[n - 1] + "\n"@
    }
}

/// What the tool prints of the differences `diffs` from the report saved at `path`.
pub open spec fn comparison_text(diffs: Seq<Seq<char>>, path: Seq<char>) -> Seq<char> {
    if diffs.len() == 0 {
        "no differences\n"@
    } else {
        with_differences(
            decimal(diffs.len()) + " difference(s) vs "@ + path + ":\n"@,
            diffs,
            diffs.len(),
        )
    }
}

/// What the tool says of the differences `diffs` from the report saved at `path`.
pub fn comparison(diffs: &Vec<String>, path: &str) -> (r: Comparison)
    ensures
        r.text@ == comparison_text(texts(diffs@), path@),
        r.same == (diffs@.len() == 0),
{
    if diffs.len() == 0 {
        return Comparison { text: "no differences\n".to_owned(), same: true };
    }
    let mut s = String::new();
    push_decimal(&mut s, diffs.len() as u64);
    assert(s@ =~= decimal(diffs@.len()));
    s.append(" difference(s) vs ");
    s.append(path);
    s.append(":\n");
    let ghost start = s@;
    let mut i: usize = 0;
    while i < diffs.len()
        invariant
            i <= diffs@.len(),
            s@ == with_differences(start, texts(diffs@), i as nat),
        decreases diffs@.len() - i,
    {
        assert(texts(diffs@)[i as int] == diffs@[i as int]@);
        s.append("  ");
        s.append(diffs[i].as_str());
        s.append("\n");
        i = i + 1;
    }
    Comparison { text: s, same: false }
}

/// Compares a report with the one saved at `path`: the tool succeeds when, and only when, they
/// say the same.
pub fn compare_with(baseline: &GpuReport, path: &str, report: &GpuReport) -> (r: Comparison)
    ensures
        r.text@ == comparison_text(
            crate::diff::diff_lines(Seq::empty(), baseline@.json(), report@.json()),
            path@,
        ),
        r.same == (baseline@ == report@),
{
    let diffs = baseline.diff(report);
    comparison(&diffs, path)
}

/// What the tool prints.
pub enum Output {
    /// A comparison with a saved report.
    Compared(Comparison),
    /// The report as JSON.
    Json,
    /// The report as text for people.
    Text(String),
}

/// What the tool prints of a report: the comparison where a saved report is given, together with
/// the path it was saved at; else JSON where asked for; else text.
pub fn output(report: &GpuReport, baseline: Option<(&GpuReport, &str)>, json: bool) -> (r: Output)
    ensures
        match baseline {
            Some((saved, path)) => r matches Output::Compared(c) && c.same == (saved@ == report@)
                && c.text@ == comparison_text(
                crate::diff::diff_lines(Seq::empty(), saved@.json(), report@.json()),
                path@,
            ),
            None => if json {
                r is Json
            } else {
                r matches Output::Text(t) && t@ == crate::pretty::pretty(report@)
            },
        },
{
    match baseline {
        Some((saved, path)) => Output::Compared(compare_with(saved, path, report)),
        None => if json {
            Output::Json
        } else {
            Output::Text(report.to_pretty())
        },
    }
}

// ---------------------------------------------------------------------------
// Laws
// ---------------------------------------------------------------------------

/// Which bits each name stands for; a name that is none of these stands for no backend.
pub proof fn law_backend_names(name: Seq<char>)
    ensures
        name == "all"@ ==> named_backends(name) == Some(0x3fu32),
        name == "primary"@ ==> named_backends(name) == Some(0x2eu32),
        name == "vulkan"@ || name == "vk"@ ==> named_backends(name) == Some(0x2u32),
        name == "dx12"@ || name == "d3d12"@ ==> named_backends(name) == Some(0x8u32),
        name == "metal"@ || name == "mtl"@ ==> named_backends(name) == Some(0x4u32),
        name == "gl"@ || name == "opengl"@ || name == "gles"@ ==> named_backends(name) == Some(
            0x10u32,
        ),
        named_backends(name) is Some ==> name == "all"@ || name == "primary"@ || name == "vulkan"@
            || name == "vk"@ || name == "dx12"@ || name == "d3d12"@ || name == "metal"@ || name
            == "mtl"@ || name == "gl"@ || name == "opengl"@ || name == "gles"@,
{
    reveal_strlit("all");
    reveal_strlit("primary");
    reveal_strlit("vulkan");
    reveal_strlit("vk");
    reveal_strlit("dx12");
    reveal_strlit("d3d12");
    reveal_strlit("metal");
    reveal_strlit("mtl");
    reveal_strlit("gl");
    reveal_strlit("opengl");
    reveal_strlit("gles");
    assert("all"@[0] == 'a' && "all"@[1] == 'l');
    assert("primary"@[0] == 'p' && "primary"@[1] == 'r');
    assert("vulkan"@[0] == 'v' && "vulkan"@[1] == 'u');
    assert("vk"@[0] == 'v' && "vk"@[1] == 'k');
    assert("dx12"@[0] == 'd' && "dx12"@[1] == 'x');
    assert("d3d12"@[0] == 'd' && "d3d12"@[1] == '3');
    assert("metal"@[0] == 'm' && "metal"@[1] == 'e');
    assert("mtl"@[0] == 'm' && "mtl"@[1] == 't');
    assert("gl"@[0] == 'g' && "gl"@[1] == 'l');
    assert("opengl"@[0] == 'o' && "opengl"@[1] == 'p');
    assert("gles"@[0] == 'g' && "gles"@[1] == 'l');
}

/// A backend goes by one name on both sides: its name in a report, given on the command line,
/// selects that backend alone, and a report on it lists that name alone.
pub proof fn law_backend_names_go_both_ways(b: Backend)
    requires
        b == Backend::Vulkan || b == Backend::Metal || b == Backend::Dx12 || b == Backend::Gl,
    ensures
        named_backends(backend_label(b)) matches Some(bits) && backend_labels(bits) == seq![
            backend_label(b),
        ],
{
    law_backend_names(backend_label(b));
    law_requested_backends(named_backends(backend_label(b))->0);
    assert(0x2u32 & 0x1 == 0 && 0x2u32 & 0x2 != 0 && 0x2u32 & 0x10 == 0 && 0x2u32 & 0x4 == 0
        && 0x2u32 & 0x8 == 0 && 0x2u32 & 0x20 == 0) by (bit_vector);
    assert(0x4u32 & 0x1 == 0 && 0x4u32 & 0x2 == 0 && 0x4u32 & 0x10 == 0 && 0x4u32 & 0x4 != 0
        && 0x4u32 & 0x8 == 0 && 0x4u32 & 0x20 == 0) by (bit_vector);
    assert(0x8u32 & 0x1 == 0 && 0x8u32 & 0x2 == 0 && 0x8u32 & 0x10 == 0 && 0x8u32 & 0x4 == 0
        && 0x8u32 & 0x8 != 0 && 0x8u32 & 0x20 == 0) by (bit_vector);
    assert(0x10u32 & 0x1 == 0 && 0x10u32 & 0x2 == 0 && 0x10u32 & 0x10 != 0 && 0x10u32 & 0x4 == 0
        && 0x10u32 & 0x8 == 0 && 0x10u32 & 0x20 == 0) by (bit_vector);
    assert(backend_labels(named_backends(backend_label(b))->0) =~= seq![backend_label(b)]);
}

/// A complaint tells what was given and what would have been accepted.
pub proof fn law_complaints(name: Seq<char>, idx: nat, found: nat)
    ensures
        unknown_backend(name) == "unknown backend '"@ + name
            + "' (use vulkan|dx12|metal|gl|primary|all)"@,
        index_out_of_range(idx, found) == "adapter index "@ + decimal(idx) + " out of range ("@
            + decimal(found) + " adapters found)"@,
{
}

/// A selection keeps the adapter at the index, no other, and all else of the report.
pub proof fn law_selection(r: ReportView, idx: int)
    requires
        0 <= idx < r.adapters.len(),
    ensures
        with_only(r, idx).adapters.len() == 1,
        with_only(r, idx).adapters[0] == r.adapters[idx],
        with_only(r, idx).wgpu_info_version == r.wgpu_info_version,
        with_only(r, idx).wgpu_version == r.wgpu_version,
        with_only(r, idx).backends_requested == r.backends_requested,
        with_only(with_only(r, idx), 0) == with_only(r, idx),
{
    assert(with_only(with_only(r, idx), 0).adapters =~= with_only(r, idx).adapters);
}

proof fn lemma_differences(s: Seq<char>, diffs: Seq<Seq<char>>, more: Seq<char>, n: nat)
    requires
        n <= diffs.len(),
    ensures
        with_differences(s, diffs.push(more), n) == with_differences(s, diffs, n),
    decreases n,
{
    if n > 0 {
        lemma_differences(s, diffs, more, (n - 1) as nat);
    }
}

/// What is printed of a comparison begins with how many differences there are and from which file,
/// and has one indented line for each, in order: a difference more is a line more at the end. Where
/// there are none, it says so.
pub proof fn law_comparison_lines(diffs: Seq<Seq<char>>, more: Seq<char>, path: Seq<char>)
    ensures
        comparison_text(seq![], path) == "no differences\n"@,
        ({
            let head = decimal(diffs.len() + 1) + " difference(s) vs "@ + path + ":\n"@;
            comparison_text(diffs.push(more), path) == with_differences(head, diffs, diffs.len())
                + "  "@ + more + "\n"@
        }),
        forall|s: Seq<char>| #[trigger] with_differences(s, diffs, 0) == s,
        forall|s: Seq<char>|
            #[trigger] with_differences(s, diffs.push(more), diffs.len() + 1) == with_differences(
                s,
                diffs,
                diffs.len(),
            ) + "  "@ + more + "\n"@,
{
    let head = decimal(diffs.len() + 1) + " difference(s) vs "@ + path + ":\n"@;
    lemma_differences(head, diffs, more, diffs.len());
    assert forall|s: Seq<char>|
        #[trigger] with_differences(s, diffs.push(more), diffs.len() + 1) == with_differences(
            s,
            diffs,
            diffs.len(),
        ) + "  "@ + more + "\n"@ by {
        lemma_differences(s, diffs, more, diffs.len());
    }
}

} // verus!
