//! Reports as JSON, and the differences between two of them.
use crate::caps::{
    law_limits_json_injective, lemma_keys_push, lemma_limit_names_are_distinct,
    lemma_limits_are_numbers, lemma_limits_well_formed, lemma_same_object, limit_fields,
    put_number, Limits,
};
use crate::diff::{
    changed_line, changes, diff_lines, diff_value, item_path, law_one_changed_field,
    law_one_changed_item, law_other_way_round_is_mirrored,
};
use crate::json::{
    fields_view, keys_distinct, keys_of, law_object_injective, law_object_keeps_distinct_fields,
    lemma_every_field_stays, lemma_object_well_formed, lemma_view, list_view, object, object_of, well_formed, Field, Json, Value,
};
use crate::model::{
    adapters_view, formats_view, AdapterReport, AdapterView, DownlevelReport,
    DownlevelView, FormatView, GpuReport, ReportView, TextureFormatReport,
};
use crate::names::{group_marks, lemma_marked_apart, lemma_no_marks, mark};
use crate::text::{lemma_take_next, texts};
use vstd::prelude::*;

verus! {

/// A list of texts as JSON.
pub open spec fn texts_json(t: Seq<Seq<char>>) -> Json {
    Json::Array(Seq::new(t.len(), |i: int| Json::Text(t[i])))
}

/// An optional text as JSON: null where there is none.
pub open spec fn option_json(o: Option<Seq<char>>) -> Json {
    match o {
        Some(s) => Json::Text(s),
        None => Json::Null,
    }
}

impl FormatView {
    /// The fields of the JSON form, in declaration order.
    pub open spec fn fields(self) -> Seq<Field> {
        Seq::empty()
            .push(("format"@, Json::Text(self.format)))
            .push(("allowed_usages"@, texts_json(self.allowed_usages)))
            .push(("flags"@, texts_json(self.flags)))
    }

    /// The report as JSON.
    pub open spec fn json(self) -> Json {
        object(self.fields())
    }
}

impl DownlevelView {
    /// The fields of the JSON form, in declaration order.
    pub open spec fn fields(self) -> Seq<Field> {
        Seq::empty()
            .push(("is_webgpu_compliant"@, Json::Bool(self.is_webgpu_compliant)))
            .push(("shader_model"@, Json::Text(self.shader_model)))
            .push(("flags"@, texts_json(self.flags)))
    }

    /// The report as JSON.
    pub open spec fn json(self) -> Json {
        object(self.fields())
    }
}

/// A list of format reports as JSON.
pub open spec fn formats_json(fs: Seq<FormatView>) -> Json {
    Json::Array(Seq::new(fs.len(), |i: int| fs[i].json()))
}

impl AdapterView {
    /// The fields of the JSON form, in declaration order.
    pub open spec fn fields(self) -> Seq<Field> {
        Seq::empty()
            .push(("name"@, Json::Text(self.name)))
            .push(("backend"@, Json::Text(self.backend)))
            .push(("device_type"@, Json::Text(self.device_type)))
            .push(("vendor"@, Json::Number(self.vendor as u64)))
            .push(("vendor_name"@, option_json(self.vendor_name)))
            .push(("device"@, Json::Number(self.device as u64)))
            .push(("pci_bus_id"@, Json::Text(self.pci_bus_id)))
            .push(("driver"@, Json::Text(self.driver)))
            .push(("driver_info"@, Json::Text(self.driver_info)))
            .push(("subgroup_min_size"@, Json::Number(self.subgroup_min_size as u64)))
            .push(("subgroup_max_size"@, Json::Number(self.subgroup_max_size as u64)))
            .push(("features"@, texts_json(self.features)))
            .push(("limits"@, self.limits.json()))
            .push(("downlevel"@, self.downlevel.json()))
            .push(("texture_formats"@, formats_json(self.texture_formats)))
    }

    /// The report as JSON.
    pub open spec fn json(self) -> Json {
        object(self.fields())
    }
}

/// A list of adapter reports as JSON.
pub open spec fn adapters_json(adapters: Seq<AdapterView>) -> Json {
    Json::Array(Seq::new(adapters.len(), |i: int| adapters[i].json()))
}

impl ReportView {
    /// The fields of the JSON form, in declaration order.
    pub open spec fn fields(self) -> Seq<Field> {
        Seq::empty()
            .push(("wgpu_info_version"@, Json::Text(self.wgpu_info_version)))
            .push(("wgpu_version"@, Json::Text(self.wgpu_version)))
            .push(("backends_requested"@, texts_json(self.backends_requested)))
            .push(("adapters"@, adapters_json(self.adapters)))
    }

    /// The report as JSON.
    pub open spec fn json(self) -> Json {
        object(self.fields())
    }
}

// ---------------------------------------------------------------------------
// Writing
// ---------------------------------------------------------------------------

/// Appends the field `key` with the value `v`.
fn put(fields: &mut Vec<(String, Value)>, key: &str, v: Value)
    ensures
        fields_view(final(fields)@) == fields_view(old(fields)@).push((key@, v@)),
{
    fields.push((key.to_owned(), v));
    assert(fields_view(fields@) =~= fields_view(old(fields)@).push((key@, v@)));
}

/// Appends the field `key` with a copy of the text `s`.
fn put_text(fields: &mut Vec<(String, Value)>, key: &str, s: &String)
    ensures
        fields_view(final(fields)@) == fields_view(old(fields)@).push((key@, Json::Text(s@))),
{
    put(fields, key, Value::Text(s.clone()));
}

/// Appends the value `v`.
fn push_value(list: &mut Vec<Value>, v: Value)
    ensures
        list_view(final(list)@) == list_view(old(list)@).push(v@),
{
    list.push(v);
    assert(list_view(list@) =~= list_view(old(list)@).push(v@));
}

/// The list of values as one value.
fn array_of(list: Vec<Value>) -> (r: Value)
    ensures
        r@ == Json::Array(list_view(list@)),
{
    let r = Value::Array(list);
    proof {
        lemma_view(r);
    }
    r
}

/// A list of texts as a JSON value.
fn texts_value(v: &Vec<String>) -> (r: Value)
    ensures
        r@ == texts_json(texts(v@)),
{
    let ghost t = texts(v@);
    let ghost all = Seq::new(t.len(), |i: int| Json::Text(t[i]));
    let mut list: Vec<Value> = Vec::new();
    let mut i: usize = 0;
    assert(list_view(list@) =~= all.take(0));
    while i < v.len()
        invariant
            i <= v@.len(),
            t == texts(v@),
            all == Seq::new(t.len(), |i: int| Json::Text(t[i])),
            list_view(list@) == all.take(i as int),
        decreases v@.len() - i,
    {
        push_value(&mut list, Value::Text(v[i].clone()));
        proof {
            lemma_take_next(all, i as int);
        }
        i = i + 1;
    }
    assert(all.take(all.len() as int) =~= all);
    array_of(list)
}

impl TextureFormatReport {
    /// The report as a JSON value.
    pub fn to_value(&self) -> (r: Value)
        ensures
            r@ == self@.json(),
    {
        let mut f: Vec<(String, Value)> = Vec::new();
        assert(fields_view(f@) =~= Seq::empty());
        put_text(&mut f, "format", &self.format);
        put(&mut f, "allowed_usages", texts_value(&self.allowed_usages));
        put(&mut f, "flags", texts_value(&self.flags));
        proof {
            lemma_same_object(fields_view(f@), self@.fields());
        }
        object_of(f)
    }
}

impl DownlevelReport {
    /// The report as a JSON value.
    pub fn to_value(&self) -> (r: Value)
        ensures
            r@ == self@.json(),
    {
        let mut f: Vec<(String, Value)> = Vec::new();
        assert(fields_view(f@) =~= Seq::empty());
        put(&mut f, "is_webgpu_compliant", Value::Bool(self.is_webgpu_compliant));
        put_text(&mut f, "shader_model", &self.shader_model);
        put(&mut f, "flags", texts_value(&self.flags));
        proof {
            lemma_same_object(fields_view(f@), self@.fields());
        }
        object_of(f)
    }
}

/// A list of format reports as a JSON value.
fn formats_value(v: &Vec<TextureFormatReport>) -> (r: Value)
    ensures
        r@ == formats_json(formats_view(v@)),
{
    let ghost t = formats_view(v@);
    let ghost all = Seq::new(t.len(), |i: int| t[i].json());
    let mut list: Vec<Value> = Vec::new();
    let mut i: usize = 0;
    assert(list_view(list@) =~= all.take(0));
    while i < v.len()
        invariant
            i <= v@.len(),
            t == formats_view(v@),
            all == Seq::new(t.len(), |i: int| t[i].json()),
            list_view(list@) == all.take(i as int),
        decreases v@.len() - i,
    {
        push_value(&mut list, v[i].to_value());
        proof {
            lemma_take_next(all, i as int);
        }
        i = i + 1;
    }
    assert(all.take(all.len() as int) =~= all);
    array_of(list)
}

impl AdapterReport {
    /// The report as a JSON value.
    pub fn to_value(&self) -> (r: Value)
        ensures
            r@ == self@.json(),
    {
        let vendor = match &self.vendor_name {
            Some(s) => Value::Text(s.clone()),
            None => Value::Null,
        };
        let mut f: Vec<(String, Value)> = Vec::new();
        assert(fields_view(f@) =~= Seq::empty());
        put_text(&mut f, "name", &self.name);
        put_text(&mut f, "backend", &self.backend);
        put_text(&mut f, "device_type", &self.device_type);
        put_number(&mut f, "vendor", self.vendor as u64);
        put(&mut f, "vendor_name", vendor);
        put_number(&mut f, "device", self.device as u64);
        put_text(&mut f, "pci_bus_id", &self.pci_bus_id);
        put_text(&mut f, "driver", &self.driver);
        put_text(&mut f, "driver_info", &self.driver_info);
        put_number(&mut f, "subgroup_min_size", self.subgroup_min_size as u64);
        put_number(&mut f, "subgroup_max_size", self.subgroup_max_size as u64);
        put(&mut f, "features", texts_value(&self.features));
        put(&mut f, "limits", self.limits.to_value());
        put(&mut f, "downlevel", self.downlevel.to_value());
        put(&mut f, "texture_formats", formats_value(&self.texture_formats));
        proof {
            lemma_same_object(fields_view(f@), self@.fields());
        }
        object_of(f)
    }
}

/// A list of adapter reports as a JSON value.
fn adapters_value(v: &Vec<AdapterReport>) -> (r: Value)
    ensures
        r@ == adapters_json(adapters_view(v@)),
{
    let ghost t = adapters_view(v@);
    let ghost all = Seq::new(t.len(), |i: int| t[i].json());
    let mut list: Vec<Value> = Vec::new();
    let mut i: usize = 0;
    assert(list_view(list@) =~= all.take(0));
    while i < v.len()
        invariant
            i <= v@.len(),
            t == adapters_view(v@),
            all == Seq::new(t.len(), |i: int| t[i].json()),
            list_view(list@) == all.take(i as int),
        decreases v@.len() - i,
    {
        push_value(&mut list, v[i].to_value());
        proof {
            lemma_take_next(all, i as int);
        }
        i = i + 1;
    }
    assert(all.take(all.len() as int) =~= all);
    array_of(list)
}

impl GpuReport {
    /// The report as a JSON value.
    pub fn to_value(&self) -> (r: Value)
        ensures
            r@ == self@.json(),
    {
        let mut f: Vec<(String, Value)> = Vec::new();
        assert(fields_view(f@) =~= Seq::empty());
        put_text(&mut f, "wgpu_info_version", &self.wgpu_info_version);
        put_text(&mut f, "wgpu_version", &self.wgpu_version);
        put(&mut f, "backends_requested", texts_value(&self.backends_requested));
        put(&mut f, "adapters", adapters_value(&self.adapters));
        proof {
            lemma_same_object(fields_view(f@), self@.fields());
        }
        object_of(f)
    }

    /// Compare two reports and return a list of human-readable differences
    /// (`path: old -> new`). Empty when, and only when, the reports say the same.
    ///
    /// The diff walks the JSON form, so it covers every field, including every limit. Adapters
    /// are compared positionally by index.
    pub fn diff(&self, other: &GpuReport) -> (r: Vec<String>)
        ensures
            texts(r@) == diff_lines(Seq::empty(), self@.json(), other@.json()),
            r@.len() == 0 <==> self@ == other@,
    {
        let a = self.to_value();
        let b = other.to_value();
        let mut out: Vec<String> = Vec::new();
        proof {
            reveal_strlit("");
            assert(""@ =~= Seq::empty());
        }
        assert(texts(out@) =~= Seq::empty());
        diff_value("", &a, &b, &mut out);
        proof {
            let lines = diff_lines(Seq::empty(), self@.json(), other@.json());
            assert(Seq::empty() + lines =~= lines);
            law_report_json_injective(self@, other@);
        }
        out
    }
}

// ---------------------------------------------------------------------------
// What the JSON forms are like
// ---------------------------------------------------------------------------

proof fn lemma_format_names(v: FormatView)
    ensures
        keys_distinct(v.fields()),
{
    broadcast use group_marks;

    assert(mark("format"@) == 297) by {
        reveal(mark);
        reveal_strlit("format");
    }
    assert(mark("allowed_usages"@) == 468) by {
        reveal(mark);
        reveal_strlit("allowed_usages");
    }
    assert(mark("flags"@) == 350) by {
        reveal(mark);
        reveal_strlit("flags");
    }
    lemma_no_marks();
    lemma_marked_apart(v.fields());
}

proof fn lemma_downlevel_names(v: DownlevelView)
    ensures
        keys_distinct(v.fields()),
{
    broadcast use group_marks;

    assert(mark("is_webgpu_compliant"@) == 421) by {
        reveal(mark);
        reveal_strlit("is_webgpu_compliant");
    }
    assert(mark("shader_model"@) == 416) by {
        reveal(mark);
        reveal_strlit("shader_model");
    }
    assert(mark("flags"@) == 350) by {
        reveal(mark);
        reveal_strlit("flags");
    }
    lemma_no_marks();
    lemma_marked_apart(v.fields());
}

proof fn lemma_adapter_names(v: AdapterView)
    ensures
        keys_distinct(v.fields()),
{
    broadcast use group_marks;

    assert(mark("name"@) == 4) by {
        reveal(mark);
        reveal_strlit("name");
    }
    assert(mark("backend"@) == 310) by {
        reveal(mark);
        reveal_strlit("backend");
    }
    assert(mark("device_type"@) == 409) by {
        reveal(mark);
        reveal_strlit("device_type");
    }
    assert(mark("vendor"@) == 339) by {
        reveal(mark);
        reveal_strlit("vendor");
    }
    assert(mark("vendor_name"@) == 445) by {
        reveal(mark);
        reveal_strlit("vendor_name");
    }
    assert(mark("device"@) == 303) by {
        reveal(mark);
        reveal_strlit("device");
    }
    assert(mark("pci_bus_id"@) == 304) by {
        reveal(mark);
        reveal_strlit("pci_bus_id");
    }
    assert(mark("driver"@) == 309) by {
        reveal(mark);
        reveal_strlit("driver");
    }
    assert(mark("driver_info"@) == 425) by {
        reveal(mark);
        reveal_strlit("driver_info");
    }
    assert(mark("subgroup_min_size"@) == 464) by {
        reveal(mark);
        reveal_strlit("subgroup_min_size");
    }
    assert(mark("subgroup_max_size"@) == 456) by {
        reveal(mark);
        reveal_strlit("subgroup_max_size");
    }
    assert(mark("features"@) == 359) by {
        reveal(mark);
        reveal_strlit("features");
    }
    assert(mark("limits"@) == 354) by {
        reveal(mark);
        reveal_strlit("limits");
    }
    assert(mark("downlevel"@) == 333) by {
        reveal(mark);
        reveal_strlit("downlevel");
    }
    assert(mark("texture_formats"@) == 480) by {
        reveal(mark);
        reveal_strlit("texture_formats");
    }
    lemma_no_marks();
    lemma_marked_apart(v.fields());
}

proof fn lemma_report_names(v: ReportView)
    ensures
        keys_distinct(v.fields()),
{
    broadcast use group_marks;

    assert(mark("wgpu_info_version"@) == 420) by {
        reveal(mark);
        reveal_strlit("wgpu_info_version");
    }
    assert(mark("wgpu_version"@) == 408) by {
        reveal(mark);
        reveal_strlit("wgpu_version");
    }
    assert(mark("backends_requested"@) == 422) by {
        reveal(mark);
        reveal_strlit("backends_requested");
    }
    assert(mark("adapters"@) == 356) by {
        reveal(mark);
        reveal_strlit("adapters");
    }
    lemma_no_marks();
    lemma_marked_apart(v.fields());
}

proof fn lemma_texts_well_formed(t: Seq<Seq<char>>)
    ensures
        well_formed(texts_json(t)),
{
    let list = Seq::new(t.len(), |i: int| Json::Text(t[i]));
    assert forall|i: int| 0 <= i < list.len() implies well_formed(#[trigger] list[i]) by {
        assert(list[i] == Json::Text(t[i]));
    }
}

proof fn lemma_format_well_formed(v: FormatView)
    ensures
        well_formed(v.json()),
{
    lemma_texts_well_formed(v.allowed_usages);
    lemma_texts_well_formed(v.flags);
    lemma_object_well_formed(v.fields());
}

proof fn lemma_downlevel_well_formed(v: DownlevelView)
    ensures
        well_formed(v.json()),
{
    lemma_texts_well_formed(v.flags);
    lemma_object_well_formed(v.fields());
}

proof fn lemma_adapter_well_formed(v: AdapterView)
    ensures
        forall|i: int| 0 <= i < v.fields().len() ==> well_formed((#[trigger] v.fields()[i]).1),
        well_formed(v.json()),
{
    lemma_texts_well_formed(v.features);
    lemma_limits_well_formed(v.limits);
    lemma_downlevel_well_formed(v.downlevel);
    assert(well_formed(formats_json(v.texture_formats))) by {
        let list = Seq::new(v.texture_formats.len(), |i: int| v.texture_formats[i].json());
        assert forall|i: int| 0 <= i < list.len() implies well_formed(#[trigger] list[i]) by {
            lemma_format_well_formed(v.texture_formats[i]);
        }
    }
    lemma_object_well_formed(v.fields());
}

/// Reports are well-formed JSON.
pub proof fn lemma_report_well_formed(v: ReportView)
    ensures
        forall|i: int| 0 <= i < v.fields().len() ==> well_formed((#[trigger] v.fields()[i]).1),
        well_formed(v.json()),
{
    lemma_texts_well_formed(v.backends_requested);
    assert(well_formed(adapters_json(v.adapters))) by {
        let list = Seq::new(v.adapters.len(), |i: int| v.adapters[i].json());
        assert forall|i: int| 0 <= i < list.len() implies well_formed(#[trigger] list[i]) by {
            lemma_adapter_well_formed(v.adapters[i]);
        }
    }
    lemma_object_well_formed(v.fields());
}

// ---------------------------------------------------------------------------
// Laws
// ---------------------------------------------------------------------------

proof fn lemma_texts_json(a: Seq<Seq<char>>, b: Seq<Seq<char>>)
    requires
        texts_json(a) == texts_json(b),
    ensures
        a == b,
{
    let ja = Seq::new(a.len(), |i: int| Json::Text(a[i]));
    let jb = Seq::new(b.len(), |i: int| Json::Text(b[i]));
    assert(ja == jb);
    assert(ja.len() == a.len() && jb.len() == b.len());
    assert forall|i: int| 0 <= i < a.len() implies a[i] == b[i] by {
        assert(ja[i] == Json::Text(a[i]));
        assert(jb[i] == Json::Text(b[i]));
    }
    assert(a =~= b);
}

proof fn lemma_format_json(a: FormatView, b: FormatView)
    requires
        a.json() == b.json(),
    ensures
        a == b,
{
    broadcast use lemma_keys_push;

    let fa = a.fields();
    let fb = b.fields();
    assert(keys_of(fa) == keys_of(fb));
    lemma_format_names(a);
    law_object_injective(fa, fb);
    assert(fa[0] == fb[0] && fa[1] == fb[1] && fa[2] == fb[2]);
    lemma_texts_json(a.allowed_usages, b.allowed_usages);
    lemma_texts_json(a.flags, b.flags);
}

proof fn lemma_downlevel_json(a: DownlevelView, b: DownlevelView)
    requires
        a.json() == b.json(),
    ensures
        a == b,
{
    broadcast use lemma_keys_push;

    let fa = a.fields();
    let fb = b.fields();
    assert(keys_of(fa) == keys_of(fb));
    lemma_downlevel_names(a);
    law_object_injective(fa, fb);
    assert(fa[0] == fb[0] && fa[1] == fb[1] && fa[2] == fb[2]);
    lemma_texts_json(a.flags, b.flags);
}

proof fn lemma_adapter_json(a: AdapterView, b: AdapterView)
    requires
        a.json() == b.json(),
    ensures
        a == b,
{
    broadcast use lemma_keys_push;

    let fa = a.fields();
    let fb = b.fields();
    assert(keys_of(fa) == keys_of(fb));
    lemma_adapter_names(a);
    law_object_injective(fa, fb);
    assert(fa[0] == fb[0] && fa[1] == fb[1] && fa[2] == fb[2] && fa[3] == fb[3]);
    assert(fa[4] == fb[4] && fa[5] == fb[5] && fa[6] == fb[6] && fa[7] == fb[7]);
    assert(fa[8] == fb[8] && fa[9] == fb[9] && fa[10] == fb[10] && fa[11] == fb[11]);
    assert(fa[12] == fb[12] && fa[13] == fb[13] && fa[14] == fb[14]);
    lemma_texts_json(a.features, b.features);
    law_limits_json_injective(a.limits, b.limits);
    lemma_downlevel_json(a.downlevel, b.downlevel);
    let ja = Seq::new(a.texture_formats.len(), |i: int| a.texture_formats[i].json());
    let jb = Seq::new(b.texture_formats.len(), |i: int| b.texture_formats[i].json());
    assert(ja == jb);
    assert(ja.len() == a.texture_formats.len() && jb.len() == b.texture_formats.len());
    assert forall|i: int| 0 <= i < a.texture_formats.len() implies a.texture_formats[i]
        == b.texture_formats[i] by {
        assert(ja[i] == a.texture_formats[i].json());
        assert(jb[i] == b.texture_formats[i].json());
        lemma_format_json(a.texture_formats[i], b.texture_formats[i]);
    }
    assert(a.texture_formats =~= b.texture_formats);
}

/// The JSON form keeps everything a report says: the same JSON means the same report.
pub proof fn law_report_json_injective(a: ReportView, b: ReportView)
    ensures
        a.json() == b.json() ==> a == b,
{
    broadcast use lemma_keys_push;

    if a.json() == b.json() {
        let fa = a.fields();
        let fb = b.fields();
        assert(keys_of(fa) == keys_of(fb));
        lemma_report_names(a);
        law_object_injective(fa, fb);
        assert(fa[0] == fb[0] && fa[1] == fb[1] && fa[2] == fb[2] && fa[3] == fb[3]);
        lemma_texts_json(a.backends_requested, b.backends_requested);
        let ja = Seq::new(a.adapters.len(), |i: int| a.adapters[i].json());
        let jb = Seq::new(b.adapters.len(), |i: int| b.adapters[i].json());
        assert(ja == jb);
        assert(ja.len() == a.adapters.len() && jb.len() == b.adapters.len());
        assert forall|i: int| 0 <= i < a.adapters.len() implies a.adapters[i] == b.adapters[i] by {
            assert(ja[i] == a.adapters[i].json());
            assert(jb[i] == b.adapters[i].json());
            lemma_adapter_json(a.adapters[i], b.adapters[i]);
        }
        assert(a.adapters =~= b.adapters);
    }
}

/// Comparing two reports the other way round gives as many lines, each mirrored: the same path in
/// the same place, "y -> x" where it was "x -> y", added where it was removed.
pub proof fn law_reports_differ_alike_both_ways(a: ReportView, b: ReportView)
    ensures
        diff_lines(Seq::empty(), b.json(), a.json()).len() == diff_lines(
            Seq::empty(),
            a.json(),
            b.json(),
        ).len(),
        forall|i: int|
            #![trigger changes(Seq::empty(), a.json(), b.json())[i]]
            0 <= i < changes(Seq::empty(), a.json(), b.json()).len() ==> diff_lines(
                Seq::empty(),
                a.json(),
                b.json(),
            )[i] == changes(Seq::empty(), a.json(), b.json())[i].line() && diff_lines(
                Seq::empty(),
                b.json(),
                a.json(),
            )[i] == changes(Seq::empty(), a.json(), b.json())[i].mirrored().line(),
{
    lemma_report_well_formed(a);
    lemma_report_well_formed(b);
    law_other_way_round_is_mirrored(Seq::empty(), a.json(), b.json());
}

/// A report with other limits of the adapter at index `i`.
pub open spec fn with_limits_of(r: ReportView, i: int, limits: Limits) -> ReportView {
    ReportView {
        adapters: r.adapters.update(i, AdapterView { limits, ..r.adapters[i] }),
        ..r
    }
}

/// Where the limits of the adapter at index `i` stand in a report.
pub open spec fn limits_path(i: int) -> Seq<char> {
    item_path("adapters"@, i as nat) + "."@ + "limits"@
}

/// Other limits of one adapter show as the differences of those limits and as nothing else.
pub proof fn law_changed_limits_show_alone(r: ReportView, i: int, limits: Limits)
    requires
        0 <= i < r.adapters.len(),
    ensures
        diff_lines(Seq::empty(), r.json(), with_limits_of(r, i, limits).json()) == diff_lines(
            limits_path(i),
            r.adapters[i].limits.json(),
            limits.json(),
        ),
{
    let changed = with_limits_of(r, i, limits);
    let a = r.adapters[i];
    let b = changed.adapters[i];
    let list = Seq::new(r.adapters.len(), |k: int| r.adapters[k].json());
    let new_list = Seq::new(changed.adapters.len(), |k: int| changed.adapters[k].json());
    assert(new_list =~= list.update(i, b.json()));
    assert(changed.fields() =~= r.fields().update(
        3,
        (r.fields()[3].0, adapters_json(changed.adapters)),
    ));
    lemma_report_names(r);
    lemma_report_well_formed(r);
    lemma_adapter_names(a);
    lemma_adapter_well_formed(a);
    assert(r.fields()[3].1 == Json::Array(list));
    law_one_changed_field(Seq::empty(), r.fields(), 3, adapters_json(changed.adapters));
    law_one_changed_item("adapters"@, list, i, b.json());
    assert(b.fields() =~= a.fields().update(12, (a.fields()[12].0, limits.json())));
    law_one_changed_field(item_path("adapters"@, i as nat), a.fields(), 12, limits.json());
    assert(item_path("adapters"@, i as nat).len() > 0) by {
        reveal_strlit("[");
    }
}

/// One changed limit shows as exactly one line, with the limit's name, old and new value.
pub proof fn law_one_changed_limit_is_one_line(
    r: ReportView,
    i: int,
    limits: Limits,
    k: int,
    n: u64,
)
    requires
        0 <= i < r.adapters.len(),
        0 <= k < limit_fields(limits).len(),
        limit_fields(limits) == limit_fields(r.adapters[i].limits).update(
            k,
            (limit_fields(r.adapters[i].limits)[k].0, Json::Number(n)),
        ),
        limit_fields(r.adapters[i].limits)[k].1 != Json::Number(n),
    ensures
        diff_lines(Seq::empty(), r.json(), with_limits_of(r, i, limits).json()) == seq![
            changed_line(
                limits_path(i) + "."@ + limit_fields(r.adapters[i].limits)[k].0,
                limit_fields(r.adapters[i].limits)[k].1,
                Json::Number(n),
            ),
        ],
{
    let old_fields = limit_fields(r.adapters[i].limits);
    lemma_limits_are_numbers(r.adapters[i].limits);
    law_changed_limits_show_alone(r, i, limits);
    lemma_limit_names_are_distinct(r.adapters[i].limits);
    law_one_changed_field(limits_path(i), old_fields, k, Json::Number(n));
    assert(limits_path(i).len() > 0) by {
        reveal_strlit(".");
    }
}

/// The JSON form of a format report has these three fields.
pub proof fn law_format_json_by_name(v: FormatView)
    ensures
        v.json() is Object,
        v.json()->Object_0.len() == 3,
        v.json()->Object_0.contains(("format"@, Json::Text(v.format))),
        v.json()->Object_0.contains(("allowed_usages"@, texts_json(v.allowed_usages))),
        v.json()->Object_0.contains(("flags"@, texts_json(v.flags))),
{
    let given = v.fields();
    lemma_format_names(v);
    law_object_keeps_distinct_fields(given);
    lemma_every_field_stays(given);
    assert(given[0] == ("format"@, Json::Text(v.format)));
    assert(given[1] == ("allowed_usages"@, texts_json(v.allowed_usages)));
    assert(given[2] == ("flags"@, texts_json(v.flags)));
}

/// The JSON form of a downlevel report has these three fields.
pub proof fn law_downlevel_json_by_name(v: DownlevelView)
    ensures
        v.json() is Object,
        v.json()->Object_0.len() == 3,
        v.json()->Object_0.contains(("is_webgpu_compliant"@, Json::Bool(v.is_webgpu_compliant))),
        v.json()->Object_0.contains(("shader_model"@, Json::Text(v.shader_model))),
        v.json()->Object_0.contains(("flags"@, texts_json(v.flags))),
{
    let given = v.fields();
    lemma_downlevel_names(v);
    law_object_keeps_distinct_fields(given);
    lemma_every_field_stays(given);
    assert(given[0] == ("is_webgpu_compliant"@, Json::Bool(v.is_webgpu_compliant)));
    assert(given[1] == ("shader_model"@, Json::Text(v.shader_model)));
    assert(given[2] == ("flags"@, texts_json(v.flags)));
}

/// The JSON form of an adapter report has every field under its own name with its own value.
pub proof fn law_adapter_json_by_name(v: AdapterView)
    ensures
        v.json() is Object,
        v.json()->Object_0.len() == 15,
        v.json()->Object_0.contains(("name"@, Json::Text(v.name))),
        v.json()->Object_0.contains(("backend"@, Json::Text(v.backend))),
        v.json()->Object_0.contains(("device_type"@, Json::Text(v.device_type))),
        v.json()->Object_0.contains(("vendor"@, Json::Number(v.vendor as u64))),
        v.json()->Object_0.contains(("vendor_name"@, option_json(v.vendor_name))),
        v.json()->Object_0.contains(("device"@, Json::Number(v.device as u64))),
        v.json()->Object_0.contains(("pci_bus_id"@, Json::Text(v.pci_bus_id))),
        v.json()->Object_0.contains(("driver"@, Json::Text(v.driver))),
        v.json()->Object_0.contains(("driver_info"@, Json::Text(v.driver_info))),
        v.json()->Object_0.contains(("subgroup_min_size"@, Json::Number(v.subgroup_min_size as u64))),
        v.json()->Object_0.contains(("subgroup_max_size"@, Json::Number(v.subgroup_max_size as u64))),
        v.json()->Object_0.contains(("features"@, texts_json(v.features))),
        v.json()->Object_0.contains(("limits"@, v.limits.json())),
        v.json()->Object_0.contains(("downlevel"@, v.downlevel.json())),
        v.json()->Object_0.contains(("texture_formats"@, formats_json(v.texture_formats))),
{
    let given = v.fields();
    lemma_adapter_names(v);
    law_object_keeps_distinct_fields(given);
    lemma_every_field_stays(given);
    assert(given[0] == ("name"@, Json::Text(v.name)));
    assert(given[1] == ("backend"@, Json::Text(v.backend)));
    assert(given[2] == ("device_type"@, Json::Text(v.device_type)));
    assert(given[3] == ("vendor"@, Json::Number(v.vendor as u64)));
    assert(given[4] == ("vendor_name"@, option_json(v.vendor_name)));
    assert(given[5] == ("device"@, Json::Number(v.device as u64)));
    assert(given[6] == ("pci_bus_id"@, Json::Text(v.pci_bus_id)));
    assert(given[7] == ("driver"@, Json::Text(v.driver)));
    assert(given[8] == ("driver_info"@, Json::Text(v.driver_info)));
    assert(given[9] == ("subgroup_min_size"@, Json::Number(v.subgroup_min_size as u64)));
    assert(given[10] == ("subgroup_max_size"@, Json::Number(v.subgroup_max_size as u64)));
    assert(given[11] == ("features"@, texts_json(v.features)));
    assert(given[12] == ("limits"@, v.limits.json()));
    assert(given[13] == ("downlevel"@, v.downlevel.json()));
    assert(given[14] == ("texture_formats"@, formats_json(v.texture_formats)));
}

/// The JSON form of a report has every field under its own name with its own value.
pub proof fn law_report_json_by_name(v: ReportView)
    ensures
        v.json() is Object,
        v.json()->Object_0.len() == 4,
        v.json()->Object_0.contains(("wgpu_info_version"@, Json::Text(v.wgpu_info_version))),
        v.json()->Object_0.contains(("wgpu_version"@, Json::Text(v.wgpu_version))),
        v.json()->Object_0.contains(("backends_requested"@, texts_json(v.backends_requested))),
        v.json()->Object_0.contains(("adapters"@, adapters_json(v.adapters))),
{
    let given = v.fields();
    lemma_report_names(v);
    law_object_keeps_distinct_fields(given);
    lemma_every_field_stays(given);
    assert(given[0] == ("wgpu_info_version"@, Json::Text(v.wgpu_info_version)));
    assert(given[1] == ("wgpu_version"@, Json::Text(v.wgpu_version)));
    assert(given[2] == ("backends_requested"@, texts_json(v.backends_requested)));
    assert(given[3] == ("adapters"@, adapters_json(v.adapters)));
}

/// A list in a report is a JSON list with one value for each, in order; an optional text is that
/// text, or null.
pub proof fn law_lists_in_json(
    t: Seq<Seq<char>>,
    more: Seq<char>,
    fs: Seq<FormatView>,
    f: FormatView,
    adapters: Seq<AdapterView>,
    a: AdapterView,
)
    ensures
        texts_json(seq![]) == Json::Array(seq![]),
        texts_json(t.push(more)) == Json::Array(texts_json(t)->Array_0.push(Json::Text(more))),
        formats_json(seq![]) == Json::Array(seq![]),
        formats_json(fs.push(f)) == Json::Array(formats_json(fs)->Array_0.push(f.json())),
        adapters_json(seq![]) == Json::Array(seq![]),
        adapters_json(adapters.push(a)) == Json::Array(
            adapters_json(adapters)->Array_0.push(a.json()),
        ),
        option_json(Some(more)) == Json::Text(more),
        option_json(None) == Json::Null,
{
    assert(texts_json(seq![])->Array_0 =~= seq![]);
    assert(texts_json(t.push(more))->Array_0 =~= texts_json(t)->Array_0.push(Json::Text(more)));
    assert(formats_json(seq![])->Array_0 =~= seq![]);
    assert(formats_json(fs.push(f))->Array_0 =~= formats_json(fs)->Array_0.push(f.json()));
    assert(adapters_json(seq![])->Array_0 =~= seq![]);
    assert(adapters_json(adapters.push(a))->Array_0 =~= adapters_json(adapters)->Array_0.push(
        a.json(),
    ));
}

} // verus!
