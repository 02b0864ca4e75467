//! The paths of differences: no two differences of a comparison lie at the same path.
use crate::caps::{
    binding_fields, buffer_fields, compute_fields, limit_fields, mesh_fields, ray_fields,
    texture_fields, Limits,
};
use crate::compare::{adapters_json, formats_json, lemma_report_well_formed, texts_json};
use crate::diff::{
    all_keys, changes, field_path, item_changes, item_path, key_changes,
    law_keys_are_the_sorted_union, one_key, Change,
};
use crate::json::{
    at_key, has_key, in_key_order, law_object_fields, object, well_formed, Field, Json,
};
use crate::model::{AdapterView, DownlevelView, FormatView, ReportView};
use crate::number::{decimal, digits_value, law_decimal_reads_back};
use crate::text::{lemma_text_order_total, text_less};
use vstd::prelude::*;

verus! {

/// Does the character begin a further step of a path?
pub open spec fn begins_step(c: char) -> bool {
    c == '.' || c == '['
}

/// Is the key one step of a path: not empty, and without a character that begins a further one?
pub open spec fn is_step(key: Seq<char>) -> bool {
    key.len() > 0 && forall|i: int| 0 <= i < key.len() ==> !begins_step(#[trigger] key[i])
}

/// Is every key in `j` one step of a path?
pub open spec fn keys_are_steps(j: Json) -> bool
    decreases j,
{
    match j {
        Json::Array(a) => forall|i: int| 0 <= i < a.len() ==> keys_are_steps(#[trigger] a[i]),
        Json::Object(o) => forall|i: int|
            0 <= i < o.len() ==> is_step((#[trigger] o[i]).0) && keys_are_steps(o[i].1),
        _ => true,
    }
}

/// Is `p` the path `base`, or one that goes on from it by a further step?
pub open spec fn goes_on(base: Seq<char>, p: Seq<char>) -> bool {
    &&& base.len() <= p.len()
    &&& p.subrange(0, base.len() as int) == base
    &&& p.len() == base.len() || begins_step(p[base.len() as int])
}

/// Do all differences lie at `base`, or where a path goes on from it?
pub open spec fn all_go_on(base: Seq<char>, cs: Seq<Change>) -> bool {
    forall|i: int| 0 <= i < cs.len() ==> goes_on(base, (#[trigger] cs[i]).path())
}

/// Do any two of the differences lie at different paths?
pub open spec fn paths_distinct(cs: Seq<Change>) -> bool {
    forall|i: int, j: int|
        0 <= i < j < cs.len() ==> (#[trigger] cs[i]).path() != (#[trigger] cs[j]).path()
}

/// What goes on from a step goes on from where the step was taken.
proof fn lemma_step_on(base: Seq<char>, child: Seq<char>, cs: Seq<Change>)
    requires
        base.len() < child.len(),
        child.subrange(0, base.len() as int) == base,
        begins_step(child[base.len() as int]),
        all_go_on(child, cs),
    ensures
        all_go_on(base, cs),
{
    assert forall|i: int| 0 <= i < cs.len() implies goes_on(base, (#[trigger] cs[i]).path()) by {
        let p = cs[i].path();
        assert(goes_on(child, p));
        assert(p.subrange(0, base.len() as int) =~= p.subrange(0, child.len() as int).subrange(
            0,
            base.len() as int,
        ));
        assert(p.subrange(0, child.len() as int)[base.len() as int] == p[base.len() as int]);
    }
}

/// The differences of two lists that agree on a base.
proof fn lemma_go_on_sum(base: Seq<char>, a: Seq<Change>, b: Seq<Change>)
    requires
        all_go_on(base, a),
        all_go_on(base, b),
    ensures
        all_go_on(base, a + b),
{
    assert forall|i: int| 0 <= i < (a + b).len() implies goes_on(
        base,
        (#[trigger] (a + b)[i]).path(),
    ) by {
        if i < a.len() {
            assert((a + b)[i] == a[i]);
        } else {
            assert((a + b)[i] == b[i - a.len()]);
        }
    }
}

/// Lists of distinct paths that meet nowhere make one list of distinct paths.
proof fn lemma_distinct_sum(a: Seq<Change>, b: Seq<Change>)
    requires
        paths_distinct(a),
        paths_distinct(b),
        forall|i: int, j: int|
            0 <= i < a.len() && 0 <= j < b.len() ==> (#[trigger] a[i]).path() != (
            #[trigger] b[j]).path(),
    ensures
        paths_distinct(a + b),
{
    let c = a + b;
    assert forall|i: int, j: int| 0 <= i < j < c.len() implies (#[trigger] c[i]).path() != (
    #[trigger] c[j]).path() by {
        if j < a.len() {
            assert(c[i] == a[i] && c[j] == a[j]);
        } else if i < a.len() {
            assert(c[i] == a[i] && c[j] == b[j - a.len()]);
        } else {
            assert(c[i] == b[i - a.len()] && c[j] == b[j - a.len()]);
        }
    }
}

/// From different keys no path goes on to the same place.
proof fn lemma_keys_part(path: Seq<char>, k: Seq<char>, l: Seq<char>, p: Seq<char>)
    requires
        is_step(k),
        is_step(l),
        goes_on(field_path(path, k), p),
        goes_on(field_path(path, l), p),
    ensures
        k == l,
{
    reveal_strlit(".");
    let at: int = if path.len() == 0 {
        0
    } else {
        path.len() as int + 1
    };
    let fk = field_path(path, k);
    let fl = field_path(path, l);
    assert(fk.len() == at + k.len() && fl.len() == at + l.len());
    assert forall|i: int| 0 <= i < k.len() implies p[at + i] == #[trigger] k[i] by {
        assert(p.subrange(0, fk.len() as int)[at + i] == fk[at + i]);
    }
    assert forall|i: int| 0 <= i < l.len() implies p[at + i] == #[trigger] l[i] by {
        assert(p.subrange(0, fl.len() as int)[at + i] == fl[at + i]);
    }
    if k.len() < l.len() {
        assert(p[at + k.len()] == l[k.len() as int]);
        assert(!begins_step(l[k.len() as int]));
    } else if l.len() < k.len() {
        assert(p[at + l.len()] == k[l.len() as int]);
        assert(!begins_step(k[l.len() as int]));
    } else {
        assert forall|i: int| 0 <= i < k.len() implies k[i] == l[i] by {
            assert(p[at + i] == k[i]);
            assert(p[at + i] == l[i]);
        }
        assert(k =~= l);
    }
}

/// From different elements no path goes on to the same place.
proof fn lemma_items_part(path: Seq<char>, i: nat, j: nat, p: Seq<char>)
    requires
        goes_on(item_path(path, i), p),
        goes_on(item_path(path, j), p),
    ensures
        i == j,
{
    reveal_strlit("[");
    reveal_strlit("]");
    law_decimal_reads_back(i);
    law_decimal_reads_back(j);
    let a = decimal(i);
    let b = decimal(j);
    let pa = item_path(path, i);
    let pb = item_path(path, j);
    let at: int = path.len() as int + 1;
    assert(pa.len() == at + a.len() + 1 && pb.len() == at + b.len() + 1);
    assert forall|k: int| 0 <= k < a.len() implies p[at + k] == #[trigger] a[k] by {
        assert(p.subrange(0, pa.len() as int)[at + k] == pa[at + k]);
    }
    assert forall|k: int| 0 <= k < b.len() implies p[at + k] == #[trigger] b[k] by {
        assert(p.subrange(0, pb.len() as int)[at + k] == pb[at + k]);
    }
    assert(p.subrange(0, pa.len() as int)[at + a.len()] == pa[at + a.len()]);
    assert(p.subrange(0, pb.len() as int)[at + b.len()] == pb[at + b.len()]);
    assert(p[(at + a.len()) as int] == ']' && p[(at + b.len()) as int] == ']');
    if a.len() < b.len() {
        assert(p[at + a.len()] == b[a.len() as int]);
    } else if b.len() < a.len() {
        assert(p[at + b.len()] == a[b.len() as int]);
    } else {
        assert forall|k: int| 0 <= k < a.len() implies a[k] == b[k] by {
            assert(p[at + k] == a[k]);
            assert(p[at + k] == b[k]);
        }
        assert(a =~= b);
        assert(digits_value(a) == digits_value(b));
    }
}

/// Where the differences of two values are, below a path.
proof fn lemma_paths(path: Seq<char>, a: Json, b: Json)
    requires
        keys_are_steps(a),
        keys_are_steps(b),
        well_formed(a),
        well_formed(b),
    ensures
        paths_distinct(changes(path, a, b)),
        path.len() > 0 ==> all_go_on(path, changes(path, a, b)),
    decreases a, 0nat,
{
    assert(path.subrange(0, path.len() as int) =~= path);
    match (a, b) {
        (Json::Object(oa), Json::Object(ob)) => {
            let keys = all_keys(oa, ob);
            lemma_key_paths(path, oa, ob, keys.len());
        },
        (Json::Array(aa), Json::Array(ab)) => lemma_item_paths(path, aa, ab, 0),
        _ => {},
    }
}

/// Does every difference go on from one of the first `n` of `keys`?
spec fn from_keys(path: Seq<char>, keys: Seq<Seq<char>>, n: nat, cs: Seq<Change>) -> bool {
    forall|i: int|
        0 <= i < cs.len() ==> exists|m: int|
            0 <= m < n && goes_on(field_path(path, #[trigger] keys[m]), (#[trigger] cs[i]).path())
}

proof fn lemma_key_paths(path: Seq<char>, oa: Seq<Field>, ob: Seq<Field>, n: nat)
    requires
        n <= all_keys(oa, ob).len(),
        forall|i: int|
            0 <= i < oa.len() ==> is_step((#[trigger] oa[i]).0) && keys_are_steps(oa[i].1)
                && well_formed(oa[i].1),
        forall|i: int|
            0 <= i < ob.len() ==> is_step((#[trigger] ob[i]).0) && keys_are_steps(ob[i].1)
                && well_formed(ob[i].1),
    ensures
        paths_distinct(key_changes(path, oa, ob, all_keys(oa, ob), n)),
        from_keys(path, all_keys(oa, ob), n, key_changes(path, oa, ob, all_keys(oa, ob), n)),
        path.len() > 0 ==> all_go_on(path, key_changes(path, oa, ob, all_keys(oa, ob), n)),
    decreases oa, n,
{
    let keys = all_keys(oa, ob);
    if n > 0 {
        let m = (n - 1) as nat;
        let key = keys[m as int];
        let child = field_path(path, key);
        let before = key_changes(path, oa, ob, keys, m);
        let here = one_key(path, oa, ob, key);
        lemma_key_paths(path, oa, ob, m);
        law_keys_are_the_sorted_union(oa, ob);
        reveal_strlit(".");
        assert(is_step(key)) by {
            assert(has_key(oa, keys[m as int]) || has_key(ob, keys[m as int]));
            if has_key(oa, key) {
                assert(oa[at_key(oa, key)].0 == key);
            } else {
                assert(ob[at_key(ob, key)].0 == key);
            }
        }
        assert(child.subrange(0, child.len() as int) =~= child);
        if has_key(oa, key) && has_key(ob, key) {
            let p = at_key(oa, key);
            let q = at_key(ob, key);
            assert(0 <= p < oa.len() && 0 <= q < ob.len());
            assert(decreases_to!(oa => oa[p]));
            assert(decreases_to!(oa[p] => oa[p].1));
            lemma_paths(child, oa[p].1, ob[q].1);
        }
        assert(paths_distinct(here));
        assert(all_go_on(child, here));
        assert forall|i: int, j: int| 0 <= i < before.len() && 0 <= j < here.len() implies (
        #[trigger] before[i]).path() != (#[trigger] here[j]).path() by {
            let k = choose|k: int|
                0 <= k < m && goes_on(field_path(path, #[trigger] keys[k]), before[i].path());
            assert(text_less(keys[k], keys[m as int]));
            lemma_text_order_total(keys[k], key);
            assert(is_step(keys[k])) by {
                assert(has_key(oa, keys[k]) || has_key(ob, keys[k]));
                if has_key(oa, keys[k]) {
                    assert(oa[at_key(oa, keys[k])].0 == keys[k]);
                } else {
                    assert(ob[at_key(ob, keys[k])].0 == keys[k]);
                }
            }
            if before[i].path() == here[j].path() {
                assert(goes_on(child, here[j].path()));
                lemma_keys_part(path, keys[k], key, here[j].path());
            }
        }
        lemma_distinct_sum(before, here);
        let all = before + here;
        assert(key_changes(path, oa, ob, keys, n) == all);
        assert forall|i: int| 0 <= i < all.len() implies exists|k: int|
            0 <= k < n && goes_on(field_path(path, #[trigger] keys[k]), (#[trigger] all[i]).path()) by {
            if i < before.len() {
                assert(all[i] == before[i]);
                let k = choose|k: int|
                    0 <= k < m && goes_on(field_path(path, #[trigger] keys[k]), before[i].path());
                assert(goes_on(field_path(path, keys[k]), all[i].path()));
            } else {
                assert(all[i] == here[i - before.len()]);
                assert(goes_on(field_path(path, keys[m as int]), all[i].path()));
            }
        }
        if path.len() > 0 {
            assert(child.subrange(0, path.len() as int) =~= path);
            assert(child[path.len() as int] == '.');
            lemma_step_on(path, child, here);
            lemma_go_on_sum(path, before, here);
        }
    }
}

/// Does `p` go on from an element at `n` or later?
spec fn from_item(path: Seq<char>, n: nat, p: Seq<char>) -> bool {
    exists|m: nat| n <= m && goes_on(#[trigger] item_path(path, m), p)
}

/// Does every difference go on from an element at `n` or later?
spec fn from_items(path: Seq<char>, n: nat, cs: Seq<Change>) -> bool {
    forall|i: int| 0 <= i < cs.len() ==> from_item(path, n, (#[trigger] cs[i]).path())
}

proof fn lemma_item_paths(path: Seq<char>, aa: Seq<Json>, ab: Seq<Json>, n: nat)
    requires
        forall|i: int|
            0 <= i < aa.len() ==> keys_are_steps(#[trigger] aa[i]) && well_formed(aa[i]),
        forall|i: int|
            0 <= i < ab.len() ==> keys_are_steps(#[trigger] ab[i]) && well_formed(ab[i]),
    ensures
        paths_distinct(item_changes(path, aa, ab, n)),
        from_items(path, n, item_changes(path, aa, ab, n)),
        all_go_on(path, item_changes(path, aa, ab, n)),
    decreases aa, aa.len() + ab.len() - n,
{
    if n < aa.len() || n < ab.len() {
        let child = item_path(path, n);
        let rest = item_changes(path, aa, ab, n + 1);
        let here = if n >= ab.len() {
            seq![Change::Removed(child, aa[n as int])]
        } else if n >= aa.len() {
            seq![Change::Added(child, ab[n as int])]
        } else {
            changes(child, aa[n as int], ab[n as int])
        };
        reveal_strlit("[");
        lemma_item_paths(path, aa, ab, n + 1);
        assert(child.subrange(0, child.len() as int) =~= child);
        if n < aa.len() && n < ab.len() {
            lemma_paths(child, aa[n as int], ab[n as int]);
        }
        assert(paths_distinct(here));
        assert(all_go_on(child, here));
        assert forall|i: int, j: int| 0 <= i < here.len() && 0 <= j < rest.len() implies (
        #[trigger] here[i]).path() != (#[trigger] rest[j]).path() by {
            assert(from_item(path, n + 1, rest[j].path()));
            let m = choose|m: nat|
                n + 1 <= m && goes_on(#[trigger] item_path(path, m), rest[j].path());
            if here[i].path() == rest[j].path() {
                assert(goes_on(child, here[i].path()));
                lemma_items_part(path, n, m, here[i].path());
            }
        }
        lemma_distinct_sum(here, rest);
        let all = here + rest;
        assert(item_changes(path, aa, ab, n) == all);
        assert forall|i: int| 0 <= i < all.len() implies from_item(
            path,
            n,
            (#[trigger] all[i]).path(),
        ) by {
            if i < here.len() {
                assert(all[i] == here[i]);
                assert(goes_on(item_path(path, n), all[i].path()));
            } else {
                assert(all[i] == rest[i - here.len()]);
                assert(from_item(path, n + 1, all[i].path()));
                let m = choose|m: nat|
                    n + 1 <= m && goes_on(#[trigger] item_path(path, m), all[i].path());
                assert(goes_on(item_path(path, m), all[i].path()));
            }
        }
        assert(child.subrange(0, path.len() as int) =~= path);
        assert(child[path.len() as int] == '[');
        lemma_step_on(path, child, here);
        lemma_go_on_sum(path, here, rest);
    }
}

/// No two differences lie at the same path, where no key is empty or holds a dot or an opening
/// bracket, which would read as further steps.
pub proof fn law_no_path_twice(path: Seq<char>, a: Json, b: Json)
    requires
        well_formed(a),
        well_formed(b),
        keys_are_steps(a),
        keys_are_steps(b),
    ensures
        paths_distinct(changes(path, a, b)),
{
    lemma_paths(path, a, b);
}

// ---------------------------------------------------------------------------
// Reports
// ---------------------------------------------------------------------------

/// Is every name of `s`, and every key in its values, one step of a path?
#[verifier::opaque]
pub open spec fn all_steps(s: Seq<Field>) -> bool {
    forall|i: int| 0 <= i < s.len() ==> is_step((#[trigger] s[i]).0) && keys_are_steps(s[i].1)
}

/// No fields have no names.
proof fn lemma_no_steps()
    ensures
        all_steps(Seq::empty()),
{
    reveal(all_steps);
}

/// Fields have such names when the first ones and the last one have.
broadcast proof fn lemma_steps_push(s: Seq<Field>, f: Field)
    ensures
        #[trigger] all_steps(s.push(f)) <==> all_steps(s) && is_step(f.0) && keys_are_steps(f.1),
{
    reveal(all_steps);
    let t = s.push(f);
    if all_steps(t) {
        assert forall|i: int| 0 <= i < s.len() implies is_step((#[trigger] s[i]).0)
            && keys_are_steps(s[i].1) by {
            assert(t[i] == s[i]);
        }
        assert(t[s.len() as int] == f);
    }
}

/// An object made of such fields has such keys.
proof fn lemma_object_steps(fs: Seq<Field>)
    requires
        all_steps(fs),
    ensures
        keys_are_steps(object(fs)),
{
    reveal(all_steps);
    law_object_fields(fs);
    let all = in_key_order(fs);
    assert forall|i: int| 0 <= i < all.len() implies is_step((#[trigger] all[i]).0)
        && keys_are_steps(all[i].1) by {
        let k = choose|k: int| 0 <= k < fs.len() && fs[k] == all[i];
        assert(fs[k] == all[i]);
    }
}

proof fn lemma_texture_steps(s: Seq<Field>, l: Limits)
    requires
        all_steps(s),
    ensures
        all_steps(texture_fields(s, l)),
{
    broadcast use lemma_steps_push;

    assert(is_step("maxTextureDimension1D"@)) by {
        reveal_strlit("maxTextureDimension1D");
    }
    assert(is_step("maxTextureDimension2D"@)) by {
        reveal_strlit("maxTextureDimension2D");
    }
    assert(is_step("maxTextureDimension3D"@)) by {
        reveal_strlit("maxTextureDimension3D");
    }
    assert(is_step("maxTextureArrayLayers"@)) by {
        reveal_strlit("maxTextureArrayLayers");
    }
}

proof fn lemma_binding_steps(s: Seq<Field>, l: Limits)
    requires
        all_steps(s),
    ensures
        all_steps(binding_fields(s, l)),
{
    broadcast use lemma_steps_push;

    assert(is_step("maxBindGroups"@)) by {
        reveal_strlit("maxBindGroups");
    }
    assert(is_step("maxBindGroupsPlusVertexBuffers"@)) by {
        reveal_strlit("maxBindGroupsPlusVertexBuffers");
    }
    assert(is_step("maxBindingsPerBindGroup"@)) by {
        reveal_strlit("maxBindingsPerBindGroup");
    }
    assert(is_step("maxDynamicUniformBuffersPerPipelineLayout"@)) by {
        reveal_strlit("maxDynamicUniformBuffersPerPipelineLayout");
    }
    assert(is_step("maxDynamicStorageBuffersPerPipelineLayout"@)) by {
        reveal_strlit("maxDynamicStorageBuffersPerPipelineLayout");
    }
    assert(is_step("maxSampledTexturesPerShaderStage"@)) by {
        reveal_strlit("maxSampledTexturesPerShaderStage");
    }
    assert(is_step("maxSamplersPerShaderStage"@)) by {
        reveal_strlit("maxSamplersPerShaderStage");
    }
    assert(is_step("maxStorageBuffersPerShaderStage"@)) by {
        reveal_strlit("maxStorageBuffersPerShaderStage");
    }
    assert(is_step("maxStorageTexturesPerShaderStage"@)) by {
        reveal_strlit("maxStorageTexturesPerShaderStage");
    }
    assert(is_step("maxUniformBuffersPerShaderStage"@)) by {
        reveal_strlit("maxUniformBuffersPerShaderStage");
    }
    assert(is_step("maxBindingArrayElementsPerShaderStage"@)) by {
        reveal_strlit("maxBindingArrayElementsPerShaderStage");
    }
    assert(is_step("maxBindingArrayAccelerationStructureElementsPerShaderStage"@)) by {
        reveal_strlit("maxBindingArrayAccelerationStructureElementsPerShaderStage");
    }
    assert(is_step("maxBindingArraySamplerElementsPerShaderStage"@)) by {
        reveal_strlit("maxBindingArraySamplerElementsPerShaderStage");
    }
}

proof fn lemma_buffer_steps(s: Seq<Field>, l: Limits)
    requires
        all_steps(s),
    ensures
        all_steps(buffer_fields(s, l)),
{
    broadcast use lemma_steps_push;

    assert(is_step("maxUniformBufferBindingSize"@)) by {
        reveal_strlit("maxUniformBufferBindingSize");
    }
    assert(is_step("maxStorageBufferBindingSize"@)) by {
        reveal_strlit("maxStorageBufferBindingSize");
    }
    assert(is_step("maxVertexBuffers"@)) by {
        reveal_strlit("maxVertexBuffers");
    }
    assert(is_step("maxBufferSize"@)) by {
        reveal_strlit("maxBufferSize");
    }
    assert(is_step("maxVertexAttributes"@)) by {
        reveal_strlit("maxVertexAttributes");
    }
    assert(is_step("maxVertexBufferArrayStride"@)) by {
        reveal_strlit("maxVertexBufferArrayStride");
    }
    assert(is_step("maxInterStageShaderVariables"@)) by {
        reveal_strlit("maxInterStageShaderVariables");
    }
    assert(is_step("minUniformBufferOffsetAlignment"@)) by {
        reveal_strlit("minUniformBufferOffsetAlignment");
    }
    assert(is_step("minStorageBufferOffsetAlignment"@)) by {
        reveal_strlit("minStorageBufferOffsetAlignment");
    }
    assert(is_step("maxColorAttachments"@)) by {
        reveal_strlit("maxColorAttachments");
    }
    assert(is_step("maxColorAttachmentBytesPerSample"@)) by {
        reveal_strlit("maxColorAttachmentBytesPerSample");
    }
}

proof fn lemma_compute_steps(s: Seq<Field>, l: Limits)
    requires
        all_steps(s),
    ensures
        all_steps(compute_fields(s, l)),
{
    broadcast use lemma_steps_push;

    assert(is_step("maxComputeWorkgroupStorageSize"@)) by {
        reveal_strlit("maxComputeWorkgroupStorageSize");
    }
    assert(is_step("maxComputeInvocationsPerWorkgroup"@)) by {
        reveal_strlit("maxComputeInvocationsPerWorkgroup");
    }
    assert(is_step("maxComputeWorkgroupSizeX"@)) by {
        reveal_strlit("maxComputeWorkgroupSizeX");
    }
    assert(is_step("maxComputeWorkgroupSizeY"@)) by {
        reveal_strlit("maxComputeWorkgroupSizeY");
    }
    assert(is_step("maxComputeWorkgroupSizeZ"@)) by {
        reveal_strlit("maxComputeWorkgroupSizeZ");
    }
    assert(is_step("maxComputeWorkgroupsPerDimension"@)) by {
        reveal_strlit("maxComputeWorkgroupsPerDimension");
    }
    assert(is_step("maxImmediateSize"@)) by {
        reveal_strlit("maxImmediateSize");
    }
    assert(is_step("maxNonSamplerBindings"@)) by {
        reveal_strlit("maxNonSamplerBindings");
    }
}

proof fn lemma_mesh_steps(s: Seq<Field>, l: Limits)
    requires
        all_steps(s),
    ensures
        all_steps(mesh_fields(s, l)),
{
    broadcast use lemma_steps_push;

    assert(is_step("maxTaskWorkgroupTotalCount"@)) by {
        reveal_strlit("maxTaskWorkgroupTotalCount");
    }
    assert(is_step("maxTaskWorkgroupsPerDimension"@)) by {
        reveal_strlit("maxTaskWorkgroupsPerDimension");
    }
    assert(is_step("maxMeshWorkgroupTotalCount"@)) by {
        reveal_strlit("maxMeshWorkgroupTotalCount");
    }
    assert(is_step("maxMeshWorkgroupsPerDimension"@)) by {
        reveal_strlit("maxMeshWorkgroupsPerDimension");
    }
    assert(is_step("maxTaskInvocationsPerWorkgroup"@)) by {
        reveal_strlit("maxTaskInvocationsPerWorkgroup");
    }
    assert(is_step("maxTaskInvocationsPerDimension"@)) by {
        reveal_strlit("maxTaskInvocationsPerDimension");
    }
    assert(is_step("maxMeshInvocationsPerWorkgroup"@)) by {
        reveal_strlit("maxMeshInvocationsPerWorkgroup");
    }
    assert(is_step("maxMeshInvocationsPerDimension"@)) by {
        reveal_strlit("maxMeshInvocationsPerDimension");
    }
    assert(is_step("maxTaskPayloadSize"@)) by {
        reveal_strlit("maxTaskPayloadSize");
    }
    assert(is_step("maxMeshOutputVertices"@)) by {
        reveal_strlit("maxMeshOutputVertices");
    }
    assert(is_step("maxMeshOutputPrimitives"@)) by {
        reveal_strlit("maxMeshOutputPrimitives");
    }
    assert(is_step("maxMeshOutputLayers"@)) by {
        reveal_strlit("maxMeshOutputLayers");
    }
    assert(is_step("maxMeshMultiviewViewCount"@)) by {
        reveal_strlit("maxMeshMultiviewViewCount");
    }
}

proof fn lemma_ray_steps(s: Seq<Field>, l: Limits)
    requires
        all_steps(s),
    ensures
        all_steps(ray_fields(s, l)),
{
    broadcast use lemma_steps_push;

    assert(is_step("maxBlasPrimitiveCount"@)) by {
        reveal_strlit("maxBlasPrimitiveCount");
    }
    assert(is_step("maxBlasGeometryCount"@)) by {
        reveal_strlit("maxBlasGeometryCount");
    }
    assert(is_step("maxTlasInstanceCount"@)) by {
        reveal_strlit("maxTlasInstanceCount");
    }
    assert(is_step("maxAccelerationStructuresPerShaderStage"@)) by {
        reveal_strlit("maxAccelerationStructuresPerShaderStage");
    }
    assert(is_step("maxBuffersAndAccelerationStructuresPerShaderStage"@)) by {
        reveal_strlit("maxBuffersAndAccelerationStructuresPerShaderStage");
    }
    assert(is_step("maxMultiviewViewCount"@)) by {
        reveal_strlit("maxMultiviewViewCount");
    }
    assert(is_step("maxRayDispatchCount"@)) by {
        reveal_strlit("maxRayDispatchCount");
    }
    assert(is_step("maxRayRecursionDepth"@)) by {
        reveal_strlit("maxRayRecursionDepth");
    }
}

proof fn lemma_limits_steps(l: Limits)
    ensures
        keys_are_steps(l.json()),
{
    lemma_no_steps();
    let s = texture_fields(Seq::empty(), l);
    lemma_texture_steps(Seq::empty(), l);
    lemma_binding_steps(s, l);
    let s = binding_fields(s, l);
    lemma_buffer_steps(s, l);
    let s = buffer_fields(s, l);
    lemma_compute_steps(s, l);
    let s = compute_fields(s, l);
    lemma_mesh_steps(s, l);
    let s = mesh_fields(s, l);
    lemma_ray_steps(s, l);
    lemma_object_steps(limit_fields(l));
}

proof fn lemma_texts_steps(t: Seq<Seq<char>>)
    ensures
        keys_are_steps(texts_json(t)),
{
    let list = Seq::new(t.len(), |i: int| Json::Text(t[i]));
    assert forall|i: int| 0 <= i < list.len() implies keys_are_steps(#[trigger] list[i]) by {
        assert(list[i] == Json::Text(t[i]));
    }
}

proof fn lemma_format_steps(v: FormatView)
    ensures
        keys_are_steps(v.json()),
{
    broadcast use lemma_steps_push;

    lemma_no_steps();
    lemma_texts_steps(v.allowed_usages);
    lemma_texts_steps(v.flags);
    assert(is_step("format"@)) by {
        reveal_strlit("format");
    }
    assert(is_step("allowed_usages"@)) by {
        reveal_strlit("allowed_usages");
    }
    assert(is_step("flags"@)) by {
        reveal_strlit("flags");
    }
    lemma_object_steps(v.fields());
}

proof fn lemma_downlevel_steps(v: DownlevelView)
    ensures
        keys_are_steps(v.json()),
{
    broadcast use lemma_steps_push;

    lemma_no_steps();
    lemma_texts_steps(v.flags);
    assert(is_step("is_webgpu_compliant"@)) by {
        reveal_strlit("is_webgpu_compliant");
    }
    assert(is_step("shader_model"@)) by {
        reveal_strlit("shader_model");
    }
    assert(is_step("flags"@)) by {
        reveal_strlit("flags");
    }
    lemma_object_steps(v.fields());
}

proof fn lemma_adapter_steps(v: AdapterView)
    ensures
        keys_are_steps(v.json()),
{
    broadcast use lemma_steps_push;

    lemma_no_steps();
    lemma_texts_steps(v.features);
    lemma_limits_steps(v.limits);
    lemma_downlevel_steps(v.downlevel);
    assert(keys_are_steps(formats_json(v.texture_formats))) by {
        let list = Seq::new(v.texture_formats.len(), |i: int| v.texture_formats[i].json());
        assert forall|i: int| 0 <= i < list.len() implies keys_are_steps(#[trigger] list[i]) by {
            lemma_format_steps(v.texture_formats[i]);
        }
    }
    assert(is_step("name"@)) by {
        reveal_strlit("name");
    }
    assert(is_step("backend"@)) by {
        reveal_strlit("backend");
    }
    assert(is_step("device_type"@)) by {
        reveal_strlit("device_type");
    }
    assert(is_step("vendor"@)) by {
        reveal_strlit("vendor");
    }
    assert(is_step("vendor_name"@)) by {
        reveal_strlit("vendor_name");
    }
    assert(is_step("device"@)) by {
        reveal_strlit("device");
    }
    assert(is_step("pci_bus_id"@)) by {
        reveal_strlit("pci_bus_id");
    }
    assert(is_step("driver"@)) by {
        reveal_strlit("driver");
    }
    assert(is_step("driver_info"@)) by {
        reveal_strlit("driver_info");
    }
    assert(is_step("subgroup_min_size"@)) by {
        reveal_strlit("subgroup_min_size");
    }
    assert(is_step("subgroup_max_size"@)) by {
        reveal_strlit("subgroup_max_size");
    }
    assert(is_step("features"@)) by {
        reveal_strlit("features");
    }
    assert(is_step("limits"@)) by {
        reveal_strlit("limits");
    }
    assert(is_step("downlevel"@)) by {
        reveal_strlit("downlevel");
    }
    assert(is_step("texture_formats"@)) by {
        reveal_strlit("texture_formats");
    }
    lemma_object_steps(v.fields());
}

proof fn lemma_report_steps(v: ReportView)
    ensures
        keys_are_steps(v.json()),
{
    broadcast use lemma_steps_push;

    lemma_no_steps();
    lemma_texts_steps(v.backends_requested);
    assert(keys_are_steps(adapters_json(v.adapters))) by {
        let list = Seq::new(v.adapters.len(), |i: int| v.adapters[i].json());
        assert forall|i: int| 0 <= i < list.len() implies keys_are_steps(#[trigger] list[i]) by {
            lemma_adapter_steps(v.adapters[i]);
        }
    }
    assert(is_step("wgpu_info_version"@)) by {
        reveal_strlit("wgpu_info_version");
    }
    assert(is_step("wgpu_version"@)) by {
        reveal_strlit("wgpu_version");
    }
    assert(is_step("backends_requested"@)) by {
        reveal_strlit("backends_requested");
    }
    assert(is_step("adapters"@)) by {
        reveal_strlit("adapters");
    }
    lemma_object_steps(v.fields());
}

/// No two differences of a comparison of reports lie at the same path.
pub proof fn law_no_path_twice_in_reports(a: ReportView, b: ReportView)
    ensures
        paths_distinct(changes(Seq::empty(), a.json(), b.json())),
{
    lemma_report_well_formed(a);
    lemma_report_well_formed(b);
    lemma_report_steps(a);
    lemma_report_steps(b);
    law_no_path_twice(Seq::empty(), a.json(), b.json());
}

} // verus!
