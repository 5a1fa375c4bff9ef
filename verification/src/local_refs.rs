//! Local refs phase.
//!
//! The local references declared on elements, containers and templates
//! (`<div #name>`, `<div #name="target">`) go into the component's constant
//! pool, each operation's references as one flat array
//! `[name1, target1, name2, target2, ...]` (an empty target for the element
//! itself). Each operation then records the index of its array.

use vstd::prelude::*;
use rustc_hash::FxHashMap;
use crate::fx::{fx_map_get, fx_map_insert, fx_map_new};
use crate::ir::{ComponentCompilationJob, ConstValue, CreateOp, LocalRef, SlotOp, TemplateOp, ViewCompilationUnit};

verus! {

/// The id and the local references of an operation that can declare them.
pub open spec fn refs_entry(op: CreateOp) -> Option<(u32, Seq<LocalRef>)> {
    match op {
        CreateOp::ElementStart(e) | CreateOp::Element(e) | CreateOp::ContainerStart(e) | CreateOp::Container(e) =>
            Some((e.xref.0, e.local_refs@)),
        CreateOp::Template(t) | CreateOp::Conditional(t) | CreateOp::ConditionalBranch(t) =>
            Some((t.xref.0, t.local_refs@)),
        _ => None,
    }
}

/// The ids and references of the first `k` operations that declare at least
/// one local reference, in order.
pub open spec fn ref_ops(c: Seq<CreateOp>, k: int) -> Seq<(u32, Seq<LocalRef>)>
    decreases k,
{
    if k <= 0 {
        seq![]
    } else {
        let p = ref_ops(c, k - 1);
        match refs_entry(c[k - 1]) {
            Some(e) => if e.1.len() > 0 { p.push(e) } else { p },
            None => p,
        }
    }
}

/// The entries of the views before `i`, in order.
pub open spec fn views_ref_entries(vs: Seq<ViewCompilationUnit>, i: int) -> Seq<(u32, Seq<LocalRef>)>
    decreases i,
{
    if i <= 0 {
        seq![]
    } else {
        views_ref_entries(vs, i - 1) + ref_ops(vs[i - 1].create@, vs[i - 1].create@.len() as int)
    }
}

/// The entries of a job: the root view's first, then those of the views in order.
pub open spec fn job_ref_entries(job: ComponentCompilationJob) -> Seq<(u32, Seq<LocalRef>)> {
    ref_ops(job.root.create@, job.root.create@.len() as int) + views_ref_entries(job.views@, job.views@.len() as int)
}

/// The constant index of each id: entry `j` goes to index `c0 + j`; a later
/// entry of the same id wins.
pub open spec fn index_map(e: Seq<(u32, Seq<LocalRef>)>, c0: nat) -> Map<u32, u32>
    decreases e.len(),
{
    if e.len() == 0 {
        Map::empty()
    } else {
        index_map(e.drop_last(), c0).insert(e.last().0, (c0 + e.len() - 1) as u32)
    }
}

/// Whether `a` is the flat array `[name1, target1, name2, target2, ...]` of `refs`.
pub open spec fn serializes(a: Seq<ConstValue>, refs: Seq<LocalRef>) -> bool {
    &&& a.len() == 2 * refs.len()
    &&& forall|i: int|
        0 <= i < refs.len() ==> {
            &&& (#[trigger] a[2 * i]) matches ConstValue::String(n) && n@ == refs[i].name@
            &&& a[2 * i + 1] matches ConstValue::String(t) && t@ == refs[i].target@
        }
}

/// Whether the constants from `c0` on are the arrays of the entries `e`.
pub open spec fn consts_hold(consts: Seq<ConstValue>, c0: nat, e: Seq<(u32, Seq<LocalRef>)>) -> bool {
    &&& consts.len() == c0 + e.len()
    &&& forall|j: int|
        0 <= j < e.len() ==> ((#[trigger] consts[c0 + j]) matches ConstValue::Array(a) && serializes(a@, e[j].1))
}

/// The operation with the index of its references' array recorded, when `m` has one for its id.
pub open spec fn with_refs_index(op: CreateOp, m: Map<u32, u32>) -> CreateOp {
    match op {
        CreateOp::ElementStart(e) => if m.contains_key(e.xref.0) {
            CreateOp::ElementStart(SlotOp { local_refs_index: Some(m[e.xref.0]), ..e })
        } else {
            op
        },
        CreateOp::Element(e) => if m.contains_key(e.xref.0) {
            CreateOp::Element(SlotOp { local_refs_index: Some(m[e.xref.0]), ..e })
        } else {
            op
        },
        CreateOp::ContainerStart(e) => if m.contains_key(e.xref.0) {
            CreateOp::ContainerStart(SlotOp { local_refs_index: Some(m[e.xref.0]), ..e })
        } else {
            op
        },
        CreateOp::Container(e) => if m.contains_key(e.xref.0) {
            CreateOp::Container(SlotOp { local_refs_index: Some(m[e.xref.0]), ..e })
        } else {
            op
        },
        CreateOp::Template(t) => if m.contains_key(t.xref.0) {
            CreateOp::Template(TemplateOp { local_refs_index: Some(m[t.xref.0]), ..t })
        } else {
            op
        },
        CreateOp::Conditional(t) => if m.contains_key(t.xref.0) {
            CreateOp::Conditional(TemplateOp { local_refs_index: Some(m[t.xref.0]), ..t })
        } else {
            op
        },
        CreateOp::ConditionalBranch(t) => if m.contains_key(t.xref.0) {
            CreateOp::ConditionalBranch(TemplateOp { local_refs_index: Some(m[t.xref.0]), ..t })
        } else {
            op
        },
        _ => op,
    }
}

/// Whether the view `after` is `before` with the indices of `m` recorded.
pub open spec fn view_refs_lifted(before: ViewCompilationUnit, after: ViewCompilationUnit, m: Map<u32, u32>) -> bool {
    &&& after.create@.len() == before.create@.len()
    &&& forall|i: int|
        0 <= i < before.create@.len() ==> #[trigger] after.create@[i] == with_refs_index(before.create@[i], m)
    &&& after.update == before.update
    &&& after.functions == before.functions
    &&& after.xref == before.xref
    &&& after.decl_count == before.decl_count
}

/// Whether the job `after` is `before` with its local references lifted into
/// the constant pool.
pub open spec fn job_refs_lifted(before: ComponentCompilationJob, after: ComponentCompilationJob) -> bool {
    let e = job_ref_entries(before);
    let c0 = before.consts@.len();
    let m = index_map(e, c0);
    &&& consts_hold(after.consts@, c0, e)
    &&& forall|k: int| 0 <= k < c0 ==> #[trigger] after.consts@[k] == before.consts@[k]
    &&& view_refs_lifted(before.root, after.root, m)
    &&& after.views@.len() == before.views@.len()
    &&& forall|i: int| 0 <= i < before.views@.len() ==> view_refs_lifted(before.views@[i], #[trigger] after.views@[i], m)
    &&& after.diagnostics == before.diagnostics
    &&& after.next_xref == before.next_xref
    &&& after.compatibility_mode == before.compatibility_mode
    &&& after.mode == before.mode
    &&& after.enable_debug_locations == before.enable_debug_locations
    &&& after.relative_template_path == before.relative_template_path
    &&& after.template_source == before.template_source
}

/// The flat array of a list of local references.
fn serialize_local_refs(refs: &Vec<LocalRef>) -> (a: Vec<ConstValue>)
    ensures
        serializes(a@, refs@),
{
    let mut a: Vec<ConstValue> = Vec::new();
    let mut i: usize = 0;
    while i < refs.len()
        invariant
            i <= refs@.len(),
            a@.len() == 2 * i,
            forall|k: int|
                0 <= k < i ==> {
                    &&& (#[trigger] a@[2 * k]) matches ConstValue::String(n) && n@ == refs@[k].name@
                    &&& a@[2 * k + 1] matches ConstValue::String(t) && t@ == refs@[k].target@
                },
        decreases refs.len() - i,
    {
        a.push(ConstValue::String(refs[i].name.clone()));
        a.push(ConstValue::String(refs[i].target.clone()));
        assert(a@[2 * (i as int)] == a@[2 * i]);
        i = i + 1;
    }
    a
}

fn refs_of(op: &CreateOp) -> (r: Option<(u32, &Vec<LocalRef>)>)
    ensures
        match r {
            Some((x, refs)) => refs_entry(*op) == Some((x, refs@)),
            None => refs_entry(*op) is None,
        },
{
    match op {
        CreateOp::ElementStart(e) | CreateOp::Element(e) | CreateOp::ContainerStart(e) | CreateOp::Container(e) =>
            Some((e.xref.0, &e.local_refs)),
        CreateOp::Template(t) | CreateOp::Conditional(t) | CreateOp::ConditionalBranch(t) =>
            Some((t.xref.0, &t.local_refs)),
        _ => None,
    }
}

/// Adds the arrays of the local references of one view's operations to the
/// pool and records their indices.
fn lift_view_refs(
    create: &Vec<CreateOp>,
    consts: &mut Vec<ConstValue>,
    map: &mut FxHashMap<u32, u32>,
    Ghost(c0): Ghost<nat>,
    Ghost(e0): Ghost<Seq<(u32, Seq<LocalRef>)>>,
)
    requires
        consts_hold(old(consts)@, c0, e0),
        old(map)@ == index_map(e0, c0),
        c0 + e0.len() + ref_ops(create@, create@.len() as int).len() <= u32::MAX,
    ensures
        consts_hold(final(consts)@, c0, e0 + ref_ops(create@, create@.len() as int)),
        forall|k: int| 0 <= k < old(consts)@.len() ==> #[trigger] final(consts)@[k] == old(consts)@[k],
        final(map)@ == index_map(e0 + ref_ops(create@, create@.len() as int), c0),
{
    let ghost c = create@;
    let n = create.len();
    let mut i: usize = 0;
    proof {
        assert(e0 + ref_ops(c, 0) =~= e0);
        lemma_ref_ops_mono(c, 0, n as int);
    }
    while i < n
        invariant
            n == c.len(),
            c == create@,
            i <= n,
            c0 + e0.len() + ref_ops(c, n as int).len() <= u32::MAX,
            consts_hold(consts@, c0, e0 + ref_ops(c, i as int)),
            forall|k: int| 0 <= k < old(consts)@.len() ==> #[trigger] consts@[k] == old(consts)@[k],
            old(consts)@.len() == c0 + e0.len(),
            map@ == index_map(e0 + ref_ops(c, i as int), c0),
        decreases n - i,
    {
        let ghost e = e0 + ref_ops(c, i as int);
        proof {
            lemma_ref_ops_mono(c, i + 1, n as int);
        }
        match refs_of(&create[i]) {
            Some((x, refs)) => {
                if refs.len() > 0 {
                    let idx = consts.len() as u32;
                    let a = serialize_local_refs(refs);
                    let ghost before = consts@;
                    consts.push(ConstValue::Array(a));
                    fx_map_insert(map, x, idx);
                    proof {
                        let e1 = e0 + ref_ops(c, i + 1);
                        assert(e1 =~= e.push((x, refs@)));
                        assert(e1.drop_last() =~= e);
                        assert forall|j: int| 0 <= j < e1.len() implies ((#[trigger] consts@[c0 + j]) matches ConstValue::Array(
                            a,
                        ) && serializes(a@, e1[j].1)) by {
                            if j < e.len() {
                                assert(consts@[c0 + j] == before[c0 + j]);
                            }
                        }
                    }
                } else {
                    assert(e0 + ref_ops(c, i + 1) =~= e);
                }
            },
            None => {
                assert(e0 + ref_ops(c, i + 1) =~= e);
            },
        }
        i = i + 1;
    }
}

proof fn lemma_ref_ops_mono(c: Seq<CreateOp>, i: int, j: int)
    requires
        i <= j,
    ensures
        ref_ops(c, i).len() <= ref_ops(c, j).len(),
    decreases j - i,
{
    if i < j {
        lemma_ref_ops_mono(c, i, j - 1);
    }
}

proof fn lemma_views_entries_mono(vs: Seq<ViewCompilationUnit>, i: int, j: int)
    requires
        i <= j,
    ensures
        views_ref_entries(vs, i).len() <= views_ref_entries(vs, j).len(),
    decreases j - i,
{
    if i < j {
        lemma_views_entries_mono(vs, i, j - 1);
    }
}

/// Records the indices of `m` on the operations of one view.
fn record_view_indices(view: &mut ViewCompilationUnit, map: &FxHashMap<u32, u32>)
    ensures
        view_refs_lifted(*old(view), *final(view), map@),
{
    let ghost c = view.create@;
    let n = view.create.len();
    let mut i: usize = 0;
    while i < n
        invariant
            n == c.len(),
            view.create@.len() == n,
            i <= n,
            forall|j: int| 0 <= j < i ==> #[trigger] view.create@[j] == with_refs_index(c[j], map@),
            forall|j: int| i <= j < n ==> #[trigger] view.create@[j] == c[j],
            view.update == old(view).update,
            view.functions == old(view).functions,
            view.xref == old(view).xref,
            view.decl_count == old(view).decl_count,
        decreases n - i,
    {
        match &mut view.create[i] {
            CreateOp::ElementStart(e) => {
                if let Some(idx) = fx_map_get(map, e.xref.0) {
                    e.local_refs_index = Some(idx);
                }
            },
            CreateOp::Element(e) => {
                if let Some(idx) = fx_map_get(map, e.xref.0) {
                    e.local_refs_index = Some(idx);
                }
            },
            CreateOp::ContainerStart(e) => {
                if let Some(idx) = fx_map_get(map, e.xref.0) {
                    e.local_refs_index = Some(idx);
                }
            },
            CreateOp::Container(e) => {
                if let Some(idx) = fx_map_get(map, e.xref.0) {
                    e.local_refs_index = Some(idx);
                }
            },
            CreateOp::Template(t) => {
                if let Some(idx) = fx_map_get(map, t.xref.0) {
                    t.local_refs_index = Some(idx);
                }
            },
            CreateOp::Conditional(t) => {
                if let Some(idx) = fx_map_get(map, t.xref.0) {
                    t.local_refs_index = Some(idx);
                }
            },
            CreateOp::ConditionalBranch(t) => {
                if let Some(idx) = fx_map_get(map, t.xref.0) {
                    t.local_refs_index = Some(idx);
                }
            },
            _ => {},
        }
        i = i + 1;
    }
}

/// Lifts the local references declared in every view (root first) into the
/// constant pool, one flat array per operation, and records on each operation
/// the index of its array.
pub fn lift_local_refs(job: &mut ComponentCompilationJob)
    requires
        old(job).consts@.len() + job_ref_entries(*old(job)).len() <= u32::MAX,
    ensures
        job_refs_lifted(*old(job), *final(job)),
{
    let ghost j0 = *job;
    let ghost c0 = job.consts@.len();
    let ghost vs = job.views@;
    let ghost root_e = ref_ops(j0.root.create@, j0.root.create@.len() as int);
    let mut map: FxHashMap<u32, u32> = fx_map_new();
    proof {
        assert(map@ =~= index_map(Seq::empty(), c0));
        lemma_views_entries_mono(vs, 0, vs.len() as int);
    }
    lift_view_refs(&job.root.create, &mut job.consts, &mut map, Ghost(c0), Ghost(Seq::empty()));
    proof {
        assert(Seq::<(u32, Seq<LocalRef>)>::empty() + root_e =~= root_e + views_ref_entries(vs, 0));
    }
    let n = job.views.len();
    let mut i: usize = 0;
    while i < n
        invariant
            n == vs.len(),
            job.views@ == vs,
            vs == j0.views@,
            job.root == j0.root,
            i <= n,
            c0 == j0.consts@.len(),
            root_e == ref_ops(j0.root.create@, j0.root.create@.len() as int),
            c0 + root_e.len() + views_ref_entries(vs, n as int).len() <= u32::MAX,
            consts_hold(job.consts@, c0, root_e + views_ref_entries(vs, i as int)),
            forall|k: int| 0 <= k < c0 ==> #[trigger] job.consts@[k] == j0.consts@[k],
            map@ == index_map(root_e + views_ref_entries(vs, i as int), c0),
            job.diagnostics == j0.diagnostics,
            job.next_xref == j0.next_xref,
            job.compatibility_mode == j0.compatibility_mode,
            job.mode == j0.mode,
            job.enable_debug_locations == j0.enable_debug_locations,
            job.relative_template_path == j0.relative_template_path,
            job.template_source == j0.template_source,
        decreases n - i,
    {
        let ghost e = root_e + views_ref_entries(vs, i as int);
        let ghost r = ref_ops(vs[i as int].create@, vs[i as int].create@.len() as int);
        proof {
            lemma_views_entries_mono(vs, i + 1, n as int);
            assert(views_ref_entries(vs, i + 1) == views_ref_entries(vs, i as int) + r);
            assert(e + r =~= root_e + views_ref_entries(vs, i + 1));
        }
        lift_view_refs(&job.views[i].create, &mut job.consts, &mut map, Ghost(c0), Ghost(e));
        i = i + 1;
    }
    assert(root_e + views_ref_entries(vs, n as int) == job_ref_entries(j0));
    record_view_indices(&mut job.root, &map);
    let mut i: usize = 0;
    while i < n
        invariant
            n == job.views@.len(),
            n == vs.len(),
            i <= n,
            c0 == j0.consts@.len(),
            consts_hold(job.consts@, c0, job_ref_entries(j0)),
            forall|k: int| 0 <= k < c0 ==> #[trigger] job.consts@[k] == j0.consts@[k],
            map@ == index_map(job_ref_entries(j0), c0),
            view_refs_lifted(j0.root, job.root, map@),
            forall|j: int| 0 <= j < i ==> view_refs_lifted(vs[j], #[trigger] job.views@[j], map@),
            forall|j: int| i <= j < n ==> #[trigger] job.views@[j] == vs[j],
            job.diagnostics == j0.diagnostics,
            job.next_xref == j0.next_xref,
            job.compatibility_mode == j0.compatibility_mode,
            job.mode == j0.mode,
            job.enable_debug_locations == j0.enable_debug_locations,
            job.relative_template_path == j0.relative_template_path,
            job.template_source == j0.template_source,
        decreases n - i,
    {
        record_view_indices(&mut job.views[i], &map);
        i = i + 1;
    }
}

} // verus!
