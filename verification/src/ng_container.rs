//! Ng-container phase.
//!
//! An `ng-container` element renders no DOM node: it is a logical container.
//! Its `ElementStart` operation becomes a `ContainerStart` and the matching
//! `ElementEnd` a `ContainerEnd`.

use vstd::prelude::*;
use rustc_hash::FxHashSet;
use crate::fx::{fx_set_contains, fx_set_insert, fx_set_new};
use crate::ir::{ComponentCompilationJob, CreateOp, ViewCompilationUnit, XrefId};

verus! {

/// Whether the operation starts an `ng-container` element with the id `x`.
pub open spec fn starts_container(op: CreateOp, x: u32) -> bool {
    op matches CreateOp::ElementStart(e) && e.name@ == "ng-container"@ && e.xref.0 == x
}

/// The ids of the `ng-container` elements started among the first `k` operations.
pub open spec fn container_xrefs_before(c: Seq<CreateOp>, k: int) -> Set<u32> {
    Set::new(|x: u32| exists|i: int| 0 <= i < k && i < c.len() && #[trigger] starts_container(c[i], x))
}

/// The ids of the `ng-container` elements started in a creation list.
pub open spec fn container_xrefs(c: Seq<CreateOp>) -> Set<u32> {
    container_xrefs_before(c, c.len() as int)
}

/// An operation with `ng-container` starts turned into container starts, and
/// the ends of the elements in `xs` into container ends.
pub open spec fn container_op(op: CreateOp, xs: Set<u32>) -> CreateOp {
    match op {
        CreateOp::ElementStart(e) => if e.name@ == "ng-container"@ {
            CreateOp::ContainerStart(e)
        } else {
            op
        },
        CreateOp::ElementEnd(x) => if xs.contains(x.0) {
            CreateOp::ContainerEnd(x)
        } else {
            op
        },
        _ => op,
    }
}

/// Whether the view `after` is `before` with its `ng-container` elements
/// turned into containers.
pub open spec fn view_containers_generated(before: ViewCompilationUnit, after: ViewCompilationUnit) -> bool {
    let c = before.create@;
    &&& after.create@.len() == c.len()
    &&& forall|i: int| 0 <= i < c.len() ==> #[trigger] after.create@[i] == container_op(c[i], container_xrefs(c))
    &&& after.update == before.update
    &&& after.functions == before.functions
    &&& after.xref == before.xref
    &&& after.decl_count == before.decl_count
}

/// Whether the job `after` is `before` with the containers of every view generated.
pub open spec fn job_containers_generated(before: ComponentCompilationJob, after: ComponentCompilationJob) -> bool {
    &&& view_containers_generated(before.root, after.root)
    &&& after.views@.len() == before.views@.len()
    &&& forall|i: int|
        0 <= i < before.views@.len() ==> view_containers_generated(before.views@[i], #[trigger] after.views@[i])
    &&& after.consts == before.consts
    &&& after.diagnostics == before.diagnostics
    &&& after.next_xref == before.next_xref
    &&& after.compatibility_mode == before.compatibility_mode
    &&& after.mode == before.mode
    &&& after.enable_debug_locations == before.enable_debug_locations
    &&& after.relative_template_path == before.relative_template_path
    &&& after.template_source == before.template_source
}

fn is_container_tag(name: &String) -> (r: bool)
    ensures
        r == (name@ == "ng-container"@),
{
    crate::text::str_eq(name.as_str(), "ng-container")
}

/// Turns the `ng-container` starts of a creation list into container starts
/// and returns their ids.
fn convert_starts(create: &mut Vec<CreateOp>) -> (xs: FxHashSet<u32>)
    ensures
        xs@ == container_xrefs(old(create)@),
        final(create)@.len() == old(create)@.len(),
        forall|i: int|
            0 <= i < old(create)@.len() ==> #[trigger] final(create)@[i] == (match old(create)@[i] {
                CreateOp::ElementStart(e) => if e.name@ == "ng-container"@ {
                    CreateOp::ContainerStart(e)
                } else {
                    old(create)@[i]
                },
                _ => old(create)@[i],
            }),
{
    let ghost c = create@;
    let mut xs = fx_set_new();
    let n = create.len();
    let mut i: usize = 0;
    proof {
        assert(xs@ =~= container_xrefs_before(c, 0));
    }
    while i < n
        invariant
            n == c.len(),
            create@.len() == n,
            i <= n,
            xs@ == container_xrefs_before(c, i as int),
            forall|j: int|
                0 <= j < i ==> #[trigger] create@[j] == (match c[j] {
                    CreateOp::ElementStart(e) => if e.name@ == "ng-container"@ {
                        CreateOp::ContainerStart(e)
                    } else {
                        c[j]
                    },
                    _ => c[j],
                }),
            forall|j: int| i <= j < n ==> #[trigger] create@[j] == c[j],
        decreases n - i,
    {
        let is_start = match &create[i] {
            CreateOp::ElementStart(e) => is_container_tag(&e.name),
            _ => false,
        };
        let ghost before = xs@;
        if is_start {
            let mut op = CreateOp::ElementEnd(XrefId(0));
            std::mem::swap(&mut op, &mut create[i]);
            match op {
                CreateOp::ElementStart(e) => {
                    fx_set_insert(&mut xs, e.xref.0);
                    create.set(i, CreateOp::ContainerStart(e));
                },
                other => {
                    create.set(i, other);
                },
            }
        }
        proof {
            assert forall|x: u32| #[trigger] xs@.contains(x) == container_xrefs_before(c, i + 1).contains(x) by {
                if starts_container(c[i as int], x) {
                    assert(container_xrefs_before(c, i + 1).contains(x));
                }
                if container_xrefs_before(c, i + 1).contains(x) {
                    let j = choose|j: int| 0 <= j < i + 1 && j < c.len() && #[trigger] starts_container(c[j], x);
                    if j < i {
                        assert(container_xrefs_before(c, i as int).contains(x));
                    }
                }
                if before.contains(x) {
                    let j = choose|j: int| 0 <= j < i && j < c.len() && #[trigger] starts_container(c[j], x);
                    assert(container_xrefs_before(c, i + 1).contains(x));
                }
            }
            assert(xs@ =~= container_xrefs_before(c, i + 1));
        }
        i = i + 1;
    }
    xs
}

/// Turns the ends of the elements in `xs` into container ends.
fn convert_ends(create: &mut Vec<CreateOp>, xs: &FxHashSet<u32>)
    ensures
        final(create)@.len() == old(create)@.len(),
        forall|i: int|
            0 <= i < old(create)@.len() ==> #[trigger] final(create)@[i] == (match old(create)@[i] {
                CreateOp::ElementEnd(x) => if xs@.contains(x.0) {
                    CreateOp::ContainerEnd(x)
                } else {
                    old(create)@[i]
                },
                _ => old(create)@[i],
            }),
{
    let ghost c = create@;
    let n = create.len();
    let mut i: usize = 0;
    while i < n
        invariant
            n == c.len(),
            create@.len() == n,
            i <= n,
            forall|j: int|
                0 <= j < i ==> #[trigger] create@[j] == (match c[j] {
                    CreateOp::ElementEnd(x) => if xs@.contains(x.0) {
                        CreateOp::ContainerEnd(x)
                    } else {
                        c[j]
                    },
                    _ => c[j],
                }),
            forall|j: int| i <= j < n ==> #[trigger] create@[j] == c[j],
        decreases n - i,
    {
        let end = match &create[i] {
            CreateOp::ElementEnd(x) => if fx_set_contains(xs, x.0) {
                Some(*x)
            } else {
                None
            },
            _ => None,
        };
        match end {
            Some(x) => {
                create.set(i, CreateOp::ContainerEnd(x));
            },
            None => {},
        }
        i = i + 1;
    }
}

/// Generates the containers of one view.
fn generate_in_view(view: &mut ViewCompilationUnit)
    ensures
        view_containers_generated(*old(view), *final(view)),
{
    let ghost c = view.create@;
    let xs = convert_starts(&mut view.create);
    convert_ends(&mut view.create, &xs);
    assert forall|i: int| 0 <= i < c.len() implies #[trigger] view.create@[i] == container_op(c[i], container_xrefs(c)) by {}
}

/// Replaces the `ElementStart` / `ElementEnd` operations of `ng-container`
/// elements by `ContainerStart` / `ContainerEnd` in every view.
pub fn generate_ng_container_ops(job: &mut ComponentCompilationJob)
    ensures
        job_containers_generated(*old(job), *final(job)),
{
    generate_in_view(&mut job.root);
    let n = job.views.len();
    let mut i: usize = 0;
    while i < n
        invariant
            n == job.views@.len(),
            n == old(job).views@.len(),
            i <= n,
            view_containers_generated(old(job).root, job.root),
            forall|j: int| 0 <= j < i ==> view_containers_generated(old(job).views@[j], #[trigger] job.views@[j]),
            forall|j: int| i <= j < n ==> #[trigger] job.views@[j] == old(job).views@[j],
            job.consts == old(job).consts,
            job.diagnostics == old(job).diagnostics,
            job.next_xref == old(job).next_xref,
            job.compatibility_mode == old(job).compatibility_mode,
            job.mode == old(job).mode,
            job.enable_debug_locations == old(job).enable_debug_locations,
            job.relative_template_path == old(job).relative_template_path,
            job.template_source == old(job).template_source,
        decreases n - i,
    {
        generate_in_view(&mut job.views[i]);
        i = i + 1;
    }
}

} // verus!
