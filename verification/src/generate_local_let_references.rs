//! Local `@let` references phase.
//!
//! Each `StoreLet` update operation becomes a `Variable` operation, local to
//! its view, named after the `@let` declaration it stores to and initialized
//! with a store-let expression, so that the value can be read in the same view.
//! Each view's new variables take fresh ids, in order.

use vstd::prelude::*;
use rustc_hash::FxHashMap;
use crate::fx::{fx_map_get, fx_map_insert, fx_map_new};
use crate::ir::{
    ev, ComponentCompilationJob, CreateOp, Expr, IrExpression, SemanticVariableKind, UpdateOp, UpdateVariableOp,
    ViewCompilationUnit, XrefId,
};

verus! {

/// The position of the last `@let` declaration of `x` among the first `k` operations.
pub open spec fn last_declare(c: Seq<CreateOp>, x: u32, k: int) -> Option<int>
    decreases k,
{
    if k <= 0 {
        None
    } else if c[k - 1] matches CreateOp::DeclareLet(d) && d.xref.0 == x {
        Some(k - 1)
    } else {
        last_declare(c, x, k - 1)
    }
}

/// The declared name of the `@let` declaration `x` (the last one with that id),
/// or the empty name when there is none.
pub open spec fn declared_name(c: Seq<CreateOp>, x: u32) -> Seq<char> {
    match last_declare(c, x, c.len() as int) {
        Some(p) => c[p]->DeclareLet_0.name@,
        None => Seq::empty(),
    }
}

/// The number of `StoreLet` operations among the first `k`.
pub open spec fn store_lets_before(u: Seq<UpdateOp>, k: int) -> nat
    decreases k,
{
    if k <= 0 {
        0
    } else {
        store_lets_before(u, k - 1) + if u[k - 1] is StoreLet { 1nat } else { 0nat }
    }
}

/// The number of `StoreLet` operations of a view.
pub open spec fn view_store_lets(v: ViewCompilationUnit) -> nat {
    store_lets_before(v.update@, v.update@.len() as int)
}

/// The number of `StoreLet` operations of the views before `i`.
pub open spec fn views_store_lets(vs: Seq<ViewCompilationUnit>, i: int) -> nat
    decreases i,
{
    if i <= 0 {
        0
    } else {
        views_store_lets(vs, i - 1) + view_store_lets(vs[i - 1])
    }
}

/// Whether `after` is the update operation at `k` of `u` with a `StoreLet`
/// turned into a variable (ids handed out from `n` on, names from `c`).
pub open spec fn let_reference_op(u: Seq<UpdateOp>, k: int, after: UpdateOp, c: Seq<CreateOp>, n: nat) -> bool {
    match u[k] {
        UpdateOp::StoreLet(b) => after matches UpdateOp::Variable(v) && {
            &&& v.xref == XrefId((n + store_lets_before(u, k)) as u32)
            &&& v.kind == SemanticVariableKind::Identifier
            &&& v.name@ == declared_name(c, b.target.0)
            &&& v.local
            &&& ev(v.initializer) == Expr::StoreLet { target: b.target, value: Box::new(ev(b.expression)) }
        },
        _ => after == u[k],
    }
}

/// Whether the view `after` is `before` with its `StoreLet` operations turned
/// into variables, ids handed out from `n` on.
pub open spec fn view_let_references(before: ViewCompilationUnit, after: ViewCompilationUnit, n: nat) -> bool {
    &&& after.update@.len() == before.update@.len()
    &&& forall|k: int|
        0 <= k < before.update@.len() ==> let_reference_op(before.update@, k, #[trigger] after.update@[k], before.create@, n)
    &&& after.create == before.create
    &&& after.functions == before.functions
    &&& after.xref == before.xref
    &&& after.decl_count == before.decl_count
}

/// Whether the job `after` is `before` with the `@let` references of every view
/// generated: the root first, then the views in order, each taking its ids
/// where the previous one stopped.
pub open spec fn job_let_references(before: ComponentCompilationJob, after: ComponentCompilationJob) -> bool {
    let n0 = before.next_xref as nat;
    let n1 = n0 + view_store_lets(before.root);
    &&& view_let_references(before.root, after.root, n0)
    &&& after.views@.len() == before.views@.len()
    &&& forall|i: int|
        0 <= i < before.views@.len() ==> view_let_references(
            before.views@[i],
            #[trigger] after.views@[i],
            n1 + views_store_lets(before.views@, i),
        )
    &&& after.next_xref == n1 + views_store_lets(before.views@, before.views@.len() as int)
    &&& after.consts == before.consts
    &&& after.diagnostics == before.diagnostics
    &&& after.compatibility_mode == before.compatibility_mode
    &&& after.mode == before.mode
    &&& after.enable_debug_locations == before.enable_debug_locations
    &&& after.relative_template_path == before.relative_template_path
    &&& after.template_source == before.template_source
}

proof fn lemma_store_lets_mono(u: Seq<UpdateOp>, i: int, j: int)
    requires
        i <= j,
    ensures
        store_lets_before(u, i) <= store_lets_before(u, j),
    decreases j - i,
{
    if i < j {
        lemma_store_lets_mono(u, i, j - 1);
    }
}

proof fn lemma_views_store_lets_mono(vs: Seq<ViewCompilationUnit>, i: int, j: int)
    requires
        i <= j,
    ensures
        views_store_lets(vs, i) <= views_store_lets(vs, j),
    decreases j - i,
{
    if i < j {
        lemma_views_store_lets_mono(vs, i, j - 1);
    }
}

/// The positions of the `@let` declarations of a creation list, by id (the last one wins).
fn declare_positions(create: &Vec<CreateOp>) -> (m: FxHashMap<u32, usize>)
    ensures
        forall|x: u32|
            #![trigger m@.contains_key(x)]
            match last_declare(create@, x, create@.len() as int) {
                Some(p) => m@.contains_key(x) && m@[x] == p,
                None => !m@.contains_key(x),
            },
{
    let mut m: FxHashMap<u32, usize> = fx_map_new();
    let n = create.len();
    let mut i: usize = 0;
    while i < n
        invariant
            n == create@.len(),
            i <= n,
            forall|x: u32|
                #![trigger m@.contains_key(x)]
                match last_declare(create@, x, i as int) {
                    Some(p) => m@.contains_key(x) && m@[x] == p,
                    None => !m@.contains_key(x),
                },
        decreases n - i,
    {
        let ghost m0 = m@;
        match &create[i] {
            CreateOp::DeclareLet(d) => {
                fx_map_insert(&mut m, d.xref.0, i);
            },
            _ => {},
        }
        proof {
            assert forall|x: u32|
                #![trigger m@.contains_key(x)]
                match last_declare(create@, x, i + 1) {
                    Some(p) => m@.contains_key(x) && m@[x] == p,
                    None => !m@.contains_key(x),
                } by {
                assert(m0.contains_key(x) || !m0.contains_key(x));
            }
        }
        i = i + 1;
    }
    m
}

/// The name declared for `x`, or the empty name.
fn name_for(create: &Vec<CreateOp>, names: &FxHashMap<u32, usize>, x: u32) -> (r: String)
    requires
        forall|y: u32|
            #![trigger names@.contains_key(y)]
            match last_declare(create@, y, create@.len() as int) {
                Some(p) => names@.contains_key(y) && names@[y] == p,
                None => !names@.contains_key(y),
            },
    ensures
        r@ == declared_name(create@, x),
{
    proof {
        lemma_last_declare(create@, x, create@.len() as int);
    }
    assert(names@.contains_key(x) || !names@.contains_key(x));
    match fx_map_get(names, x) {
        Some(p) => match &create[p] {
            CreateOp::DeclareLet(d) => d.name.clone(),
            _ => String::new(),
        },
        None => String::new(),
    }
}

proof fn lemma_last_declare(c: Seq<CreateOp>, x: u32, k: int)
    requires
        k <= c.len(),
    ensures
        last_declare(c, x, k) matches Some(p) ==> 0 <= p < k && c[p] is DeclareLet,
    decreases k,
{
    if k > 0 {
        lemma_last_declare(c, x, k - 1);
    }
}

/// Counts the `StoreLet` operations of a list.
fn count_store_lets(update: &Vec<UpdateOp>) -> (r: usize)
    ensures
        r == store_lets_before(update@, update@.len() as int),
{
    let n = update.len();
    let mut count: usize = 0;
    let mut i: usize = 0;
    while i < n
        invariant
            n == update@.len(),
            i <= n,
            count == store_lets_before(update@, i as int),
            count <= i,
        decreases n - i,
    {
        match &update[i] {
            UpdateOp::StoreLet(_) => {
                count = count + 1;
            },
            _ => {},
        }
        i = i + 1;
    }
    count
}

/// Turns the `StoreLet` operations of one view into variables, ids from `*next` on.
fn let_references_in_view(view: &mut ViewCompilationUnit, next: &mut u32)
    requires
        *old(next) + view_store_lets(*old(view)) <= u32::MAX,
    ensures
        view_let_references(*old(view), *final(view), *old(next) as nat),
        *final(next) == *old(next) + view_store_lets(*old(view)),
{
    let ghost u = view.update@;
    let ghost n0 = *next as nat;
    let count = count_store_lets(&view.update);
    if count == 0 {
        assert forall|k: int| 0 <= k < u.len() implies let_reference_op(u, k, #[trigger] view.update@[k], view.create@, n0) by {
            if u[k] is StoreLet {
                lemma_store_lets_mono(u, k + 1, u.len() as int);
            }
        }
        return;
    }
    let names = declare_positions(&view.create);
    assert forall|y: u32|
        #![trigger names@.contains_key(y)]
        match last_declare(view.create@, y, view.create@.len() as int) {
            Some(p) => names@.contains_key(y) && names@[y] == p,
            None => !names@.contains_key(y),
        } by {
        assert(names@.contains_key(y) || !names@.contains_key(y));
    }
    let n = view.update.len();
    let mut i: usize = 0;
    while i < n
        invariant
            n == u.len(),
            view.update@.len() == n,
            i <= n,
            n0 + store_lets_before(u, n as int) <= u32::MAX,
            *next == n0 + store_lets_before(u, i as int),
            forall|y: u32|
                #![trigger names@.contains_key(y)]
                match last_declare(view.create@, y, view.create@.len() as int) {
                    Some(p) => names@.contains_key(y) && names@[y] == p,
                    None => !names@.contains_key(y),
                },
            forall|k: int| 0 <= k < i ==> let_reference_op(u, k, #[trigger] view.update@[k], view.create@, n0),
            forall|k: int| i <= k < n ==> #[trigger] view.update@[k] == u[k],
            view.create == old(view).create,
            view.functions == old(view).functions,
            view.xref == old(view).xref,
            view.decl_count == old(view).decl_count,
        decreases n - i,
    {
        proof {
            lemma_store_lets_mono(u, i + 1, n as int);
        }
        let is_store = match &view.update[i] {
            UpdateOp::StoreLet(_) => true,
            _ => false,
        };
        if is_store {
            let mut op = UpdateOp::ListEnd;
            std::mem::swap(&mut op, &mut view.update[i]);
            match op {
                UpdateOp::StoreLet(b) => {
                    let name = name_for(&view.create, &names, b.target.0);
                    let xref = XrefId(*next);
                    *next = *next + 1;
                    let var = UpdateVariableOp {
                        xref,
                        kind: SemanticVariableKind::Identifier,
                        name,
                        initializer: IrExpression::StoreLet { target: b.target, value: Box::new(b.expression) },
                        local: true,
                    };
                    view.update.set(i, UpdateOp::Variable(var));
                },
                other => {
                    view.update.set(i, other);
                },
            }
        }
        i = i + 1;
    }
}

/// Replaces the `StoreLet` update operations of every view (root first) by
/// local variables that hold the stored value, named after their `@let`
/// declarations, with fresh ids.
pub fn generate_local_let_references(job: &mut ComponentCompilationJob)
    requires
        old(job).next_xref + view_store_lets(old(job).root) + views_store_lets(old(job).views@, old(job).views@.len() as int)
            <= u32::MAX,
    ensures
        job_let_references(*old(job), *final(job)),
{
    let ghost vs = job.views@;
    let ghost n1: nat = job.next_xref as nat + view_store_lets(job.root);
    let mut next = job.next_xref;
    let_references_in_view(&mut job.root, &mut next);
    let n = job.views.len();
    let mut i: usize = 0;
    while i < n
        invariant
            n == job.views@.len(),
            n == vs.len(),
            vs == old(job).views@,
            i <= n,
            n1 == old(job).next_xref + view_store_lets(old(job).root),
            n1 + views_store_lets(vs, n as int) <= u32::MAX,
            next == n1 + views_store_lets(vs, i as int),
            view_let_references(old(job).root, job.root, old(job).next_xref as nat),
            forall|j: int|
                0 <= j < i ==> view_let_references(vs[j], #[trigger] job.views@[j], n1 + views_store_lets(vs, j)),
            forall|j: int| i <= j < n ==> #[trigger] job.views@[j] == vs[j],
            job.next_xref == old(job).next_xref,
            job.consts == old(job).consts,
            job.diagnostics == old(job).diagnostics,
            job.compatibility_mode == old(job).compatibility_mode,
            job.mode == old(job).mode,
            job.enable_debug_locations == old(job).enable_debug_locations,
            job.relative_template_path == old(job).relative_template_path,
            job.template_source == old(job).template_source,
        decreases n - i,
    {
        proof {
            lemma_views_store_lets_mono(vs, i + 1, n as int);
        }
        let_references_in_view(&mut job.views[i], &mut next);
        i = i + 1;
    }
    job.next_xref = next;
}

} // verus!
