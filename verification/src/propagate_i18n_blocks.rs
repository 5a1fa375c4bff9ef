//! I18n block propagation phase.
//!
//! The views of templates that are placeholders in an i18n message take part
//! in that message: the views are walked in order, from the root down through
//! the templates, conditionals, repeaters and projection fallbacks; a child
//! view that is a placeholder inside an i18n block gets an i18n block of its
//! own (an `I18nStart` first and an `I18nEnd` last, unless it starts with an
//! `I18nStart` already) rooted in the enclosing message, and every i18n block
//! records its sub-template index: the number of placeholder views met since
//! the current root-level block began.

use vstd::prelude::*;
use crate::ir::{ComponentCompilationJob, CreateOp, I18nStartOp, ViewCompilationUnit, XrefId};

verus! {

/// The state the propagation carries: the creation lists of the views (the
/// root's first, then those of the views in order), the next free id and the
/// current sub-template index.
pub struct PropState {
    pub creates: Seq<Seq<CreateOp>>,
    pub next: nat,
    pub idx: nat,
}

/// The i18n block being walked: its root block, its message and its sub-template index.
pub type Block = Option<(XrefId, Option<u32>, Option<u32>)>;

/// The ids of the views of a job: the root's first, then those of the views in order.
pub open spec fn view_xrefs(job: ComponentCompilationJob) -> Seq<XrefId> {
    seq![job.root.xref] + job.views@.map_values(|v: ViewCompilationUnit| v.xref)
}

/// The creation lists of the views of a job, in the same order.
pub open spec fn view_creates(job: ComponentCompilationJob) -> Seq<Seq<CreateOp>> {
    seq![job.root.create@] + job.views@.map_values(|v: ViewCompilationUnit| v.create@)
}

/// The propagation state of a job with the sub-template index `idx`.
pub open spec fn state_of(job: ComponentCompilationJob, idx: nat) -> PropState {
    PropState { creates: view_creates(job), next: job.next_xref as nat, idx }
}

/// The first position at or after `k` of the view `x`.
pub open spec fn find_view(xs: Seq<XrefId>, x: XrefId, k: int) -> Option<int>
    decreases xs.len() - k,
{
    if k < 0 || k >= xs.len() {
        None
    } else if xs[k] == x {
        Some(k)
    } else {
        find_view(xs, x, k + 1)
    }
}

/// The first position at or after `k` of the start of the i18n block `x`.
pub open spec fn find_block_start(c: Seq<CreateOp>, x: XrefId, k: int) -> Option<int>
    decreases c.len() - k,
{
    if k < 0 || k >= c.len() {
        None
    } else if c[k] matches CreateOp::I18nStart(o) && o.xref == x {
        Some(k)
    } else {
        find_block_start(c, x, k + 1)
    }
}

/// The state with the view `v` wrapped in an i18n block rooted in `root` with
/// the message `msg`: a fresh id, an `I18nStart` first and an `I18nEnd` last;
/// unchanged when the view is unknown or starts with an `I18nStart` already;
/// none when no id is left.
pub open spec fn wrap_view(s: PropState, xs: Seq<XrefId>, v: XrefId, root: XrefId, msg: Option<u32>) -> Option<PropState> {
    match find_view(xs, v, 0) {
        None => Some(s),
        Some(q) => {
            let c = s.creates[q];
            if c.len() > 0 && c[0] is I18nStart {
                Some(s)
            } else if s.next >= u32::MAX {
                None
            } else {
                let x = XrefId(s.next as u32);
                let start = CreateOp::I18nStart(
                    I18nStartOp { xref: x, slot: None, context: None, root: Some(root), message: msg, sub_template_index: None },
                );
                Some(
                    PropState {
                        creates: s.creates.update(q, seq![start] + c + seq![CreateOp::I18nEnd(x)]),
                        next: s.next + 1,
                        idx: s.idx,
                    },
                )
            }
        },
    }
}

/// The state before walking into the child view `v`: when it is a placeholder
/// inside an i18n block, the sub-template index goes up and the view is
/// wrapped; none when the index or the ids run out.
pub open spec fn enter_child(s: PropState, xs: Seq<XrefId>, v: XrefId, placeholder: bool, block: Block) -> Option<PropState> {
    if placeholder && block is Some {
        if s.idx >= u32::MAX {
            None
        } else {
            wrap_view(PropState { idx: s.idx + 1, ..s }, xs, v, block->Some_0.0, block->Some_0.1)
        }
    } else {
        Some(s)
    }
}

/// What the propagation reads of a creation operation.
#[derive(Clone, Copy, Debug)]
pub enum Step {
    /// The start of the i18n block with this id.
    Start(XrefId),
    /// The end of an i18n block.
    End,
    /// A child view, and whether it is an i18n placeholder.
    Child(XrefId, bool),
    /// A repeater: its body view, whether that is a placeholder, then the same of its empty view.
    Repeater(XrefId, bool, Option<XrefId>, bool),
    /// Anything else.
    Other,
}

/// What the propagation reads of the operation `op`: templates, conditionals
/// and their branches declare a child view, a projection may have a fallback view.
pub open spec fn step_of(op: CreateOp) -> Step {
    match op {
        CreateOp::I18nStart(o) => Step::Start(o.xref),
        CreateOp::I18nEnd(_) => Step::End,
        CreateOp::Template(t) => Step::Child(t.embedded_view, t.has_i18n_placeholder),
        CreateOp::Conditional(t) => Step::Child(t.xref, t.has_i18n_placeholder),
        CreateOp::ConditionalBranch(t) => Step::Child(t.xref, t.has_i18n_placeholder),
        CreateOp::RepeaterCreate(t) => Step::Repeater(
            t.embedded_view,
            t.has_i18n_placeholder,
            t.empty_view,
            t.empty_has_i18n_placeholder,
        ),
        CreateOp::Projection(pj) => match pj.fallback {
            Some(f) => Step::Child(f, pj.fallback_has_i18n_placeholder),
            None => Step::Other,
        },
        _ => Step::Other,
    }
}

/// The steps of a list of creation operations.
pub open spec fn steps_of(c: Seq<CreateOp>) -> Seq<Step> {
    c.map_values(|op: CreateOp| step_of(op))
}

/// The walk of the view `v`, with `fuel` levels of child views left: the
/// state afterwards, or none when the fuel, the ids or the index run out.
pub open spec fn prop(s: PropState, xs: Seq<XrefId>, v: XrefId, fuel: nat) -> Option<PropState>
    decreases fuel, (match find_view(xs, v, 0) {
        Some(p) => s.creates[p].len() + 1,
        None => 0,
    }),
{
    match find_view(xs, v, 0) {
        None => Some(s),
        Some(p) => prop_ops(s, xs, p, steps_of(s.creates[p]), 0, None, fuel),
    }
}

/// The walk of a child view, entered from inside `block`.
pub open spec fn child_then(
    s: PropState,
    xs: Seq<XrefId>,
    v: XrefId,
    placeholder: bool,
    block: Block,
    fuel: nat,
) -> Option<PropState>
    decreases fuel, 0nat,
{
    match enter_child(s, xs, v, placeholder, block) {
        None => None,
        Some(s1) => if fuel == 0 {
            None
        } else {
            prop(s1, xs, v, (fuel - 1) as nat)
        },
    }
}

/// The state after the i18n block `x` of the view at `p` starts: its first
/// start operation records the current sub-template index.
pub open spec fn start_state(s: PropState, p: int, x: XrefId) -> (PropState, Block) {
    match find_block_start(s.creates[p], x, 0) {
        Some(q) => {
            let cur = s.creates[p][q]->I18nStart_0;
            let sti = if s.idx == 0 { None } else { Some(s.idx as u32) };
            let root = match cur.root {
                Some(r) => r,
                None => x,
            };
            (
                PropState {
                    creates: s.creates.update(
                        p,
                        s.creates[p].update(q, CreateOp::I18nStart(I18nStartOp { sub_template_index: sti, ..cur })),
                    ),
                    ..s
                },
                Some((root, cur.message, sti)),
            )
        },
        None => (s, None),
    }
}

/// The walk of the steps `st` of the view at `p`, from `k` on, inside `block`.
pub open spec fn prop_ops(
    s: PropState,
    xs: Seq<XrefId>,
    p: int,
    st: Seq<Step>,
    k: int,
    block: Block,
    fuel: nat,
) -> Option<PropState>
    decreases fuel, st.len() - k,
{
    if k < 0 || k >= st.len() {
        Some(s)
    } else {
        match st[k] {
            Step::Start(x) => match find_block_start(s.creates[p], x, 0) {
                Some(_) => prop_ops(start_state(s, p, x).0, xs, p, st, k + 1, start_state(s, p, x).1, fuel),
                None => prop_ops(s, xs, p, st, k + 1, block, fuel),
            },
            Step::End => {
                let idx = match block {
                    Some((_, _, None)) => 0,
                    _ => s.idx,
                };
                prop_ops(PropState { idx, ..s }, xs, p, st, k + 1, None, fuel)
            },
            Step::Child(v, ph) => match child_then(s, xs, v, ph, block, fuel) {
                None => None,
                Some(s2) => prop_ops(s2, xs, p, st, k + 1, block, fuel),
            },
            Step::Repeater(b, ph, e, eph) => match child_then(s, xs, b, ph, block, fuel) {
                None => None,
                Some(s2) => match e {
                    Some(ev) => match child_then(s2, xs, ev, eph, block, fuel) {
                        None => None,
                        Some(s3) => prop_ops(s3, xs, p, st, k + 1, block, fuel),
                    },
                    None => prop_ops(s2, xs, p, st, k + 1, block, fuel),
                },
            },
            Step::Other => prop_ops(s, xs, p, st, k + 1, block, fuel),
        }
    }
}

/// The walk of a whole job, from the root with sub-template index 0, with as
/// many levels of child views as there are views.
pub open spec fn propagation(job: ComponentCompilationJob) -> Option<PropState> {
    prop(state_of(job, 0), view_xrefs(job), job.root.xref, (job.views@.len() + 1) as nat)
}

/// Whether the job `after` is `before` with its i18n blocks propagated.
pub open spec fn job_i18n_blocks_propagated(before: ComponentCompilationJob, after: ComponentCompilationJob) -> bool {
    let r = propagation(before)->Some_0;
    &&& view_creates(after) == r.creates
    &&& after.next_xref == r.next
    &&& view_xrefs(after) == view_xrefs(before)
    &&& after.root.update == before.root.update
    &&& after.root.functions == before.root.functions
    &&& after.root.decl_count == before.root.decl_count
    &&& after.views@.len() == before.views@.len()
    &&& forall|i: int|
        0 <= i < before.views@.len() ==> {
            &&& (#[trigger] after.views@[i]).update == before.views@[i].update
            &&& after.views@[i].functions == before.views@[i].functions
            &&& after.views@[i].decl_count == before.views@[i].decl_count
        }
    &&& after.consts == before.consts
    &&& after.diagnostics == before.diagnostics
    &&& after.compatibility_mode == before.compatibility_mode
    &&& after.mode == before.mode
    &&& after.enable_debug_locations == before.enable_debug_locations
    &&& after.relative_template_path == before.relative_template_path
    &&& after.template_source == before.template_source
}

/// Whether `b` keeps everything of `a` but the creation lists and the next free id.
pub open spec fn kept(a: ComponentCompilationJob, b: ComponentCompilationJob) -> bool {
    &&& b.root.xref == a.root.xref
    &&& b.root.update == a.root.update
    &&& b.root.functions == a.root.functions
    &&& b.root.decl_count == a.root.decl_count
    &&& b.views@.len() == a.views@.len()
    &&& forall|i: int|
        0 <= i < a.views@.len() ==> {
            &&& (#[trigger] b.views@[i]).xref == a.views@[i].xref
            &&& b.views@[i].update == a.views@[i].update
            &&& b.views@[i].functions == a.views@[i].functions
            &&& b.views@[i].decl_count == a.views@[i].decl_count
        }
    &&& b.consts == a.consts
    &&& b.diagnostics == a.diagnostics
    &&& b.compatibility_mode == a.compatibility_mode
    &&& b.mode == a.mode
    &&& b.enable_debug_locations == a.enable_debug_locations
    &&& b.relative_template_path == a.relative_template_path
    &&& b.template_source == a.template_source
}

proof fn lemma_kept_trans(a: ComponentCompilationJob, b: ComponentCompilationJob, c: ComponentCompilationJob)
    requires
        kept(a, b),
        kept(b, c),
    ensures
        kept(a, c),
{
    assert forall|i: int| 0 <= i < a.views@.len() implies {
        &&& (#[trigger] c.views@[i]).xref == a.views@[i].xref
        &&& c.views@[i].update == a.views@[i].update
        &&& c.views@[i].functions == a.views@[i].functions
        &&& c.views@[i].decl_count == a.views@[i].decl_count
    } by {
        assert(b.views@[i].xref == a.views@[i].xref);
    }
}

proof fn lemma_kept_xrefs(a: ComponentCompilationJob, b: ComponentCompilationJob)
    requires
        kept(a, b),
    ensures
        view_xrefs(b) == view_xrefs(a),
        view_creates(b).len() == view_creates(a).len(),
        view_creates(a).len() == a.views@.len() + 1,
{
    assert(view_xrefs(b) =~= view_xrefs(a)) by {
        assert forall|i: int| 0 <= i < view_xrefs(a).len() implies view_xrefs(b)[i] == view_xrefs(a)[i] by {
            if i > 0 {
                assert(b.views@[i - 1].xref == a.views@[i - 1].xref);
            }
        }
    }
}

/// The position of the view `x` among the root (0) and the views (1 on).
fn view_position(job: &ComponentCompilationJob, x: XrefId) -> (r: Option<usize>)
    ensures
        match r {
            Some(p) => find_view(view_xrefs(*job), x, 0) == Some(p as int) && p < view_xrefs(*job).len(),
            None => find_view(view_xrefs(*job), x, 0) is None,
        },
{
    let ghost xs = view_xrefs(*job);
    if job.root.xref == x {
        return Some(0);
    }
    let mut i: usize = 0;
    while i < job.views.len()
        invariant
            xs == view_xrefs(*job),
            i <= job.views@.len(),
            find_view(xs, x, 0) == find_view(xs, x, i + 1),
        decreases job.views@.len() - i,
    {
        assert(xs[i + 1] == job.views@[i as int].xref);
        if job.views[i].xref == x {
            return Some(i + 1);
        }
        i = i + 1;
    }
    None
}

/// The creation list of the view at `p`.
fn create_at(job: &ComponentCompilationJob, p: usize) -> (c: &Vec<CreateOp>)
    requires
        p <= job.views@.len(),
    ensures
        c@ == view_creates(*job)[p as int],
{
    if p == 0 {
        &job.root.create
    } else {
        &job.views[p - 1].create
    }
}

/// Takes the creation list of the view at `p` out of the job, leaving it empty.
fn take_create(job: &mut ComponentCompilationJob, p: usize) -> (c: Vec<CreateOp>)
    requires
        p <= old(job).views@.len(),
    ensures
        c@ == view_creates(*old(job))[p as int],
        view_creates(*final(job)) == view_creates(*old(job)).update(p as int, seq![]),
        kept(*old(job), *final(job)),
        final(job).next_xref == old(job).next_xref,
{
    let mut c: Vec<CreateOp> = Vec::new();
    if p == 0 {
        std::mem::swap(&mut c, &mut job.root.create);
    } else {
        std::mem::swap(&mut c, &mut job.views[p - 1].create);
    }
    assert(view_creates(*job) =~= view_creates(*old(job)).update(p as int, seq![]));
    c
}

/// Puts `c` back as the creation list of the view at `p`.
fn put_create(job: &mut ComponentCompilationJob, p: usize, c: Vec<CreateOp>)
    requires
        p <= old(job).views@.len(),
    ensures
        view_creates(*final(job)) == view_creates(*old(job)).update(p as int, c@),
        kept(*old(job), *final(job)),
        final(job).next_xref == old(job).next_xref,
{
    let ghost c0 = c@;
    let mut c = c;
    if p == 0 {
        std::mem::swap(&mut c, &mut job.root.create);
    } else {
        std::mem::swap(&mut c, &mut job.views[p - 1].create);
    }
    assert(view_creates(*job) =~= view_creates(*old(job)).update(p as int, c0));
}

/// What the propagation reads of the operation `op`.
fn op_step(op: &CreateOp) -> (r: Step)
    ensures
        r == step_of(*op),
{
    match op {
        CreateOp::I18nStart(o) => Step::Start(o.xref),
        CreateOp::I18nEnd(_) => Step::End,
        CreateOp::Template(t) => Step::Child(t.embedded_view, t.has_i18n_placeholder),
        CreateOp::Conditional(t) => Step::Child(t.xref, t.has_i18n_placeholder),
        CreateOp::ConditionalBranch(t) => Step::Child(t.xref, t.has_i18n_placeholder),
        CreateOp::RepeaterCreate(t) => Step::Repeater(
            t.embedded_view,
            t.has_i18n_placeholder,
            t.empty_view,
            t.empty_has_i18n_placeholder,
        ),
        CreateOp::Projection(pj) => match pj.fallback {
            Some(f) => Step::Child(f, pj.fallback_has_i18n_placeholder),
            None => Step::Other,
        },
        _ => Step::Other,
    }
}

/// The steps of the creation list `c`.
fn view_steps(c: &Vec<CreateOp>) -> (r: Vec<Step>)
    ensures
        r@ == steps_of(c@),
{
    let mut r: Vec<Step> = Vec::new();
    let mut i: usize = 0;
    while i < c.len()
        invariant
            i <= c@.len(),
            r@.len() == i,
            forall|j: int| 0 <= j < i ==> #[trigger] r@[j] == step_of(c@[j]),
        decreases c@.len() - i,
    {
        r.push(op_step(&c[i]));
        i = i + 1;
    }
    assert(r@ =~= steps_of(c@));
    r
}

/// The position of the first start of the i18n block `x` in `c`.
pub(crate) fn find_start(c: &Vec<CreateOp>, x: XrefId) -> (r: Option<usize>)
    ensures
        match r {
            Some(q) => {
                &&& find_block_start(c@, x, 0) == Some(q as int)
                &&& q < c@.len()
                &&& c@[q as int] matches CreateOp::I18nStart(o) && o.xref == x
            },
            None => find_block_start(c@, x, 0) is None,
        },
{
    let mut i: usize = 0;
    while i < c.len()
        invariant
            i <= c@.len(),
            find_block_start(c@, x, 0) == find_block_start(c@, x, i as int),
        decreases c@.len() - i,
    {
        match &c[i] {
            CreateOp::I18nStart(o) => {
                if o.xref == x {
                    return Some(i);
                }
            },
            _ => {},
        }
        i = i + 1;
    }
    None
}

/// Whether `op` starts an i18n block.
fn is_i18n_start(op: &CreateOp) -> (r: bool)
    ensures
        r == (*op is I18nStart),
{
    match op {
        CreateOp::I18nStart(_) => true,
        _ => false,
    }
}

/// Records the sub-template index `idx` on the first start of the i18n block
/// `x` in the view at `p`, and gives the block it starts.
fn start_block(job: &mut ComponentCompilationJob, p: usize, x: XrefId, idx: u32) -> (r: Block)
    requires
        p <= old(job).views@.len(),
    ensures
        view_creates(*final(job)) == start_state(state_of(*old(job), idx as nat), p as int, x).0.creates,
        r == start_state(state_of(*old(job), idx as nat), p as int, x).1,
        r is Some <==> find_block_start(view_creates(*old(job))[p as int], x, 0) is Some,
        kept(*old(job), *final(job)),
        final(job).next_xref == old(job).next_xref,
{
    let q = match find_start(create_at(job, p), x) {
        None => return None,
        Some(q) => q,
    };
    let sti: Option<u32> = if idx == 0 {
        None
    } else {
        Some(idx)
    };
    let (nop, b) = match &create_at(job, p)[q] {
        CreateOp::I18nStart(o) => {
            let root = match o.root {
                Some(r) => r,
                None => x,
            };
            (
                I18nStartOp {
                    xref: o.xref,
                    slot: o.slot,
                    context: o.context,
                    root: o.root,
                    message: o.message,
                    sub_template_index: sti,
                },
                (root, o.message, sti),
            )
        },
        _ => {
            proof {
                assert(false);
            }
            return None;
        },
    };
    let mut c = take_create(job, p);
    c.set(q, CreateOp::I18nStart(nop));
    put_create(job, p, c);
    Some(b)
}

/// Wraps the view `v` in an i18n block rooted in `root` with the message `msg`.
fn wrap_exec(job: &mut ComponentCompilationJob, v: XrefId, root: XrefId, msg: Option<u32>, Ghost(idx): Ghost<nat>)
    requires
        wrap_view(state_of(*old(job), idx), view_xrefs(*old(job)), v, root, msg) is Some,
    ensures
        view_creates(*final(job)) == wrap_view(state_of(*old(job), idx), view_xrefs(*old(job)), v, root, msg)->Some_0.creates,
        final(job).next_xref == wrap_view(state_of(*old(job), idx), view_xrefs(*old(job)), v, root, msg)->Some_0.next,
        kept(*old(job), *final(job)),
{
    let q = match view_position(job, v) {
        None => return ,
        Some(q) => q,
    };
    let c = create_at(job, q);
    if c.len() > 0 && is_i18n_start(&c[0]) {
        return ;
    }
    let ghost c0 = c@;
    let n = job.next_xref;
    let x = XrefId(n);
    job.next_xref = n + 1;
    let mut c = take_create(job, q);
    c.insert(
        0,
        CreateOp::I18nStart(
            I18nStartOp { xref: x, slot: None, context: None, root: Some(root), message: msg, sub_template_index: None },
        ),
    );
    c.push(CreateOp::I18nEnd(x));
    let ghost start = CreateOp::I18nStart(
        I18nStartOp { xref: x, slot: None, context: None, root: Some(root), message: msg, sub_template_index: None },
    );
    assert(c@ =~= seq![start] + c0 + seq![CreateOp::I18nEnd(x)]);
    put_create(job, q, c);
}

/// Walks into the child view `v` from inside `block`: wraps it when it is a
/// placeholder of that block, then walks it.
fn child_exec(
    job: &mut ComponentCompilationJob,
    v: XrefId,
    placeholder: bool,
    block: Block,
    idx: u32,
    Ghost(fuel): Ghost<nat>,
) -> (r: u32)
    requires
        child_then(state_of(*old(job), idx as nat), view_xrefs(*old(job)), v, placeholder, block, fuel) is Some,
    ensures
        view_creates(*final(job)) == child_then(
            state_of(*old(job), idx as nat),
            view_xrefs(*old(job)),
            v,
            placeholder,
            block,
            fuel,
        )->Some_0.creates,
        final(job).next_xref == child_then(
            state_of(*old(job), idx as nat),
            view_xrefs(*old(job)),
            v,
            placeholder,
            block,
            fuel,
        )->Some_0.next,
        r == child_then(state_of(*old(job), idx as nat), view_xrefs(*old(job)), v, placeholder, block, fuel)->Some_0.idx,
        kept(*old(job), *final(job)),
    decreases fuel, 0nat,
{
    let ghost j0 = *job;
    let mut idx = idx;
    match block {
        Some((root, msg, _)) => {
            if placeholder {
                idx = idx + 1;
                wrap_exec(job, v, root, msg, Ghost(idx as nat));
                proof {
                    lemma_kept_xrefs(j0, *job);
                }
            }
        },
        None => {},
    }
    let ghost j1 = *job;
    let r = prop_exec(job, v, idx, Ghost((fuel - 1) as nat));
    proof {
        lemma_kept_trans(j0, j1, *job);
    }
    r
}

/// Walks the view `v` with the sub-template index `idx`, and gives the index afterwards.
fn prop_exec(job: &mut ComponentCompilationJob, v: XrefId, idx: u32, Ghost(fuel): Ghost<nat>) -> (r: u32)
    requires
        prop(state_of(*old(job), idx as nat), view_xrefs(*old(job)), v, fuel) is Some,
    ensures
        view_creates(*final(job)) == prop(state_of(*old(job), idx as nat), view_xrefs(*old(job)), v, fuel)->Some_0.creates,
        final(job).next_xref == prop(state_of(*old(job), idx as nat), view_xrefs(*old(job)), v, fuel)->Some_0.next,
        r == prop(state_of(*old(job), idx as nat), view_xrefs(*old(job)), v, fuel)->Some_0.idx,
        kept(*old(job), *final(job)),
    decreases fuel, 1nat,
{
    let ghost xs = view_xrefs(*job);
    let ghost s0 = state_of(*job, idx as nat);
    let ghost target = prop(s0, xs, v, fuel);
    proof {
        lemma_kept_xrefs(*job, *job);
    }
    let p = match view_position(job, v) {
        None => return idx,
        Some(p) => p,
    };
    let steps = view_steps(create_at(job, p));
    let mut idx = idx;
    let mut block: Block = None;
    let mut k: usize = 0;
    while k < steps.len()
        invariant
            xs == view_xrefs(*old(job)),
            view_xrefs(*job) == xs,
            kept(*old(job), *job),
            p < xs.len(),
            xs.len() == job.views@.len() + 1,
            k <= steps@.len(),
            target is Some,
            prop_ops(state_of(*job, idx as nat), xs, p as int, steps@, k as int, block, fuel) == target,
        decreases steps@.len() - k,
    {
        let ghost j0 = *job;
        match steps[k] {
            Step::Start(x) => {
                match start_block(job, p, x, idx) {
                    Some(b) => {
                        block = Some(b);
                    },
                    None => {},
                }
            },
            Step::End => {
                match block {
                    Some((_, _, None)) => {
                        idx = 0;
                    },
                    _ => {},
                }
                block = None;
            },
            Step::Child(cv, ph) => {
                idx = child_exec(job, cv, ph, block, idx, Ghost(fuel));
            },
            Step::Repeater(b, ph, e, eph) => {
                idx = child_exec(job, b, ph, block, idx, Ghost(fuel));
                proof {
                    lemma_kept_xrefs(j0, *job);
                }
                let ghost j1 = *job;
                match e {
                    Some(ev) => {
                        idx = child_exec(job, ev, eph, block, idx, Ghost(fuel));
                        proof {
                            lemma_kept_trans(j0, j1, *job);
                        }
                    },
                    None => {},
                }
            },
            Step::Other => {},
        }
        proof {
            lemma_kept_trans(*old(job), j0, *job);
            lemma_kept_xrefs(j0, *job);
        }
        k = k + 1;
    }
    idx
}

/// Propagates i18n blocks from the root view down through its child views:
/// each child view that is a placeholder inside an i18n block gets an i18n
/// block of its own, and every i18n block records its sub-template index.
pub fn propagate_i18n_blocks(job: &mut ComponentCompilationJob)
    requires
        propagation(*old(job)) is Some,
    ensures
        job_i18n_blocks_propagated(*old(job), *final(job)),
{
    let root = job.root.xref;
    let ghost fuel = (job.views@.len() + 1) as nat;
    prop_exec(job, root, 0, Ghost(fuel));
    proof {
        lemma_kept_xrefs(*old(job), *job);
    }
}

} // verus!
