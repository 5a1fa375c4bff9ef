//! I18n context creation phase.
//!
//! One helper context operation is created per i18n message: one per message
//! of translated attributes (shared by every attribute with that message), one
//! per root i18n block (its child blocks share it), and one per ICU expression
//! whose message differs from that of its block. An ICU that is the only
//! content of its block takes over the block's context, which becomes an ICU
//! context. Views are walked by position: the root first, then the views in
//! order.

use vstd::prelude::*;
use crate::ir::{
    ComponentCompilationJob, CreateOp, ExtractedAttributeOp, I18nContextKind, I18nContextOp, I18nStartOp,
    UpdateBindingOp, UpdateOp, ViewCompilationUnit, XrefId,
};
use crate::propagate_i18n_blocks::{find_block_start, find_start, view_creates, view_xrefs};
use crate::fx::{fx_map_get, fx_map_insert, fx_map_new};
use crate::text::str_eq;
use rustc_hash::FxHashMap;

verus! {

/// The update lists of the views of a job: the root's first, then those of the views in order.
pub open spec fn view_updates(job: ComponentCompilationJob) -> Seq<Seq<UpdateOp>> {
    seq![job.root.update@] + job.views@.map_values(|v: ViewCompilationUnit| v.update@)
}

/// The state the phase carries: the creation and update lists of the views, and the next free id.
pub struct CtxState {
    pub creates: Seq<Seq<CreateOp>>,
    pub updates: Seq<Seq<UpdateOp>>,
    pub next: nat,
}

/// The state of a job.
pub open spec fn ctx_state(job: ComponentCompilationJob) -> CtxState {
    CtxState { creates: view_creates(job), updates: view_updates(job), next: job.next_xref as nat }
}

/// A translated attribute: its view, its message, whether it is a creation
/// operation (an extracted attribute) or an update operation (a property or
/// attribute binding), its target and its name.
pub struct AttrRef {
    pub pos: usize,
    pub message: u32,
    pub is_create: bool,
    pub target: XrefId,
    pub name: String,
}

/// The translated extracted attributes of the creation list `c` of the view at `p`.
pub open spec fn create_attr_refs(p: usize, c: Seq<CreateOp>) -> Seq<AttrRef>
    decreases c.len(),
{
    if c.len() == 0 {
        seq![]
    } else {
        create_attr_refs(p, c.drop_last()) + match c.last() {
            CreateOp::ExtractedAttribute(a) => match a.i18n_message {
                Some(m) => seq![AttrRef { pos: p, message: m, is_create: true, target: a.target, name: a.name }],
                None => seq![],
            },
            _ => seq![],
        }
    }
}

/// The translated property and attribute bindings of the update list `u` of the view at `p`.
pub open spec fn update_attr_refs(p: usize, u: Seq<UpdateOp>) -> Seq<AttrRef>
    decreases u.len(),
{
    if u.len() == 0 {
        seq![]
    } else {
        update_attr_refs(p, u.drop_last()) + match u.last() {
            UpdateOp::Property(b) | UpdateOp::Attribute(b) => match b.i18n_message {
                Some(m) => seq![AttrRef { pos: p, message: m, is_create: false, target: b.target, name: b.name }],
                None => seq![],
            },
            _ => seq![],
        }
    }
}

/// The translated attributes of the first `k` views, in order.
pub open spec fn attr_refs(s: CtxState, k: int) -> Seq<AttrRef>
    decreases k,
{
    if k <= 0 {
        seq![]
    } else {
        attr_refs(s, k - 1) + create_attr_refs((k - 1) as usize, s.creates[k - 1]) + update_attr_refs(
            (k - 1) as usize,
            s.updates[k - 1],
        )
    }
}

/// The creation list `c` with `op` appended.
pub open spec fn push_op(s: CtxState, p: int, op: CreateOp) -> CtxState {
    CtxState { creates: s.creates.update(p, s.creates[p].push(op)), ..s }
}

/// A new context operation.
pub open spec fn context_op(x: nat, kind: I18nContextKind, block: Option<XrefId>, message: Option<u32>) -> CreateOp {
    CreateOp::I18nContext(I18nContextOp { xref: XrefId(x as u32), context_kind: kind, i18n_block: block, message })
}

/// The contexts of the attribute messages, from the `k`-th attribute on: a
/// message met for the first time gets a fresh context, appended to the view
/// of that attribute; `m` maps each message met to its context. None when no
/// id is left.
pub open spec fn attr_context_pass(s: CtxState, refs: Seq<AttrRef>, k: int, m: Map<u32, u32>) -> Option<(CtxState, Map<u32, u32>)>
    decreases refs.len() - k,
{
    if k < 0 || k >= refs.len() {
        Some((s, m))
    } else {
        let r = refs[k];
        if m.contains_key(r.message) {
            attr_context_pass(s, refs, k + 1, m)
        } else if s.next >= u32::MAX {
            None
        } else {
            attr_context_pass(
                CtxState { next: s.next + 1, ..push_op(s, r.pos as int, context_op(s.next, I18nContextKind::Attr, None, Some(r.message))) },
                refs,
                k + 1,
                m.insert(r.message, s.next as u32),
            )
        }
    }
}

/// Whether `m` gives distinct keys distinct values, all in `[lo, hi)`.
pub open spec fn fresh_distinct(m: Map<u32, u32>, lo: nat, hi: nat) -> bool {
    &&& forall|a: u32| #[trigger] m.contains_key(a) ==> lo <= m[a] < hi
    &&& forall|a: u32, b: u32| #[trigger] m.contains_key(a) && #[trigger] m.contains_key(b) && a != b ==> m[a] != m[b]
}

proof fn lemma_attr_context_pass(s: CtxState, refs: Seq<AttrRef>, k: int, m: Map<u32, u32>, lo: nat)
    requires
        0 <= k <= refs.len(),
        attr_context_pass(s, refs, k, m) is Some,
        lo <= s.next,
        fresh_distinct(m, lo, s.next),
        forall|i: int| 0 <= i < k ==> m.contains_key(#[trigger] refs[i].message),
    ensures
        ({
            let (s1, m1) = attr_context_pass(s, refs, k, m)->Some_0;
            &&& fresh_distinct(m1, lo, s1.next)
            &&& forall|i: int| 0 <= i < refs.len() ==> m1.contains_key(#[trigger] refs[i].message)
            &&& s.next <= s1.next
        }),
    decreases refs.len() - k,
{
    if k < refs.len() {
        let r = refs[k];
        if m.contains_key(r.message) {
            lemma_attr_context_pass(s, refs, k + 1, m, lo);
        } else {
            let s2 = CtxState {
                next: s.next + 1,
                ..push_op(s, r.pos as int, context_op(s.next, I18nContextKind::Attr, None, Some(r.message)))
            };
            let m2 = m.insert(r.message, s.next as u32);
            assert(fresh_distinct(m2, lo, s2.next)) by {
                assert forall|a: u32, b: u32| #[trigger] m2.contains_key(a) && #[trigger] m2.contains_key(b) && a != b implies m2[a] != m2[b] by {
                    if a != r.message && b != r.message {
                        assert(m.contains_key(a) && m.contains_key(b));
                    } else if a == r.message {
                        assert(m.contains_key(b));
                    } else {
                        assert(m.contains_key(a));
                    }
                }
            }
            assert forall|i: int| 0 <= i < k + 1 implies m2.contains_key(#[trigger] refs[i].message) by {
                if i < k {
                    assert(m.contains_key(refs[i].message));
                }
            }
            lemma_attr_context_pass(s2, refs, k + 1, m2, lo);
        }
    }
}

/// Every translated attribute has a context, and each attribute message has
/// its own: distinct messages get distinct contexts, all fresh ids from the
/// job's next free id on.
pub proof fn law_attr_contexts_fresh_and_distinct(job: ComponentCompilationJob)
    requires
        job.next_xref + contexts_bound(job) <= u32::MAX,
    ensures
        ({
            let s0 = ctx_state(job);
            let refs = attr_refs(s0, job.views@.len() + 1int);
            let (s1, m) = attr_context_pass(s0, refs, 0, Map::empty())->Some_0;
            &&& forall|i: int| 0 <= i < refs.len() ==> m.contains_key(#[trigger] refs[i].message)
            &&& fresh_distinct(m, job.next_xref as nat, s1.next)
        }),
{
    lemma_contexts_fit(job);
    let s0 = ctx_state(job);
    let refs = attr_refs(s0, job.views@.len() + 1int);
    lemma_attr_context_pass(s0, refs, 0, Map::empty(), job.next_xref as nat);
}

/// An extracted attribute with the target and name given takes the context `c`.
pub open spec fn with_attr_context(op: CreateOp, target: XrefId, name: Seq<char>, c: XrefId) -> CreateOp {
    match op {
        CreateOp::ExtractedAttribute(a) => if a.target == target && a.name@ == name {
            CreateOp::ExtractedAttribute(ExtractedAttributeOp { i18n_context: Some(c), ..a })
        } else {
            op
        },
        _ => op,
    }
}

/// A property or attribute binding with the target and name given takes the context `c`.
pub open spec fn with_binding_context(op: UpdateOp, target: XrefId, name: Seq<char>, c: XrefId) -> UpdateOp {
    match op {
        UpdateOp::Property(b) => if b.target == target && b.name@ == name {
            UpdateOp::Property(UpdateBindingOp { i18n_context: Some(c), ..b })
        } else {
            op
        },
        UpdateOp::Attribute(b) => if b.target == target && b.name@ == name {
            UpdateOp::Attribute(UpdateBindingOp { i18n_context: Some(c), ..b })
        } else {
            op
        },
        _ => op,
    }
}

/// The attribute `r` hands the context `c` to every operation of its view
/// with its kind, target and name.
pub open spec fn assign_attr(s: CtxState, r: AttrRef, c: XrefId) -> CtxState {
    let p = r.pos as int;
    if r.is_create {
        CtxState {
            creates: s.creates.update(p, s.creates[p].map_values(|op: CreateOp| with_attr_context(op, r.target, r.name@, c))),
            ..s
        }
    } else {
        CtxState {
            updates: s.updates.update(p, s.updates[p].map_values(|op: UpdateOp| with_binding_context(op, r.target, r.name@, c))),
            ..s
        }
    }
}

/// The attributes from the `k`-th on take the contexts of their messages.
pub open spec fn attr_assign_pass(s: CtxState, refs: Seq<AttrRef>, k: int, m: Map<u32, u32>) -> CtxState
    decreases refs.len() - k,
{
    if k < 0 || k >= refs.len() {
        s
    } else if m.contains_key(refs[k].message) {
        attr_assign_pass(assign_attr(s, refs[k], XrefId(m[refs[k].message])), refs, k + 1, m)
    } else {
        attr_assign_pass(s, refs, k + 1, m)
    }
}

/// A block start: its view, its id, and its message or its root.
pub struct BlockRef {
    pub pos: usize,
    pub xref: XrefId,
    pub message: Option<u32>,
    pub root: XrefId,
}

/// Whether an i18n block start is a root block: no root, or itself as root.
pub open spec fn is_root_start(o: I18nStartOp) -> bool {
    o.root is None || o.root == Some(o.xref)
}

/// The root i18n blocks of the creation list `c` of the view at `p`.
pub open spec fn view_root_refs(p: usize, c: Seq<CreateOp>) -> Seq<BlockRef>
    decreases c.len(),
{
    if c.len() == 0 {
        seq![]
    } else {
        view_root_refs(p, c.drop_last()) + match c.last() {
            CreateOp::I18nStart(o) => if is_root_start(o) {
                seq![BlockRef { pos: p, xref: o.xref, message: o.message, root: o.xref }]
            } else {
                seq![]
            },
            _ => seq![],
        }
    }
}

/// The child i18n blocks of the creation list `c` of the view at `p`.
pub open spec fn view_child_refs(p: usize, c: Seq<CreateOp>) -> Seq<BlockRef>
    decreases c.len(),
{
    if c.len() == 0 {
        seq![]
    } else {
        view_child_refs(p, c.drop_last()) + match c.last() {
            CreateOp::I18nStart(o) => match o.root {
                Some(r) => if r != o.xref {
                    seq![BlockRef { pos: p, xref: o.xref, message: o.message, root: r }]
                } else {
                    seq![]
                },
                None => seq![],
            },
            _ => seq![],
        }
    }
}

/// The root (`roots`) or child i18n blocks of the first `k` views, in order.
pub open spec fn block_refs(creates: Seq<Seq<CreateOp>>, k: int, roots: bool) -> Seq<BlockRef>
    decreases k,
{
    if k <= 0 {
        seq![]
    } else {
        block_refs(creates, k - 1, roots) + if roots {
            view_root_refs((k - 1) as usize, creates[k - 1])
        } else {
            view_child_refs((k - 1) as usize, creates[k - 1])
        }
    }
}

/// The creation list `c` with the first start of the i18n block `x` taking the context `ctx`.
pub open spec fn with_start_context(c: Seq<CreateOp>, x: XrefId, ctx: XrefId) -> Seq<CreateOp> {
    match find_block_start(c, x, 0) {
        Some(q) => c.update(q, CreateOp::I18nStart(I18nStartOp { context: Some(ctx), ..c[q]->I18nStart_0 })),
        None => c,
    }
}

/// The contexts of the root i18n blocks, from the `k`-th on: each gets a fresh
/// context, appended to its view, and records it; `bm` maps each block to its
/// context. None when no id is left.
pub open spec fn root_pass(s: CtxState, refs: Seq<BlockRef>, k: int, bm: Map<u32, u32>) -> Option<(CtxState, Map<u32, u32>)>
    decreases refs.len() - k,
{
    if k < 0 || k >= refs.len() {
        Some((s, bm))
    } else if s.next >= u32::MAX {
        None
    } else {
        let r = refs[k];
        let p = r.pos as int;
        let c = s.creates[p].push(context_op(s.next, I18nContextKind::RootI18n, Some(r.xref), r.message));
        root_pass(
            CtxState {
                creates: s.creates.update(p, with_start_context(c, r.xref, XrefId(s.next as u32))),
                next: s.next + 1,
                ..s
            },
            refs,
            k + 1,
            bm.insert(r.xref.0, s.next as u32),
        )
    }
}

proof fn lemma_root_pass(s: CtxState, refs: Seq<BlockRef>, k: int, bm: Map<u32, u32>, lo: nat)
    requires
        0 <= k <= refs.len(),
        root_pass(s, refs, k, bm) is Some,
        lo <= s.next,
        fresh_distinct(bm, lo, s.next),
        forall|i: int| 0 <= i < k ==> bm.contains_key(#[trigger] refs[i].xref.0),
    ensures
        ({
            let (s1, bm1) = root_pass(s, refs, k, bm)->Some_0;
            &&& fresh_distinct(bm1, lo, s1.next)
            &&& forall|i: int| 0 <= i < refs.len() ==> bm1.contains_key(#[trigger] refs[i].xref.0)
            &&& s.next <= s1.next
        }),
    decreases refs.len() - k,
{
    if k < refs.len() {
        let r = refs[k];
        let p = r.pos as int;
        let c = s.creates[p].push(context_op(s.next, I18nContextKind::RootI18n, Some(r.xref), r.message));
        let s2 = CtxState {
            creates: s.creates.update(p, with_start_context(c, r.xref, XrefId(s.next as u32))),
            next: s.next + 1,
            ..s
        };
        let bm2 = bm.insert(r.xref.0, s.next as u32);
        assert(fresh_distinct(bm2, lo, s2.next)) by {
            assert forall|a: u32, b: u32| #[trigger] bm2.contains_key(a) && #[trigger] bm2.contains_key(b) && a != b implies bm2[a] != bm2[b] by {
                if a != r.xref.0 && b != r.xref.0 {
                    assert(bm.contains_key(a) && bm.contains_key(b));
                } else if a == r.xref.0 {
                    assert(bm.contains_key(b));
                } else {
                    assert(bm.contains_key(a));
                }
            }
        }
        assert forall|i: int| 0 <= i < k + 1 implies bm2.contains_key(#[trigger] refs[i].xref.0) by {
            if i < k {
                assert(bm.contains_key(refs[i].xref.0));
            }
        }
        lemma_root_pass(s2, refs, k + 1, bm2, lo);
    }
}

/// Every root i18n block has a context of its own: the contexts the root
/// blocks record are distinct fresh ids, from the next free id after the
/// attribute contexts on.
pub proof fn law_root_contexts_fresh_and_distinct(job: ComponentCompilationJob)
    requires
        job.next_xref + contexts_bound(job) <= u32::MAX,
    ensures
        ({
            let s0 = ctx_state(job);
            let n = job.views@.len() + 1int;
            let refs = attr_refs(s0, n);
            let (s1, m) = attr_context_pass(s0, refs, 0, Map::empty())->Some_0;
            let s2 = attr_assign_pass(s1, refs, 0, m);
            let roots = block_refs(s2.creates, n, true);
            let (s3, bm) = root_pass(s2, roots, 0, Map::empty())->Some_0;
            &&& forall|i: int| 0 <= i < roots.len() ==> bm.contains_key(#[trigger] roots[i].xref.0)
            &&& fresh_distinct(bm, s2.next, s3.next)
        }),
{
    lemma_contexts_fit(job);
    let s0 = ctx_state(job);
    let n = job.views@.len() + 1int;
    let refs = attr_refs(s0, n);
    let (s1, m) = attr_context_pass(s0, refs, 0, Map::empty())->Some_0;
    let s2 = attr_assign_pass(s1, refs, 0, m);
    let roots = block_refs(s2.creates, n, true);
    lemma_root_pass(s2, roots, 0, Map::empty(), s2.next);
}

/// The child i18n blocks, from the `k`-th on, take the context of their root
/// block when it has one, and record it.
pub open spec fn child_pass(s: CtxState, refs: Seq<BlockRef>, k: int, bm: Map<u32, u32>) -> CtxState
    decreases refs.len() - k,
{
    if k < 0 || k >= refs.len() {
        s
    } else {
        let r = refs[k];
        let p = r.pos as int;
        if bm.contains_key(r.root.0) {
            let rc = bm[r.root.0];
            child_pass(
                CtxState { creates: s.creates.update(p, with_start_context(s.creates[p], r.xref, XrefId(rc))), ..s },
                refs,
                k + 1,
                bm.insert(r.xref.0, rc),
            )
        } else {
            child_pass(s, refs, k + 1, bm)
        }
    }
}

/// An ICU expression inside an i18n block: its id and message, and the id,
/// message and context of the block.
pub struct IcuRef {
    pub icu: XrefId,
    pub icu_message: Option<u32>,
    pub block: XrefId,
    pub block_message: Option<u32>,
    pub block_context: Option<XrefId>,
}

/// The ICU expressions of `c` from `k` on that stand inside an i18n block,
/// `cur` being the block open at `k`.
pub open spec fn icu_refs(c: Seq<CreateOp>, k: int, cur: Option<(XrefId, Option<u32>, Option<XrefId>)>) -> Seq<IcuRef>
    decreases c.len() - k,
{
    if k < 0 || k >= c.len() {
        seq![]
    } else {
        match c[k] {
            CreateOp::I18nStart(o) => icu_refs(c, k + 1, Some((o.xref, o.message, o.context))),
            CreateOp::I18nEnd(_) => icu_refs(c, k + 1, None),
            CreateOp::IcuStart(o) => match cur {
                Some((b, bm, bc)) => seq![
                    IcuRef { icu: o.xref, icu_message: o.message, block: b, block_message: bm, block_context: bc },
                ] + icu_refs(c, k + 1, cur),
                None => icu_refs(c, k + 1, cur),
            },
            _ => icu_refs(c, k + 1, cur),
        }
    }
}

/// The first position at or after `k` of the start of the ICU expression `x`.
pub open spec fn find_icu_start(c: Seq<CreateOp>, x: XrefId, k: int) -> Option<int>
    decreases c.len() - k,
{
    if k < 0 || k >= c.len() {
        None
    } else if c[k] matches CreateOp::IcuStart(o) && o.xref == x {
        Some(k)
    } else {
        find_icu_start(c, x, k + 1)
    }
}

/// The first position at or after `k` of the context operation `x`.
pub open spec fn find_context(c: Seq<CreateOp>, x: XrefId, k: int) -> Option<int>
    decreases c.len() - k,
{
    if k < 0 || k >= c.len() {
        None
    } else if c[k] matches CreateOp::I18nContext(o) && o.xref == x {
        Some(k)
    } else {
        find_context(c, x, k + 1)
    }
}

/// The creation list `c` with the first start of the ICU expression `x` taking the context `ctx`.
pub open spec fn with_icu_context(c: Seq<CreateOp>, x: XrefId, ctx: XrefId) -> Seq<CreateOp> {
    match find_icu_start(c, x, 0) {
        Some(q) => c.update(q, CreateOp::IcuStart(I18nStartOp { context: Some(ctx), ..c[q]->IcuStart_0 })),
        None => c,
    }
}

/// The creation list `c` with the first context operation `x` turned into an ICU context.
pub open spec fn as_icu_context(c: Seq<CreateOp>, x: XrefId) -> Seq<CreateOp> {
    match find_context(c, x, 0) {
        Some(q) => c.update(
            q,
            CreateOp::I18nContext(I18nContextOp { context_kind: I18nContextKind::Icu, ..c[q]->I18nContext_0 }),
        ),
        None => c,
    }
}

/// The root of the i18n block `x` in `c`: the root of its first start when it
/// has one, else `x` itself.
pub open spec fn block_root(c: Seq<CreateOp>, x: XrefId) -> XrefId {
    match find_block_start(c, x, 0) {
        Some(q) => match c[q]->I18nStart_0.root {
            Some(r) => r,
            None => x,
        },
        None => x,
    }
}

/// The ICU expressions `refs` of the view at `p`, from the `k`-th on: one whose
/// message differs from its block's gets a fresh context rooted in the block's
/// root, appended to the view; one with the block's message takes over the
/// block's context, which becomes an ICU context. None when no id is left.
pub open spec fn icu_pass(s: CtxState, p: int, refs: Seq<IcuRef>, k: int) -> Option<CtxState>
    decreases refs.len() - k,
{
    if k < 0 || k >= refs.len() {
        Some(s)
    } else {
        let r = refs[k];
        let c = s.creates[p];
        if r.icu_message != r.block_message {
            if s.next >= u32::MAX {
                None
            } else {
                let c2 = c.push(context_op(s.next, I18nContextKind::Icu, Some(block_root(c, r.block)), r.icu_message));
                icu_pass(
                    CtxState {
                        creates: s.creates.update(p, with_icu_context(c2, r.icu, XrefId(s.next as u32))),
                        next: s.next + 1,
                        ..s
                    },
                    p,
                    refs,
                    k + 1,
                )
            }
        } else {
            match r.block_context {
                Some(bc) => icu_pass(
                    CtxState { creates: s.creates.update(p, as_icu_context(with_icu_context(c, r.icu, bc), bc)), ..s },
                    p,
                    refs,
                    k + 1,
                ),
                None => icu_pass(s, p, refs, k + 1),
            }
        }
    }
}

/// The ICU contexts of the views from the `p`-th on, of `n` views.
pub open spec fn icu_views(s: CtxState, p: int, n: int) -> Option<CtxState>
    decreases n - p,
{
    if p < 0 || p >= n {
        Some(s)
    } else {
        match icu_pass(s, p, icu_refs(s.creates[p], 0, None), 0) {
            None => None,
            Some(s2) => icu_views(s2, p + 1, n),
        }
    }
}

/// The whole phase on a job: the state afterwards, or none when no id is left.
pub open spec fn contexts(job: ComponentCompilationJob) -> Option<CtxState> {
    let s0 = ctx_state(job);
    let n = job.views@.len() + 1int;
    let refs = attr_refs(s0, n);
    match attr_context_pass(s0, refs, 0, Map::empty()) {
        None => None,
        Some((s1, m)) => {
            let s2 = attr_assign_pass(s1, refs, 0, m);
            match root_pass(s2, block_refs(s2.creates, n, true), 0, Map::empty()) {
                None => None,
                Some((s3, bm)) => {
                    let s4 = child_pass(s3, block_refs(s3.creates, n, false), 0, bm);
                    icu_views(s4, 0, n)
                },
            }
        },
    }
}

/// Whether the job `after` is `before` with its i18n contexts created.
pub open spec fn job_i18n_contexts_created(before: ComponentCompilationJob, after: ComponentCompilationJob) -> bool {
    let r = contexts(before)->Some_0;
    &&& view_creates(after) == r.creates
    &&& view_updates(after) == r.updates
    &&& after.next_xref == r.next
    &&& view_xrefs(after) == view_xrefs(before)
    &&& after.root.functions == before.root.functions
    &&& after.root.decl_count == before.root.decl_count
    &&& after.views@.len() == before.views@.len()
    &&& forall|i: int|
        0 <= i < before.views@.len() ==> {
            &&& (#[trigger] after.views@[i]).functions == before.views@[i].functions
            &&& after.views@[i].decl_count == before.views@[i].decl_count
        }
    &&& after.consts == before.consts
    &&& after.diagnostics == before.diagnostics
    &&& after.compatibility_mode == before.compatibility_mode
    &&& after.mode == before.mode
    &&& after.enable_debug_locations == before.enable_debug_locations
    &&& after.relative_template_path == before.relative_template_path
    &&& after.template_source == before.template_source
}

/// Whether `b` keeps everything of `a` but the operation lists and the next free id.
pub open spec fn frame(a: ComponentCompilationJob, b: ComponentCompilationJob) -> bool {
    &&& b.root.xref == a.root.xref
    &&& b.root.functions == a.root.functions
    &&& b.root.decl_count == a.root.decl_count
    &&& b.views@.len() == a.views@.len()
    &&& forall|i: int|
        0 <= i < a.views@.len() ==> {
            &&& (#[trigger] b.views@[i]).xref == a.views@[i].xref
            &&& b.views@[i].functions == a.views@[i].functions
            &&& b.views@[i].decl_count == a.views@[i].decl_count
        }
    &&& b.consts == a.consts
    &&& b.diagnostics == a.diagnostics
    &&& b.compatibility_mode == a.compatibility_mode
    &&& b.mode == a.mode
    &&& b.enable_debug_locations == a.enable_debug_locations
    &&& b.relative_template_path == a.relative_template_path
    &&& b.template_source == a.template_source
}

proof fn lemma_frame_trans(a: ComponentCompilationJob, b: ComponentCompilationJob, c: ComponentCompilationJob)
    requires
        frame(a, b),
        frame(b, c),
    ensures
        frame(a, c),
{
    assert forall|i: int| 0 <= i < a.views@.len() implies {
        &&& (#[trigger] c.views@[i]).xref == a.views@[i].xref
        &&& c.views@[i].functions == a.views@[i].functions
        &&& c.views@[i].decl_count == a.views@[i].decl_count
    } by {
        assert(b.views@[i].xref == a.views@[i].xref);
    }
}

proof fn lemma_frame_xrefs(a: ComponentCompilationJob, b: ComponentCompilationJob)
    requires
        frame(a, b),
    ensures
        view_xrefs(b) == view_xrefs(a),
        view_creates(b).len() == a.views@.len() + 1,
        view_updates(b).len() == a.views@.len() + 1,
        view_creates(a).len() == a.views@.len() + 1,
        view_updates(a).len() == a.views@.len() + 1,
{
    assert(view_xrefs(b) =~= view_xrefs(a)) by {
        assert forall|i: int| 0 <= i < view_xrefs(a).len() implies view_xrefs(b)[i] == view_xrefs(a)[i] by {
            if i > 0 {
                assert(b.views@[i - 1].xref == a.views@[i - 1].xref);
            }
        }
    }
}

/// The creation list of the view at `p`.
fn creates_at(job: &ComponentCompilationJob, p: usize) -> (c: &Vec<CreateOp>)
    requires
        p <= job.views@.len(),
    ensures
        c@ == view_creates(*job)[p as int],
{
    if p == 0 {
        &job.root.create
    } else {
        &job.views[p - 1].create
    }
}

/// The update list of the view at `p`.
fn updates_at(job: &ComponentCompilationJob, p: usize) -> (u: &Vec<UpdateOp>)
    requires
        p <= job.views@.len(),
    ensures
        u@ == view_updates(*job)[p as int],
{
    if p == 0 {
        &job.root.update
    } else {
        &job.views[p - 1].update
    }
}

/// Takes the creation list of the view at `p` out of the job.
fn take_creates(job: &mut ComponentCompilationJob, p: usize) -> (c: Vec<CreateOp>)
    requires
        p <= old(job).views@.len(),
    ensures
        c@ == view_creates(*old(job))[p as int],
        view_creates(*final(job)) == view_creates(*old(job)).update(p as int, seq![]),
        view_updates(*final(job)) == view_updates(*old(job)),
        frame(*old(job), *final(job)),
        final(job).next_xref == old(job).next_xref,
{
    let mut c: Vec<CreateOp> = Vec::new();
    if p == 0 {
        std::mem::swap(&mut c, &mut job.root.create);
    } else {
        std::mem::swap(&mut c, &mut job.views[p - 1].create);
    }
    assert(view_creates(*job) =~= view_creates(*old(job)).update(p as int, seq![]));
    assert(view_updates(*job) =~= view_updates(*old(job)));
    c
}

/// Puts `c` back as the creation list of the view at `p`.
fn put_creates(job: &mut ComponentCompilationJob, p: usize, c: Vec<CreateOp>)
    requires
        p <= old(job).views@.len(),
    ensures
        view_creates(*final(job)) == view_creates(*old(job)).update(p as int, c@),
        view_updates(*final(job)) == view_updates(*old(job)),
        frame(*old(job), *final(job)),
        final(job).next_xref == old(job).next_xref,
{
    let ghost c0 = c@;
    let mut c = c;
    if p == 0 {
        std::mem::swap(&mut c, &mut job.root.create);
    } else {
        std::mem::swap(&mut c, &mut job.views[p - 1].create);
    }
    assert(view_creates(*job) =~= view_creates(*old(job)).update(p as int, c0));
    assert(view_updates(*job) =~= view_updates(*old(job)));
}

/// Takes the update list of the view at `p` out of the job.
fn take_updates(job: &mut ComponentCompilationJob, p: usize) -> (u: Vec<UpdateOp>)
    requires
        p <= old(job).views@.len(),
    ensures
        u@ == view_updates(*old(job))[p as int],
        view_updates(*final(job)) == view_updates(*old(job)).update(p as int, seq![]),
        view_creates(*final(job)) == view_creates(*old(job)),
        frame(*old(job), *final(job)),
        final(job).next_xref == old(job).next_xref,
{
    let mut u: Vec<UpdateOp> = Vec::new();
    if p == 0 {
        std::mem::swap(&mut u, &mut job.root.update);
    } else {
        std::mem::swap(&mut u, &mut job.views[p - 1].update);
    }
    assert(view_updates(*job) =~= view_updates(*old(job)).update(p as int, seq![]));
    assert(view_creates(*job) =~= view_creates(*old(job)));
    u
}

/// Puts `u` back as the update list of the view at `p`.
fn put_updates(job: &mut ComponentCompilationJob, p: usize, u: Vec<UpdateOp>)
    requires
        p <= old(job).views@.len(),
    ensures
        view_updates(*final(job)) == view_updates(*old(job)).update(p as int, u@),
        view_creates(*final(job)) == view_creates(*old(job)),
        frame(*old(job), *final(job)),
        final(job).next_xref == old(job).next_xref,
{
    let ghost u0 = u@;
    let mut u = u;
    if p == 0 {
        std::mem::swap(&mut u, &mut job.root.update);
    } else {
        std::mem::swap(&mut u, &mut job.views[p - 1].update);
    }
    assert(view_updates(*job) =~= view_updates(*old(job)).update(p as int, u0));
    assert(view_creates(*job) =~= view_creates(*old(job)));
}

/// Appends `op` to the creation list of the view at `p`.
fn push_create(job: &mut ComponentCompilationJob, p: usize, op: CreateOp)
    requires
        p <= old(job).views@.len(),
    ensures
        ctx_state(*final(job)) == push_op(ctx_state(*old(job)), p as int, op),
        frame(*old(job), *final(job)),
{
    let ghost j0 = *job;
    let mut c = take_creates(job, p);
    c.push(op);
    let ghost j1 = *job;
    put_creates(job, p, c);
    proof {
        lemma_frame_trans(j0, j1, *job);
        lemma_frame_xrefs(j0, *job);
    }
    assert(view_creates(*job) =~= view_creates(j0).update(p as int, view_creates(j0)[p as int].push(op)));
}

/// Appends the translated extracted attributes of `c`, in the view at `p`, to `out`.
fn collect_create_attr_refs(p: usize, c: &Vec<CreateOp>, out: &mut Vec<AttrRef>)
    ensures
        final(out)@ == old(out)@ + create_attr_refs(p, c@),
{
    let mut i: usize = 0;
    while i < c.len()
        invariant
            i <= c@.len(),
            out@ == old(out)@ + create_attr_refs(p, c@.take(i as int)),
        decreases c@.len() - i,
    {
        assert(c@.take(i + 1).drop_last() =~= c@.take(i as int));
        let ghost before = out@;
        match &c[i] {
            CreateOp::ExtractedAttribute(a) => match a.i18n_message {
                Some(m) => {
                    out.push(AttrRef { pos: p, message: m, is_create: true, target: a.target, name: a.name.clone() });
                },
                None => {},
            },
            _ => {},
        }
        assert(out@ =~= old(out)@ + create_attr_refs(p, c@.take(i + 1)));
        i = i + 1;
    }
    assert(c@.take(c@.len() as int) =~= c@);
}

/// Appends the translated property and attribute bindings of `u`, in the view at `p`, to `out`.
fn collect_update_attr_refs(p: usize, u: &Vec<UpdateOp>, out: &mut Vec<AttrRef>)
    ensures
        final(out)@ == old(out)@ + update_attr_refs(p, u@),
{
    let mut i: usize = 0;
    while i < u.len()
        invariant
            i <= u@.len(),
            out@ == old(out)@ + update_attr_refs(p, u@.take(i as int)),
        decreases u@.len() - i,
    {
        assert(u@.take(i + 1).drop_last() =~= u@.take(i as int));
        match &u[i] {
            UpdateOp::Property(b) => match b.i18n_message {
                Some(m) => {
                    out.push(AttrRef { pos: p, message: m, is_create: false, target: b.target, name: b.name.clone() });
                },
                None => {},
            },
            UpdateOp::Attribute(b) => match b.i18n_message {
                Some(m) => {
                    out.push(AttrRef { pos: p, message: m, is_create: false, target: b.target, name: b.name.clone() });
                },
                None => {},
            },
            _ => {},
        }
        assert(out@ =~= old(out)@ + update_attr_refs(p, u@.take(i + 1)));
        i = i + 1;
    }
    assert(u@.take(u@.len() as int) =~= u@);
}

/// The translated attributes of all views of the job, in order.
fn collect_attr_refs(job: &ComponentCompilationJob) -> (r: Vec<AttrRef>)
    ensures
        r@ == attr_refs(ctx_state(*job), job.views@.len() + 1int),
{
    let mut r: Vec<AttrRef> = Vec::new();
    collect_create_attr_refs(0, creates_at(job, 0), &mut r);
    collect_update_attr_refs(0, updates_at(job, 0), &mut r);
    assert(attr_refs(ctx_state(*job), 0) =~= Seq::<AttrRef>::empty());
    assert(r@ =~= attr_refs(ctx_state(*job), 1));
    let mut i: usize = 0;
    while i < job.views.len()
        invariant
            i <= job.views@.len(),
            r@ == attr_refs(ctx_state(*job), i + 1),
        decreases job.views@.len() - i,
    {
        collect_create_attr_refs(i + 1, creates_at(job, i + 1), &mut r);
        collect_update_attr_refs(i + 1, updates_at(job, i + 1), &mut r);
        i = i + 1;
    }
    r
}

proof fn lemma_create_refs_pos(p: usize, c: Seq<CreateOp>)
    ensures
        forall|i: int| 0 <= i < create_attr_refs(p, c).len() ==> (#[trigger] create_attr_refs(p, c)[i]).pos == p,
    decreases c.len(),
{
    if c.len() > 0 {
        lemma_create_refs_pos(p, c.drop_last());
        let a = create_attr_refs(p, c.drop_last());
        assert forall|i: int| 0 <= i < create_attr_refs(p, c).len() implies (#[trigger] create_attr_refs(p, c)[i]).pos == p by {
            if i < a.len() {
                assert(create_attr_refs(p, c)[i] == a[i]);
            }
        }
    }
}

proof fn lemma_update_refs_pos(p: usize, u: Seq<UpdateOp>)
    ensures
        forall|i: int| 0 <= i < update_attr_refs(p, u).len() ==> (#[trigger] update_attr_refs(p, u)[i]).pos == p,
    decreases u.len(),
{
    if u.len() > 0 {
        lemma_update_refs_pos(p, u.drop_last());
        let a = update_attr_refs(p, u.drop_last());
        assert forall|i: int| 0 <= i < update_attr_refs(p, u).len() implies (#[trigger] update_attr_refs(p, u)[i]).pos == p by {
            if i < a.len() {
                assert(update_attr_refs(p, u)[i] == a[i]);
            }
        }
    }
}

proof fn lemma_attr_refs_pos(s: CtxState, k: int)
    ensures
        forall|i: int| 0 <= i < attr_refs(s, k).len() ==> (#[trigger] attr_refs(s, k)[i]).pos < k,
    decreases k,
{
    if k > 0 {
        lemma_attr_refs_pos(s, k - 1);
        lemma_create_refs_pos((k - 1) as usize, s.creates[k - 1]);
        lemma_update_refs_pos((k - 1) as usize, s.updates[k - 1]);
        let a = attr_refs(s, k - 1);
        let b = create_attr_refs((k - 1) as usize, s.creates[k - 1]);
        let c = update_attr_refs((k - 1) as usize, s.updates[k - 1]);
        assert forall|i: int| 0 <= i < attr_refs(s, k).len() implies (#[trigger] attr_refs(s, k)[i]).pos < k by {
            if i < a.len() {
                assert(attr_refs(s, k)[i] == a[i]);
            } else if i < a.len() + b.len() {
                assert(attr_refs(s, k)[i] == b[i - a.len()]);
            } else {
                assert(attr_refs(s, k)[i] == c[i - a.len() - b.len()]);
            }
        }
    }
}

/// Gives each attribute message met for the first time a fresh context.
fn attr_context_exec(job: &mut ComponentCompilationJob, refs: &Vec<AttrRef>, m: &mut FxHashMap<u32, u32>)
    requires
        attr_context_pass(ctx_state(*old(job)), refs@, 0, old(m)@) is Some,
        forall|i: int| 0 <= i < refs@.len() ==> (#[trigger] refs@[i]).pos <= old(job).views@.len(),
    ensures
        attr_context_pass(ctx_state(*old(job)), refs@, 0, old(m)@) == Some((ctx_state(*final(job)), final(m)@)),
        frame(*old(job), *final(job)),
{
    let ghost target = attr_context_pass(ctx_state(*job), refs@, 0, m@);
    let mut k: usize = 0;
    while k < refs.len()
        invariant
            k <= refs@.len(),
            frame(*old(job), *job),
            job.views@.len() == old(job).views@.len(),
            forall|i: int| 0 <= i < refs@.len() ==> (#[trigger] refs@[i]).pos <= old(job).views@.len(),
            attr_context_pass(ctx_state(*job), refs@, k as int, m@) == target,
            target is Some,
        decreases refs@.len() - k,
    {
        let r = &refs[k];
        match fx_map_get(m, r.message) {
            Some(_) => {},
            None => {
                let ghost j0 = *job;
                let n = job.next_xref;
                job.next_xref = n + 1;
                let ghost j1 = *job;
                push_create(
                    job,
                    r.pos,
                    CreateOp::I18nContext(
                        I18nContextOp { xref: XrefId(n), context_kind: I18nContextKind::Attr, i18n_block: None, message: Some(r.message) },
                    ),
                );
                fx_map_insert(m, r.message, n);
                proof {
                    lemma_frame_trans(j0, j1, *job);
                    lemma_frame_trans(*old(job), j0, *job);
                }
            },
        }
        k = k + 1;
    }
}

/// An extracted attribute with the target and name given takes the context `c`.
fn attr_with_context(op: CreateOp, target: XrefId, name: &String, c: XrefId) -> (r: CreateOp)
    ensures
        r == with_attr_context(op, target, name@, c),
{
    match op {
        CreateOp::ExtractedAttribute(a) => if a.target == target && str_eq(a.name.as_str(), name.as_str()) {
            CreateOp::ExtractedAttribute(ExtractedAttributeOp { i18n_context: Some(c), ..a })
        } else {
            CreateOp::ExtractedAttribute(a)
        },
        other => other,
    }
}

/// A property or attribute binding with the target and name given takes the context `c`.
fn binding_with_context(op: UpdateOp, target: XrefId, name: &String, c: XrefId) -> (r: UpdateOp)
    ensures
        r == with_binding_context(op, target, name@, c),
{
    match op {
        UpdateOp::Property(b) => if b.target == target && str_eq(b.name.as_str(), name.as_str()) {
            UpdateOp::Property(UpdateBindingOp { i18n_context: Some(c), ..b })
        } else {
            UpdateOp::Property(b)
        },
        UpdateOp::Attribute(b) => if b.target == target && str_eq(b.name.as_str(), name.as_str()) {
            UpdateOp::Attribute(UpdateBindingOp { i18n_context: Some(c), ..b })
        } else {
            UpdateOp::Attribute(b)
        },
        other => other,
    }
}

/// Every extracted attribute of `c` with the target and name given takes the context `x`.
fn attr_contexts_in(c: &mut Vec<CreateOp>, target: XrefId, name: &String, x: XrefId)
    ensures
        final(c)@ == old(c)@.map_values(|op: CreateOp| with_attr_context(op, target, name@, x)),
{
    let mut i: usize = 0;
    while i < c.len()
        invariant
            i <= c@.len(),
            c@.len() == old(c)@.len(),
            forall|j: int| 0 <= j < i ==> #[trigger] c@[j] == with_attr_context(old(c)@[j], target, name@, x),
            forall|j: int| i <= j < c@.len() ==> #[trigger] c@[j] == old(c)@[j],
        decreases c@.len() - i,
    {
        let mut op = CreateOp::ElementEnd(XrefId(0));
        std::mem::swap(&mut op, &mut c[i]);
        let r = attr_with_context(op, target, name, x);
        c.set(i, r);
        i = i + 1;
    }
    assert(c@ =~= old(c)@.map_values(|op: CreateOp| with_attr_context(op, target, name@, x)));
}

/// Every property or attribute binding of `u` with the target and name given takes the context `x`.
fn binding_contexts_in(u: &mut Vec<UpdateOp>, target: XrefId, name: &String, x: XrefId)
    ensures
        final(u)@ == old(u)@.map_values(|op: UpdateOp| with_binding_context(op, target, name@, x)),
{
    let mut i: usize = 0;
    while i < u.len()
        invariant
            i <= u@.len(),
            u@.len() == old(u)@.len(),
            forall|j: int| 0 <= j < i ==> #[trigger] u@[j] == with_binding_context(old(u)@[j], target, name@, x),
            forall|j: int| i <= j < u@.len() ==> #[trigger] u@[j] == old(u)@[j],
        decreases u@.len() - i,
    {
        let mut op = UpdateOp::ListEnd;
        std::mem::swap(&mut op, &mut u[i]);
        let r = binding_with_context(op, target, name, x);
        u.set(i, r);
        i = i + 1;
    }
    assert(u@ =~= old(u)@.map_values(|op: UpdateOp| with_binding_context(op, target, name@, x)));
}

/// Hands every attribute the context of its message.
fn attr_assign_exec(job: &mut ComponentCompilationJob, refs: &Vec<AttrRef>, m: &FxHashMap<u32, u32>)
    requires
        forall|i: int| 0 <= i < refs@.len() ==> (#[trigger] refs@[i]).pos <= old(job).views@.len(),
    ensures
        ctx_state(*final(job)) == attr_assign_pass(ctx_state(*old(job)), refs@, 0, m@),
        frame(*old(job), *final(job)),
{
    let ghost target = attr_assign_pass(ctx_state(*job), refs@, 0, m@);
    let mut k: usize = 0;
    while k < refs.len()
        invariant
            k <= refs@.len(),
            frame(*old(job), *job),
            job.views@.len() == old(job).views@.len(),
            forall|i: int| 0 <= i < refs@.len() ==> (#[trigger] refs@[i]).pos <= old(job).views@.len(),
            attr_assign_pass(ctx_state(*job), refs@, k as int, m@) == target,
        decreases refs@.len() - k,
    {
        let r = &refs[k];
        let ghost j0 = *job;
        match fx_map_get(m, r.message) {
            Some(cx) => {
                if r.is_create {
                    let mut c = take_creates(job, r.pos);
                    attr_contexts_in(&mut c, r.target, &r.name, XrefId(cx));
                    let ghost j1 = *job;
                    put_creates(job, r.pos, c);
                    proof {
                        lemma_frame_trans(j0, j1, *job);
                        lemma_frame_xrefs(j0, *job);
                    }
                    assert(view_creates(*job) =~= view_creates(j0).update(
                        r.pos as int,
                        view_creates(j0)[r.pos as int].map_values(|op: CreateOp| with_attr_context(op, r.target, r.name@, XrefId(cx))),
                    ));
                } else {
                    let mut u = take_updates(job, r.pos);
                    binding_contexts_in(&mut u, r.target, &r.name, XrefId(cx));
                    let ghost j1 = *job;
                    put_updates(job, r.pos, u);
                    proof {
                        lemma_frame_trans(j0, j1, *job);
                        lemma_frame_xrefs(j0, *job);
                    }
                    assert(view_updates(*job) =~= view_updates(j0).update(
                        r.pos as int,
                        view_updates(j0)[r.pos as int].map_values(|op: UpdateOp| with_binding_context(op, r.target, r.name@, XrefId(cx))),
                    ));
                }
                proof {
                    lemma_frame_trans(*old(job), j0, *job);
                }
            },
            None => {},
        }
        k = k + 1;
    }
}

/// Appends the root (`roots`) or child i18n blocks of `c`, in the view at `p`, to `out`.
fn collect_view_block_refs(p: usize, c: &Vec<CreateOp>, roots: bool, out: &mut Vec<BlockRef>)
    ensures
        final(out)@ == old(out)@ + if roots {
            view_root_refs(p, c@)
        } else {
            view_child_refs(p, c@)
        },
{
    let mut i: usize = 0;
    while i < c.len()
        invariant
            i <= c@.len(),
            out@ == old(out)@ + if roots {
                view_root_refs(p, c@.take(i as int))
            } else {
                view_child_refs(p, c@.take(i as int))
            },
        decreases c@.len() - i,
    {
        assert(c@.take(i + 1).drop_last() =~= c@.take(i as int));
        match &c[i] {
            CreateOp::I18nStart(o) => {
                if roots {
                    if o.root.is_none() || o.root == Some(o.xref) {
                        out.push(BlockRef { pos: p, xref: o.xref, message: o.message, root: o.xref });
                    }
                } else {
                    match o.root {
                        Some(r) => {
                            if r != o.xref {
                                out.push(BlockRef { pos: p, xref: o.xref, message: o.message, root: r });
                            }
                        },
                        None => {},
                    }
                }
            },
            _ => {},
        }
        assert(out@ =~= old(out)@ + if roots {
            view_root_refs(p, c@.take(i + 1))
        } else {
            view_child_refs(p, c@.take(i + 1))
        });
        i = i + 1;
    }
    assert(c@.take(c@.len() as int) =~= c@);
}

/// The root (`roots`) or child i18n blocks of all views of the job, in order.
fn collect_block_refs(job: &ComponentCompilationJob, roots: bool) -> (r: Vec<BlockRef>)
    ensures
        r@ == block_refs(view_creates(*job), job.views@.len() + 1int, roots),
{
    let mut r: Vec<BlockRef> = Vec::new();
    collect_view_block_refs(0, creates_at(job, 0), roots, &mut r);
    assert(block_refs(view_creates(*job), 0, roots) =~= Seq::<BlockRef>::empty());
    assert(r@ =~= block_refs(view_creates(*job), 1, roots));
    let mut i: usize = 0;
    while i < job.views.len()
        invariant
            i <= job.views@.len(),
            r@ == block_refs(view_creates(*job), i + 1, roots),
        decreases job.views@.len() - i,
    {
        collect_view_block_refs(i + 1, creates_at(job, i + 1), roots, &mut r);
        i = i + 1;
    }
    r
}

proof fn lemma_view_block_refs_pos(p: usize, c: Seq<CreateOp>, roots: bool)
    ensures
        roots ==> forall|i: int| 0 <= i < view_root_refs(p, c).len() ==> (#[trigger] view_root_refs(p, c)[i]).pos == p,
        !roots ==> forall|i: int| 0 <= i < view_child_refs(p, c).len() ==> (#[trigger] view_child_refs(p, c)[i]).pos == p,
    decreases c.len(),
{
    if c.len() > 0 {
        lemma_view_block_refs_pos(p, c.drop_last(), roots);
        let a = view_root_refs(p, c.drop_last());
        let b = view_child_refs(p, c.drop_last());
        if roots {
            assert forall|i: int| 0 <= i < view_root_refs(p, c).len() implies (#[trigger] view_root_refs(p, c)[i]).pos == p by {
                if i < a.len() {
                    assert(view_root_refs(p, c)[i] == a[i]);
                }
            }
        } else {
            assert forall|i: int| 0 <= i < view_child_refs(p, c).len() implies (#[trigger] view_child_refs(p, c)[i]).pos == p by {
                if i < b.len() {
                    assert(view_child_refs(p, c)[i] == b[i]);
                }
            }
        }
    }
}

proof fn lemma_block_refs_pos(creates: Seq<Seq<CreateOp>>, k: int, roots: bool)
    ensures
        forall|i: int| 0 <= i < block_refs(creates, k, roots).len() ==> (#[trigger] block_refs(creates, k, roots)[i]).pos < k,
    decreases k,
{
    if k > 0 {
        lemma_block_refs_pos(creates, k - 1, roots);
        lemma_view_block_refs_pos((k - 1) as usize, creates[k - 1], roots);
        let a = block_refs(creates, k - 1, roots);
        assert forall|i: int| 0 <= i < block_refs(creates, k, roots).len() implies (#[trigger] block_refs(creates, k, roots)[i]).pos < k by {
            if i < a.len() {
                assert(block_refs(creates, k, roots)[i] == a[i]);
            } else if roots {
                assert(block_refs(creates, k, roots)[i] == view_root_refs((k - 1) as usize, creates[k - 1])[i - a.len()]);
            } else {
                assert(block_refs(creates, k, roots)[i] == view_child_refs((k - 1) as usize, creates[k - 1])[i - a.len()]);
            }
        }
    }
}

/// The first start of the i18n block `x` in `c` takes the context `ctx`.
fn start_context_in(c: &mut Vec<CreateOp>, x: XrefId, ctx: XrefId)
    ensures
        final(c)@ == with_start_context(old(c)@, x, ctx),
{
    match find_start(c, x) {
        None => {},
        Some(q) => {
            let nop = match &c[q] {
                CreateOp::I18nStart(o) => I18nStartOp {
                    xref: o.xref,
                    slot: o.slot,
                    context: Some(ctx),
                    root: o.root,
                    message: o.message,
                    sub_template_index: o.sub_template_index,
                },
                _ => {
                    proof {
                        assert(false);
                    }
                    return ;
                },
            };
            c.set(q, CreateOp::I18nStart(nop));
        },
    }
}

/// Gives every root i18n block a fresh context.
fn root_exec(job: &mut ComponentCompilationJob, refs: &Vec<BlockRef>, bm: &mut FxHashMap<u32, u32>)
    requires
        root_pass(ctx_state(*old(job)), refs@, 0, old(bm)@) is Some,
        forall|i: int| 0 <= i < refs@.len() ==> (#[trigger] refs@[i]).pos <= old(job).views@.len(),
    ensures
        root_pass(ctx_state(*old(job)), refs@, 0, old(bm)@) == Some((ctx_state(*final(job)), final(bm)@)),
        frame(*old(job), *final(job)),
{
    let ghost target = root_pass(ctx_state(*job), refs@, 0, bm@);
    let mut k: usize = 0;
    while k < refs.len()
        invariant
            k <= refs@.len(),
            frame(*old(job), *job),
            job.views@.len() == old(job).views@.len(),
            forall|i: int| 0 <= i < refs@.len() ==> (#[trigger] refs@[i]).pos <= old(job).views@.len(),
            root_pass(ctx_state(*job), refs@, k as int, bm@) == target,
            target is Some,
        decreases refs@.len() - k,
    {
        let r = &refs[k];
        let ghost j0 = *job;
        let n = job.next_xref;
        job.next_xref = n + 1;
        let ghost j1 = *job;
        let mut c = take_creates(job, r.pos);
        c.push(
            CreateOp::I18nContext(
                I18nContextOp { xref: XrefId(n), context_kind: I18nContextKind::RootI18n, i18n_block: Some(r.xref), message: r.message },
            ),
        );
        start_context_in(&mut c, r.xref, XrefId(n));
        let ghost c2 = c@;
        let ghost j2 = *job;
        put_creates(job, r.pos, c);
        fx_map_insert(bm, r.xref.0, n);
        proof {
            lemma_frame_trans(j1, j2, *job);
            lemma_frame_trans(j0, j1, *job);
            lemma_frame_trans(*old(job), j0, *job);
            lemma_frame_xrefs(j0, *job);
        }
        assert(view_creates(*job) =~= view_creates(j0).update(r.pos as int, c2));
        k = k + 1;
    }
}

/// Hands every child i18n block the context of its root block.
fn child_exec(job: &mut ComponentCompilationJob, refs: &Vec<BlockRef>, bm: &mut FxHashMap<u32, u32>)
    requires
        forall|i: int| 0 <= i < refs@.len() ==> (#[trigger] refs@[i]).pos <= old(job).views@.len(),
    ensures
        ctx_state(*final(job)) == child_pass(ctx_state(*old(job)), refs@, 0, old(bm)@),
        frame(*old(job), *final(job)),
{
    let ghost target = child_pass(ctx_state(*job), refs@, 0, bm@);
    let mut k: usize = 0;
    while k < refs.len()
        invariant
            k <= refs@.len(),
            frame(*old(job), *job),
            job.views@.len() == old(job).views@.len(),
            forall|i: int| 0 <= i < refs@.len() ==> (#[trigger] refs@[i]).pos <= old(job).views@.len(),
            child_pass(ctx_state(*job), refs@, k as int, bm@) == target,
        decreases refs@.len() - k,
    {
        let r = &refs[k];
        let ghost j0 = *job;
        match fx_map_get(bm, r.root.0) {
            Some(rc) => {
                let mut c = take_creates(job, r.pos);
                start_context_in(&mut c, r.xref, XrefId(rc));
                let ghost c2 = c@;
                let ghost j1 = *job;
                put_creates(job, r.pos, c);
                fx_map_insert(bm, r.xref.0, rc);
                proof {
                    lemma_frame_trans(j0, j1, *job);
                    lemma_frame_trans(*old(job), j0, *job);
                    lemma_frame_xrefs(j0, *job);
                }
                assert(view_creates(*job) =~= view_creates(j0).update(r.pos as int, c2));
            },
            None => {},
        }
        k = k + 1;
    }
}

/// The ICU expressions of `c` that stand inside an i18n block.
fn collect_icu_refs(c: &Vec<CreateOp>) -> (r: Vec<IcuRef>)
    ensures
        r@ == icu_refs(c@, 0, None),
{
    let mut r: Vec<IcuRef> = Vec::new();
    let mut cur: Option<(XrefId, Option<u32>, Option<XrefId>)> = None;
    let mut k: usize = 0;
    while k < c.len()
        invariant
            k <= c@.len(),
            r@ + icu_refs(c@, k as int, cur) == icu_refs(c@, 0, None),
        decreases c@.len() - k,
    {
        let ghost r0 = r@;
        let ghost cur0 = cur;
        match &c[k] {
            CreateOp::I18nStart(o) => {
                cur = Some((o.xref, o.message, o.context));
            },
            CreateOp::I18nEnd(_) => {
                cur = None;
            },
            CreateOp::IcuStart(o) => match cur {
                Some((b, bm, bc)) => {
                    r.push(IcuRef { icu: o.xref, icu_message: o.message, block: b, block_message: bm, block_context: bc });
                    assert(r0 + icu_refs(c@, k as int, cur0) =~= r@ + icu_refs(c@, k + 1, cur));
                },
                None => {},
            },
            _ => {},
        }
        k = k + 1;
    }
    assert(r@ + icu_refs(c@, k as int, cur) =~= r@);
    r
}

/// The position of the first start of the ICU expression `x` in `c`.
fn find_icu(c: &Vec<CreateOp>, x: XrefId) -> (r: Option<usize>)
    ensures
        match r {
            Some(q) => {
                &&& find_icu_start(c@, x, 0) == Some(q as int)
                &&& q < c@.len()
                &&& c@[q as int] matches CreateOp::IcuStart(o) && o.xref == x
            },
            None => find_icu_start(c@, x, 0) is None,
        },
{
    let mut i: usize = 0;
    while i < c.len()
        invariant
            i <= c@.len(),
            find_icu_start(c@, x, 0) == find_icu_start(c@, x, i as int),
        decreases c@.len() - i,
    {
        match &c[i] {
            CreateOp::IcuStart(o) => {
                if o.xref == x {
                    return Some(i);
                }
            },
            _ => {},
        }
        i = i + 1;
    }
    None
}

/// The position of the first context operation `x` in `c`.
fn find_ctx(c: &Vec<CreateOp>, x: XrefId) -> (r: Option<usize>)
    ensures
        match r {
            Some(q) => {
                &&& find_context(c@, x, 0) == Some(q as int)
                &&& q < c@.len()
                &&& c@[q as int] matches CreateOp::I18nContext(o) && o.xref == x
            },
            None => find_context(c@, x, 0) is None,
        },
{
    let mut i: usize = 0;
    while i < c.len()
        invariant
            i <= c@.len(),
            find_context(c@, x, 0) == find_context(c@, x, i as int),
        decreases c@.len() - i,
    {
        match &c[i] {
            CreateOp::I18nContext(o) => {
                if o.xref == x {
                    return Some(i);
                }
            },
            _ => {},
        }
        i = i + 1;
    }
    None
}

/// The first start of the ICU expression `x` in `c` takes the context `ctx`.
fn icu_context_in(c: &mut Vec<CreateOp>, x: XrefId, ctx: XrefId)
    ensures
        final(c)@ == with_icu_context(old(c)@, x, ctx),
{
    match find_icu(c, x) {
        None => {},
        Some(q) => {
            let nop = match &c[q] {
                CreateOp::IcuStart(o) => I18nStartOp {
                    xref: o.xref,
                    slot: o.slot,
                    context: Some(ctx),
                    root: o.root,
                    message: o.message,
                    sub_template_index: o.sub_template_index,
                },
                _ => {
                    proof {
                        assert(false);
                    }
                    return ;
                },
            };
            c.set(q, CreateOp::IcuStart(nop));
        },
    }
}

/// The first context operation `x` in `c` becomes an ICU context.
fn icu_kind_in(c: &mut Vec<CreateOp>, x: XrefId)
    ensures
        final(c)@ == as_icu_context(old(c)@, x),
{
    match find_ctx(c, x) {
        None => {},
        Some(q) => {
            let nop = match &c[q] {
                CreateOp::I18nContext(o) => I18nContextOp {
                    xref: o.xref,
                    context_kind: I18nContextKind::Icu,
                    i18n_block: o.i18n_block,
                    message: o.message,
                },
                _ => {
                    proof {
                        assert(false);
                    }
                    return ;
                },
            };
            c.set(q, CreateOp::I18nContext(nop));
        },
    }
}

/// The root of the i18n block `x` in `c`.
fn block_root_of(c: &Vec<CreateOp>, x: XrefId) -> (r: XrefId)
    ensures
        r == block_root(c@, x),
{
    match find_start(c, x) {
        None => x,
        Some(q) => match &c[q] {
            CreateOp::I18nStart(o) => match o.root {
                Some(rt) => rt,
                None => x,
            },
            _ => {
                proof {
                    assert(false);
                }
                x
            },
        },
    }
}

/// Whether two optional messages are the same.
fn same_message(a: Option<u32>, b: Option<u32>) -> (r: bool)
    ensures
        r == (a == b),
{
    match (a, b) {
        (Some(x), Some(y)) => x == y,
        (None, None) => true,
        _ => false,
    }
}

/// Creates or hands over the contexts of the ICU expressions of the view at `p`.
fn icu_view_exec(job: &mut ComponentCompilationJob, p: usize)
    requires
        p <= old(job).views@.len(),
        icu_pass(ctx_state(*old(job)), p as int, icu_refs(view_creates(*old(job))[p as int], 0, None), 0) is Some,
    ensures
        icu_pass(ctx_state(*old(job)), p as int, icu_refs(view_creates(*old(job))[p as int], 0, None), 0) == Some(
            ctx_state(*final(job)),
        ),
        frame(*old(job), *final(job)),
{
    let refs = collect_icu_refs(creates_at(job, p));
    let ghost target = icu_pass(ctx_state(*job), p as int, refs@, 0);
    let mut k: usize = 0;
    while k < refs.len()
        invariant
            k <= refs@.len(),
            p <= old(job).views@.len(),
            frame(*old(job), *job),
            job.views@.len() == old(job).views@.len(),
            icu_pass(ctx_state(*job), p as int, refs@, k as int) == target,
            target is Some,
        decreases refs@.len() - k,
    {
        let r = &refs[k];
        let ghost j0 = *job;
        if !same_message(r.icu_message, r.block_message) {
            let n = job.next_xref;
            job.next_xref = n + 1;
            let ghost j1 = *job;
            let mut c = take_creates(job, p);
            let root = block_root_of(&c, r.block);
            c.push(
                CreateOp::I18nContext(
                    I18nContextOp { xref: XrefId(n), context_kind: I18nContextKind::Icu, i18n_block: Some(root), message: r.icu_message },
                ),
            );
            icu_context_in(&mut c, r.icu, XrefId(n));
            let ghost c2 = c@;
            let ghost j2 = *job;
            put_creates(job, p, c);
            proof {
                lemma_frame_trans(j1, j2, *job);
                lemma_frame_trans(j0, j1, *job);
                lemma_frame_trans(*old(job), j0, *job);
                lemma_frame_xrefs(j0, *job);
            }
            assert(view_creates(*job) =~= view_creates(j0).update(p as int, c2));
        } else {
            match r.block_context {
                Some(bc) => {
                    let mut c = take_creates(job, p);
                    icu_context_in(&mut c, r.icu, bc);
                    icu_kind_in(&mut c, bc);
                    let ghost c2 = c@;
                    let ghost j1 = *job;
                    put_creates(job, p, c);
                    proof {
                        lemma_frame_trans(j0, j1, *job);
                        lemma_frame_trans(*old(job), j0, *job);
                        lemma_frame_xrefs(j0, *job);
                    }
                    assert(view_creates(*job) =~= view_creates(j0).update(p as int, c2));
                },
                None => {},
            }
        }
        k = k + 1;
    }
}

/// Creates or hands over the contexts of the ICU expressions of every view.
fn icu_views_exec(job: &mut ComponentCompilationJob)
    requires
        icu_views(ctx_state(*old(job)), 0, old(job).views@.len() + 1int) is Some,
    ensures
        icu_views(ctx_state(*old(job)), 0, old(job).views@.len() + 1int) == Some(ctx_state(*final(job))),
        frame(*old(job), *final(job)),
{
    let ghost n = job.views@.len() + 1int;
    let ghost target = icu_views(ctx_state(*job), 0, n);
    icu_view_exec(job, 0);
    let mut i: usize = 0;
    while i < job.views.len()
        invariant
            i <= job.views@.len(),
            n == job.views@.len() + 1,
            frame(*old(job), *job),
            job.views@.len() == old(job).views@.len(),
            icu_views(ctx_state(*job), i + 1, n) == target,
            target is Some,
        decreases job.views@.len() - i,
    {
        let ghost j0 = *job;
        proof {
            lemma_frame_xrefs(*old(job), *job);
        }
        icu_view_exec(job, i + 1);
        proof {
            lemma_frame_trans(*old(job), j0, *job);
        }
        i = i + 1;
    }
}

/// Whether `op` starts an i18n block (or, `icu`, an ICU expression).
pub open spec fn is_start(op: CreateOp, icu: bool) -> bool {
    if icu {
        op is IcuStart
    } else {
        op is I18nStart
    }
}

/// The number of starts of i18n blocks (or, `icu`, of ICU expressions) in `c`.
pub open spec fn starts_in(c: Seq<CreateOp>, icu: bool) -> nat
    decreases c.len(),
{
    if c.len() == 0 {
        0
    } else {
        starts_in(c.drop_last(), icu) + if is_start(c.last(), icu) {
            1nat
        } else {
            0nat
        }
    }
}

/// The number of those starts in the first `k` creation lists.
pub open spec fn starts_in_views(cs: Seq<Seq<CreateOp>>, k: int, icu: bool) -> nat
    decreases k,
{
    if k <= 0 {
        0
    } else {
        starts_in_views(cs, k - 1, icu) + starts_in(cs[k - 1], icu)
    }
}

/// The most contexts the phase creates on a job: one per translated
/// attribute, one per i18n block start and one per ICU start.
pub open spec fn contexts_bound(job: ComponentCompilationJob) -> nat {
    let n = job.views@.len() + 1int;
    attr_refs(ctx_state(job), n).len() + starts_in_views(view_creates(job), n, false) + starts_in_views(
        view_creates(job),
        n,
        true,
    )
}

/// Whether the creation lists `a` and `b` hold as many starts, view by view.
pub open spec fn same_starts(a: Seq<Seq<CreateOp>>, b: Seq<Seq<CreateOp>>) -> bool {
    &&& a.len() == b.len()
    &&& forall|p: int|
        0 <= p < a.len() ==> starts_in(#[trigger] b[p], false) == starts_in(a[p], false) && starts_in(b[p], true)
            == starts_in(a[p], true)
}

proof fn lemma_starts_push(c: Seq<CreateOp>, x: CreateOp, icu: bool)
    requires
        !is_start(x, icu),
    ensures
        starts_in(c.push(x), icu) == starts_in(c, icu),
{
    assert(c.push(x).drop_last() =~= c);
}

proof fn lemma_starts_update(c: Seq<CreateOp>, q: int, x: CreateOp, icu: bool)
    requires
        0 <= q < c.len(),
        is_start(x, icu) == is_start(c[q], icu),
    ensures
        starts_in(c.update(q, x), icu) == starts_in(c, icu),
    decreases c.len(),
{
    if q == c.len() - 1 {
        assert(c.update(q, x).drop_last() =~= c.drop_last());
    } else {
        lemma_starts_update(c.drop_last(), q, x, icu);
        assert(c.update(q, x).drop_last() =~= c.drop_last().update(q, x));
    }
}

proof fn lemma_starts_attr_map(c: Seq<CreateOp>, target: XrefId, name: Seq<char>, x: XrefId, icu: bool)
    ensures
        starts_in(c.map_values(|op: CreateOp| with_attr_context(op, target, name, x)), icu) == starts_in(c, icu),
    decreases c.len(),
{
    if c.len() > 0 {
        lemma_starts_attr_map(c.drop_last(), target, name, x, icu);
        assert(c.map_values(|op: CreateOp| with_attr_context(op, target, name, x)).drop_last() =~= c.drop_last().map_values(
            |op: CreateOp| with_attr_context(op, target, name, x),
        ));
    }
}

proof fn lemma_starts_views_same(a: Seq<Seq<CreateOp>>, b: Seq<Seq<CreateOp>>, k: int, icu: bool)
    requires
        same_starts(a, b),
        k <= a.len(),
    ensures
        starts_in_views(a, k, icu) == starts_in_views(b, k, icu),
    decreases k,
{
    if k > 0 {
        lemma_starts_views_same(a, b, k - 1, icu);
        assert(starts_in(b[k - 1], icu) == starts_in(a[k - 1], icu));
    }
}

proof fn lemma_root_refs_bound(p: usize, c: Seq<CreateOp>)
    ensures
        view_root_refs(p, c).len() <= starts_in(c, false),
    decreases c.len(),
{
    if c.len() > 0 {
        lemma_root_refs_bound(p, c.drop_last());
    }
}

proof fn lemma_block_refs_bound(cs: Seq<Seq<CreateOp>>, k: int)
    ensures
        block_refs(cs, k, true).len() <= starts_in_views(cs, k, false),
    decreases k,
{
    if k > 0 {
        lemma_block_refs_bound(cs, k - 1);
        lemma_root_refs_bound((k - 1) as usize, cs[k - 1]);
    }
}

proof fn lemma_icu_refs_bound(c: Seq<CreateOp>, k: int, cur: Option<(XrefId, Option<u32>, Option<XrefId>)>)
    requires
        0 <= k <= c.len(),
    ensures
        icu_refs(c, k, cur).len() + starts_in(c.take(k), true) <= starts_in(c, true),
    decreases c.len() - k,
{
    if k == c.len() {
        assert(c.take(k) =~= c);
    } else {
        assert(c.take(k + 1).drop_last() =~= c.take(k));
        let next_cur = match c[k] {
            CreateOp::I18nStart(o) => Some((o.xref, o.message, o.context)),
            CreateOp::I18nEnd(_) => None,
            _ => cur,
        };
        lemma_icu_refs_bound(c, k + 1, next_cur);
    }
}

proof fn lemma_found_block_start(c: Seq<CreateOp>, x: XrefId, k: int)
    ensures
        find_block_start(c, x, k) matches Some(q) ==> 0 <= q < c.len() && c[q] is I18nStart,
    decreases c.len() - k,
{
    if 0 <= k < c.len() {
        lemma_found_block_start(c, x, k + 1);
    }
}

proof fn lemma_found_icu_start(c: Seq<CreateOp>, x: XrefId, k: int)
    ensures
        find_icu_start(c, x, k) matches Some(q) ==> 0 <= q < c.len() && c[q] is IcuStart,
    decreases c.len() - k,
{
    if 0 <= k < c.len() {
        lemma_found_icu_start(c, x, k + 1);
    }
}

proof fn lemma_found_context(c: Seq<CreateOp>, x: XrefId, k: int)
    ensures
        find_context(c, x, k) matches Some(q) ==> 0 <= q < c.len() && c[q] is I18nContext,
    decreases c.len() - k,
{
    if 0 <= k < c.len() {
        lemma_found_context(c, x, k + 1);
    }
}

proof fn lemma_start_context_starts(c: Seq<CreateOp>, x: XrefId, ctx: XrefId, icu: bool)
    ensures
        starts_in(with_start_context(c, x, ctx), icu) == starts_in(c, icu),
        with_start_context(c, x, ctx).len() == c.len(),
{
    lemma_found_block_start(c, x, 0);
    if let Some(q) = find_block_start(c, x, 0) {
        lemma_starts_update(c, q, CreateOp::I18nStart(I18nStartOp { context: Some(ctx), ..c[q]->I18nStart_0 }), icu);
    }
}

proof fn lemma_icu_context_starts(c: Seq<CreateOp>, x: XrefId, ctx: XrefId, icu: bool)
    ensures
        starts_in(with_icu_context(c, x, ctx), icu) == starts_in(c, icu),
{
    lemma_found_icu_start(c, x, 0);
    if let Some(q) = find_icu_start(c, x, 0) {
        lemma_starts_update(c, q, CreateOp::IcuStart(I18nStartOp { context: Some(ctx), ..c[q]->IcuStart_0 }), icu);
    }
}

proof fn lemma_icu_kind_starts(c: Seq<CreateOp>, x: XrefId, icu: bool)
    ensures
        starts_in(as_icu_context(c, x), icu) == starts_in(c, icu),
{
    lemma_found_context(c, x, 0);
    if let Some(q) = find_context(c, x, 0) {
        lemma_starts_update(
            c,
            q,
            CreateOp::I18nContext(I18nContextOp { context_kind: I18nContextKind::Icu, ..c[q]->I18nContext_0 }),
            icu,
        );
    }
}

proof fn lemma_attr_context_some(s: CtxState, refs: Seq<AttrRef>, k: int, m: Map<u32, u32>)
    requires
        0 <= k <= refs.len(),
        s.next + (refs.len() - k) <= u32::MAX,
        forall|i: int| 0 <= i < refs.len() ==> (#[trigger] refs[i]).pos < s.creates.len(),
    ensures
        attr_context_pass(s, refs, k, m) is Some,
        attr_context_pass(s, refs, k, m)->Some_0.0.next <= s.next + (refs.len() - k),
        same_starts(s.creates, attr_context_pass(s, refs, k, m)->Some_0.0.creates),
    decreases refs.len() - k,
{
    if k < refs.len() {
        let r = refs[k];
        if m.contains_key(r.message) {
            lemma_attr_context_some(s, refs, k + 1, m);
        } else {
            let op = context_op(s.next, I18nContextKind::Attr, None, Some(r.message));
            let s2 = CtxState { next: s.next + 1, ..push_op(s, r.pos as int, op) };
            lemma_starts_push(s.creates[r.pos as int], op, false);
            lemma_starts_push(s.creates[r.pos as int], op, true);
            lemma_attr_context_some(s2, refs, k + 1, m.insert(r.message, s.next as u32));
        }
    }
}

proof fn lemma_attr_assign_starts(s: CtxState, refs: Seq<AttrRef>, k: int, m: Map<u32, u32>)
    requires
        forall|i: int| 0 <= i < refs.len() ==> (#[trigger] refs[i]).pos < s.creates.len(),
    ensures
        same_starts(s.creates, attr_assign_pass(s, refs, k, m).creates),
        attr_assign_pass(s, refs, k, m).next == s.next,
    decreases refs.len() - k,
{
    if 0 <= k < refs.len() {
        if m.contains_key(refs[k].message) {
            let r = refs[k];
            let x = XrefId(m[r.message]);
            lemma_starts_attr_map(s.creates[r.pos as int], r.target, r.name@, x, false);
            lemma_starts_attr_map(s.creates[r.pos as int], r.target, r.name@, x, true);
            lemma_attr_assign_starts(assign_attr(s, r, x), refs, k + 1, m);
        } else {
            lemma_attr_assign_starts(s, refs, k + 1, m);
        }
    }
}

proof fn lemma_root_pass_some(s: CtxState, refs: Seq<BlockRef>, k: int, bm: Map<u32, u32>)
    requires
        0 <= k <= refs.len(),
        s.next + (refs.len() - k) <= u32::MAX,
        forall|i: int| 0 <= i < refs.len() ==> (#[trigger] refs[i]).pos < s.creates.len(),
    ensures
        root_pass(s, refs, k, bm) is Some,
        root_pass(s, refs, k, bm)->Some_0.0.next == s.next + (refs.len() - k),
        same_starts(s.creates, root_pass(s, refs, k, bm)->Some_0.0.creates),
    decreases refs.len() - k,
{
    if k < refs.len() {
        let r = refs[k];
        let p = r.pos as int;
        let op = context_op(s.next, I18nContextKind::RootI18n, Some(r.xref), r.message);
        let c = s.creates[p].push(op);
        lemma_starts_push(s.creates[p], op, false);
        lemma_starts_push(s.creates[p], op, true);
        lemma_start_context_starts(c, r.xref, XrefId(s.next as u32), false);
        lemma_start_context_starts(c, r.xref, XrefId(s.next as u32), true);
        let s2 = CtxState {
            creates: s.creates.update(p, with_start_context(c, r.xref, XrefId(s.next as u32))),
            next: s.next + 1,
            ..s
        };
        lemma_root_pass_some(s2, refs, k + 1, bm.insert(r.xref.0, s.next as u32));
    }
}

proof fn lemma_child_pass_starts(s: CtxState, refs: Seq<BlockRef>, k: int, bm: Map<u32, u32>)
    requires
        forall|i: int| 0 <= i < refs.len() ==> (#[trigger] refs[i]).pos < s.creates.len(),
    ensures
        same_starts(s.creates, child_pass(s, refs, k, bm).creates),
        child_pass(s, refs, k, bm).next == s.next,
    decreases refs.len() - k,
{
    if 0 <= k < refs.len() {
        let r = refs[k];
        let p = r.pos as int;
        if bm.contains_key(r.root.0) {
            let rc = bm[r.root.0];
            lemma_start_context_starts(s.creates[p], r.xref, XrefId(rc), false);
            lemma_start_context_starts(s.creates[p], r.xref, XrefId(rc), true);
            lemma_child_pass_starts(
                CtxState { creates: s.creates.update(p, with_start_context(s.creates[p], r.xref, XrefId(rc))), ..s },
                refs,
                k + 1,
                bm.insert(r.xref.0, rc),
            );
        } else {
            lemma_child_pass_starts(s, refs, k + 1, bm);
        }
    }
}

proof fn lemma_icu_pass_some(s: CtxState, p: int, refs: Seq<IcuRef>, k: int)
    requires
        0 <= p < s.creates.len(),
        0 <= k <= refs.len(),
        s.next + (refs.len() - k) <= u32::MAX,
    ensures
        icu_pass(s, p, refs, k) is Some,
        icu_pass(s, p, refs, k)->Some_0.next <= s.next + (refs.len() - k),
        same_starts(s.creates, icu_pass(s, p, refs, k)->Some_0.creates),
    decreases refs.len() - k,
{
    if k < refs.len() {
        let r = refs[k];
        let c = s.creates[p];
        if r.icu_message != r.block_message {
            let op = context_op(s.next, I18nContextKind::Icu, Some(block_root(c, r.block)), r.icu_message);
            let c2 = c.push(op);
            lemma_starts_push(c, op, false);
            lemma_starts_push(c, op, true);
            lemma_icu_context_starts(c2, r.icu, XrefId(s.next as u32), false);
            lemma_icu_context_starts(c2, r.icu, XrefId(s.next as u32), true);
            lemma_icu_pass_some(
                CtxState {
                    creates: s.creates.update(p, with_icu_context(c2, r.icu, XrefId(s.next as u32))),
                    next: s.next + 1,
                    ..s
                },
                p,
                refs,
                k + 1,
            );
        } else {
            match r.block_context {
                Some(bc) => {
                    lemma_icu_context_starts(c, r.icu, bc, false);
                    lemma_icu_context_starts(c, r.icu, bc, true);
                    lemma_icu_kind_starts(with_icu_context(c, r.icu, bc), bc, false);
                    lemma_icu_kind_starts(with_icu_context(c, r.icu, bc), bc, true);
                    lemma_icu_pass_some(
                        CtxState { creates: s.creates.update(p, as_icu_context(with_icu_context(c, r.icu, bc), bc)), ..s },
                        p,
                        refs,
                        k + 1,
                    );
                },
                None => lemma_icu_pass_some(s, p, refs, k + 1),
            }
        }
    }
}

proof fn lemma_icu_views_some(s: CtxState, p: int, n: int)
    requires
        n == s.creates.len(),
        0 <= p <= n,
        s.next + starts_in_views(s.creates, n, true) - starts_in_views(s.creates, p, true) <= u32::MAX,
    ensures
        icu_views(s, p, n) is Some,
    decreases n - p,
{
    if p < n {
        let c = s.creates[p];
        let refs = icu_refs(c, 0, None);
        lemma_icu_refs_bound(c, 0, None);
        assert(c.take(0).len() == 0);
        lemma_starts_views_nonneg(s.creates, n, p + 1);
        lemma_icu_pass_some(s, p, refs, 0);
        let s2 = icu_pass(s, p, refs, 0)->Some_0;
        lemma_starts_views_same(s.creates, s2.creates, n, true);
        lemma_starts_views_same(s.creates, s2.creates, p + 1, true);
        lemma_icu_views_some(s2, p + 1, n);
    }
}

proof fn lemma_starts_views_nonneg(cs: Seq<Seq<CreateOp>>, n: int, p: int)
    requires
        0 <= p <= n,
    ensures
        starts_in_views(cs, p, true) <= starts_in_views(cs, n, true),
    decreases n - p,
{
    if p < n {
        lemma_starts_views_nonneg(cs, n, p + 1);
    }
}

/// When the job's next free id leaves room for one context per translated
/// attribute, per i18n block start and per ICU start, the phase runs through.
pub proof fn lemma_contexts_fit(job: ComponentCompilationJob)
    requires
        job.next_xref + contexts_bound(job) <= u32::MAX,
    ensures
        contexts(job) is Some,
{
    let s0 = ctx_state(job);
    let n = job.views@.len() + 1int;
    lemma_frame_xrefs(job, job);
    let refs = attr_refs(s0, n);
    lemma_attr_refs_pos(s0, n);
    lemma_attr_context_some(s0, refs, 0, Map::empty());
    let (s1, m) = attr_context_pass(s0, refs, 0, Map::empty())->Some_0;
    lemma_attr_assign_starts(s1, refs, 0, m);
    let s2 = attr_assign_pass(s1, refs, 0, m);
    let roots = block_refs(s2.creates, n, true);
    lemma_block_refs_bound(s2.creates, n);
    lemma_starts_views_same(s0.creates, s2.creates, n, false);
    lemma_starts_views_same(s0.creates, s2.creates, n, true);
    lemma_block_refs_pos(s2.creates, n, true);
    lemma_root_pass_some(s2, roots, 0, Map::empty());
    let (s3, bm) = root_pass(s2, roots, 0, Map::empty())->Some_0;
    let children = block_refs(s3.creates, n, false);
    lemma_block_refs_pos(s3.creates, n, false);
    lemma_child_pass_starts(s3, children, 0, bm);
    let s4 = child_pass(s3, children, 0, bm);
    lemma_starts_views_same(s2.creates, s3.creates, n, true);
    lemma_starts_views_same(s3.creates, s4.creates, n, true);
    assert(starts_in_views(s4.creates, 0, true) == 0);
    lemma_icu_views_some(s4, 0, n);
}

/// Creates the i18n contexts of a template: one per message of translated
/// attributes, one per root i18n block (shared by its child blocks), and one
/// per ICU expression whose message differs from its block's; an ICU that is
/// the only content of its block takes over the block's context.
pub fn create_i18n_contexts(job: &mut ComponentCompilationJob)
    requires
        old(job).next_xref + contexts_bound(*old(job)) <= u32::MAX,
    ensures
        job_i18n_contexts_created(*old(job), *final(job)),
{
    proof {
        lemma_contexts_fit(*job);
    }
    let ghost n = job.views@.len() + 1int;
    let refs = collect_attr_refs(job);
    proof {
        lemma_attr_refs_pos(ctx_state(*job), n);
    }
    let mut m: FxHashMap<u32, u32> = fx_map_new();
    assert(m@ =~= Map::<u32, u32>::empty());
    let ghost j0 = *job;
    attr_context_exec(job, &refs, &mut m);
    let ghost j1 = *job;
    attr_assign_exec(job, &refs, &m);
    proof {
        lemma_frame_trans(j0, j1, *job);
        lemma_frame_xrefs(j0, *job);
    }
    let roots = collect_block_refs(job, true);
    proof {
        lemma_block_refs_pos(view_creates(*job), n, true);
    }
    let mut bm: FxHashMap<u32, u32> = fx_map_new();
    assert(bm@ =~= Map::<u32, u32>::empty());
    let ghost j2 = *job;
    root_exec(job, &roots, &mut bm);
    proof {
        lemma_frame_trans(j0, j2, *job);
        lemma_frame_xrefs(j0, *job);
    }
    let children = collect_block_refs(job, false);
    proof {
        lemma_block_refs_pos(view_creates(*job), n, false);
    }
    let ghost j3 = *job;
    child_exec(job, &children, &mut bm);
    proof {
        lemma_frame_trans(j0, j3, *job);
        lemma_frame_xrefs(j0, *job);
    }
    let ghost j4 = *job;
    icu_views_exec(job);
    proof {
        lemma_frame_trans(j0, j4, *job);
        lemma_frame_xrefs(j0, *job);
    }
}

} // verus!
