//! I18n text extraction phase.
//!
//! Text nodes inside an i18n block are already part of the translated message:
//! they are removed from the creation block, except those inside an ICU
//! expression, which become ICU placeholder operations with a fresh id. The
//! interpolations that update such text nodes are replaced by one i18n
//! expression operation per interpolated expression, and the static strings of
//! an interpolation that belongs to an ICU placeholder go to that placeholder.

use vstd::prelude::*;
use rustc_hash::FxHashMap;
use crate::fx::{fx_map_get, fx_map_insert, fx_map_new};
use crate::ir::{
    ComponentCompilationJob, CreateOp, I18nExpressionFor, I18nExpressionOp, I18nParamResolutionTime, IcuPlaceholderOp,
    IrExpression, SlotId, UpdateBindingOp, UpdateOp, ViewCompilationUnit, XrefId,
};

verus! {

/// The innermost i18n block and ICU open at a point of a creation block, each
/// with its i18n context.
pub struct TextScope {
    pub i18n: Option<(XrefId, Option<XrefId>)>,
    pub icu: Option<(XrefId, Option<XrefId>)>,
}

/// The scope after an operation.
pub open spec fn scope_after(op: CreateOp, s: TextScope) -> TextScope {
    match op {
        CreateOp::I18nStart(i) => TextScope { i18n: Some((i.xref, i.context)), icu: s.icu },
        CreateOp::I18nEnd(_) => TextScope { i18n: None, icu: s.icu },
        CreateOp::IcuStart(i) => TextScope { i18n: s.i18n, icu: Some((i.xref, i.context)) },
        CreateOp::IcuEnd(_) => TextScope { i18n: s.i18n, icu: None },
        _ => s,
    }
}

/// The scope just before the operation at `k`.
pub open spec fn scope_at(c: Seq<CreateOp>, k: int) -> TextScope
    decreases k,
{
    if k <= 0 {
        TextScope { i18n: None, icu: None }
    } else {
        scope_after(c[k - 1], scope_at(c, k - 1))
    }
}

/// Whether the operation at `k` is a text node inside an i18n block.
pub open spec fn i18n_text(c: Seq<CreateOp>, k: int) -> bool {
    c[k] is Text && scope_at(c, k).i18n is Some
}

/// Whether the operation at `k` is a text node inside an i18n block that
/// becomes an ICU placeholder.
pub open spec fn becomes_placeholder(c: Seq<CreateOp>, k: int) -> bool {
    c[k] matches CreateOp::Text(t) && scope_at(c, k).i18n is Some && t.icu_placeholder is Some
}

/// Whether the operation at `k` is a text node inside an i18n block that is removed.
pub open spec fn dropped(c: Seq<CreateOp>, k: int) -> bool {
    c[k] matches CreateOp::Text(t) && scope_at(c, k).i18n is Some && t.icu_placeholder is None
}

/// The number of operations before `k` that become ICU placeholders.
pub open spec fn placeholders_before(c: Seq<CreateOp>, k: int) -> nat
    decreases k,
{
    if k <= 0 {
        0
    } else {
        placeholders_before(c, k - 1) + if becomes_placeholder(c, k - 1) { 1nat } else { 0nat }
    }
}

/// The number of operations before `k` that are removed.
pub open spec fn dropped_before(c: Seq<CreateOp>, k: int) -> nat
    decreases k,
{
    if k <= 0 {
        0
    } else {
        dropped_before(c, k - 1) + if dropped(c, k - 1) { 1nat } else { 0nat }
    }
}

/// The id of a text node (zero for another operation).
pub open spec fn text_xref(op: CreateOp) -> u32 {
    match op {
        CreateOp::Text(t) => t.xref.0,
        _ => 0,
    }
}

/// For the i18n text nodes before `k`: the block each is in (the last one wins
/// for a repeated id).
pub open spec fn text_blocks(c: Seq<CreateOp>, k: int) -> Map<u32, (XrefId, Option<XrefId>)>
    decreases k,
{
    if k <= 0 {
        Map::empty()
    } else if i18n_text(c, k - 1) {
        text_blocks(c, k - 1).insert(text_xref(c[k - 1]), scope_at(c, k - 1).i18n->0)
    } else {
        text_blocks(c, k - 1)
    }
}

/// For the i18n text nodes before `k`: the ICU each is in, if any.
pub open spec fn text_icus(c: Seq<CreateOp>, k: int) -> Map<u32, Option<(XrefId, Option<XrefId>)>>
    decreases k,
{
    if k <= 0 {
        Map::empty()
    } else if i18n_text(c, k - 1) {
        text_icus(c, k - 1).insert(text_xref(c[k - 1]), scope_at(c, k - 1).icu)
    } else {
        text_icus(c, k - 1)
    }
}

/// The id given to the ICU placeholder that the operation at `k` becomes, when
/// ids are handed out from `n` on.
pub open spec fn new_placeholder_xref(c: Seq<CreateOp>, k: int, n: nat) -> XrefId {
    XrefId((n + placeholders_before(c, k)) as u32)
}

/// For the text nodes before `k` that become ICU placeholders: the id of the placeholder.
pub open spec fn text_placeholders(c: Seq<CreateOp>, k: int, n: nat) -> Map<u32, XrefId>
    decreases k,
{
    if k <= 0 {
        Map::empty()
    } else if becomes_placeholder(c, k - 1) {
        text_placeholders(c, k - 1, n).insert(text_xref(c[k - 1]), new_placeholder_xref(c, k - 1, n))
    } else {
        text_placeholders(c, k - 1, n)
    }
}

/// For the i18n blocks started before `k` with a slot: the slot.
pub open spec fn i18n_handles(c: Seq<CreateOp>, k: int) -> Map<u32, SlotId>
    decreases k,
{
    if k <= 0 {
        Map::empty()
    } else {
        match c[k - 1] {
            CreateOp::I18nStart(i) => match i.slot {
                Some(s) => i18n_handles(c, k - 1).insert(i.xref.0, s),
                None => i18n_handles(c, k - 1),
            },
            _ => i18n_handles(c, k - 1),
        }
    }
}

/// The id of the ICU placeholder the operation at `k` yields, if it yields one.
pub open spec fn placeholder_xref_at(c: Seq<CreateOp>, k: int, n: nat) -> Option<XrefId> {
    if becomes_placeholder(c, k) {
        Some(new_placeholder_xref(c, k, n))
    } else {
        match c[k] {
            CreateOp::IcuPlaceholder(p) => Some(p.xref),
            _ => None,
        }
    }
}

/// The first operation before `k` that yields an ICU placeholder with the id `x`.
pub open spec fn first_placeholder(c: Seq<CreateOp>, x: XrefId, n: nat, k: int) -> Option<int>
    decreases k,
{
    if k <= 0 {
        None
    } else {
        match first_placeholder(c, x, n, k - 1) {
            Some(j) => Some(j),
            None => if placeholder_xref_at(c, k - 1, n) == Some(x) { Some(k - 1) } else { None },
        }
    }
}

/// Whether an update operation is an interpolation on a text node of an i18n block.
pub open spec fn converted(op: UpdateOp, blocks: Map<u32, (XrefId, Option<XrefId>)>) -> bool {
    op matches UpdateOp::InterpolateText(b) && blocks.contains_key(b.target.0)
}

/// The number of operations an update operation becomes.
pub open spec fn op_width(op: UpdateOp, blocks: Map<u32, (XrefId, Option<XrefId>)>) -> nat {
    match op {
        UpdateOp::InterpolateText(b) => if blocks.contains_key(b.target.0) {
            match b.expression {
                IrExpression::Interpolation { expressions, .. } => expressions@.len(),
                _ => 1,
            }
        } else {
            1
        },
        _ => 1,
    }
}

/// The number of operations the update operations before `p` become.
pub open spec fn width_before(u: Seq<UpdateOp>, p: int, blocks: Map<u32, (XrefId, Option<XrefId>)>) -> nat
    decreases p,
{
    if p <= 0 {
        0
    } else {
        width_before(u, p - 1, blocks) + op_width(u[p - 1], blocks)
    }
}

/// The ICU placeholder an update operation fills, with the strings it gives it:
/// an interpolation on an i18n text node that became a placeholder.
pub open spec fn fills(
    op: UpdateOp,
    blocks: Map<u32, (XrefId, Option<XrefId>)>,
    phs: Map<u32, XrefId>,
) -> Option<(XrefId, Seq<String>)> {
    match op {
        UpdateOp::InterpolateText(b) => if blocks.contains_key(b.target.0) && phs.contains_key(b.target.0) {
            match b.expression {
                IrExpression::Interpolation { strings, .. } => Some((phs[b.target.0], strings@)),
                _ => None,
            }
        } else {
            None
        },
        _ => None,
    }
}

/// The static strings that the converted interpolations among the first `p`
/// update operations give the ICU placeholder `x` (the last one wins).
pub open spec fn placeholder_strings(
    u: Seq<UpdateOp>,
    p: int,
    blocks: Map<u32, (XrefId, Option<XrefId>)>,
    phs: Map<u32, XrefId>,
    x: XrefId,
) -> Option<Seq<String>>
    decreases p,
{
    if p <= 0 {
        None
    } else {
        match fills(u[p - 1], blocks, phs) {
            Some((y, ss)) => if y == x { Some(ss) } else { placeholder_strings(u, p - 1, blocks, phs, x) },
            None => placeholder_strings(u, p - 1, blocks, phs, x),
        }
    }
}

/// The strings an ICU placeholder yielded at `k` ends with: those of the last
/// interpolation that fills it, if it is the first placeholder with its id,
/// else the ones it started with.
pub open spec fn final_strings(
    c: Seq<CreateOp>,
    k: int,
    n: nat,
    u: Seq<UpdateOp>,
    p: int,
    x: XrefId,
    initial: Seq<String>,
) -> Seq<String> {
    let blocks = text_blocks(c, c.len() as int);
    let phs = text_placeholders(c, c.len() as int, n);
    match placeholder_strings(u, p, blocks, phs, x) {
        Some(ss) => if first_placeholder(c, x, n, c.len() as int) == Some(k) { ss } else { initial },
        None => initial,
    }
}

/// What the (kept) creation operation at `k` becomes, with the strings filled
/// by the first `p` update operations of `u`.
pub open spec fn create_op_converted(c: Seq<CreateOp>, k: int, after: CreateOp, n: nat, u: Seq<UpdateOp>, p: int) -> bool {
    if becomes_placeholder(c, k) {
        let x = new_placeholder_xref(c, k, n);
        &&& c[k] matches CreateOp::Text(t)
        &&& after matches CreateOp::IcuPlaceholder(ph)
        &&& ph.xref == x
        &&& ph.name == t.icu_placeholder->0
        &&& after->IcuPlaceholder_0.strings@ == final_strings(c, k, n, u, p, x, seq![t.initial_value])
    } else {
        match c[k] {
            CreateOp::IcuPlaceholder(q) => {
                &&& after matches CreateOp::IcuPlaceholder(ph)
                &&& ph.xref == q.xref
                &&& ph.name == q.name
                &&& ph.strings@ == final_strings(c, k, n, u, p, q.xref, q.strings@)
            },
            _ => after == c[k],
        }
    }
}

/// Whether `after` is the creation block `c` with its i18n text nodes removed
/// or turned into ICU placeholders (ids from `n` on), the placeholders' strings
/// filled by the first `p` update operations of `u`.
pub open spec fn create_converted(c: Seq<CreateOp>, after: Seq<CreateOp>, n: nat, u: Seq<UpdateOp>, p: int) -> bool {
    &&& after.len() == c.len() - dropped_before(c, c.len() as int)
    &&& forall|k: int|
        0 <= k < c.len() && !dropped(c, k) ==> create_op_converted(
            c,
            k,
            #[trigger] after[k - dropped_before(c, k)],
            n,
            u,
            p,
        )
}

/// The context, resolution time, slot and ICU placeholder of the i18n
/// expressions an interpolation on the text node `target` becomes.
pub open spec fn expr_params(
    target: u32,
    blocks: Map<u32, (XrefId, Option<XrefId>)>,
    icus: Map<u32, Option<(XrefId, Option<XrefId>)>>,
    phs: Map<u32, XrefId>,
    handles: Map<u32, SlotId>,
) -> (XrefId, XrefId, I18nParamResolutionTime, SlotId, Option<XrefId>) {
    let (ix, ictx) = blocks[target];
    let block_ctx = match ictx {
        Some(x) => x,
        None => ix,
    };
    let (ctx, rt) = match icus[target] {
        Some((_, icu_ctx)) => (
            match icu_ctx {
                Some(x) => x,
                None => block_ctx,
            },
            I18nParamResolutionTime::Postprocessing,
        ),
        None => (block_ctx, I18nParamResolutionTime::Creation),
    };
    let handle = if handles.contains_key(ix.0) { handles[ix.0] } else { SlotId(0) };
    let icu = if phs.contains_key(target) { Some(phs[target]) } else { None };
    (ix, ctx, rt, handle, icu)
}

/// Whether `e` is the `i`-th i18n expression an interpolation binding `b` becomes.
pub open spec fn i18n_expression_for(
    e: I18nExpressionOp,
    b: UpdateBindingOp,
    i: int,
    blocks: Map<u32, (XrefId, Option<XrefId>)>,
    icus: Map<u32, Option<(XrefId, Option<XrefId>)>>,
    phs: Map<u32, XrefId>,
    handles: Map<u32, SlotId>,
) -> bool {
    let (ix, ctx, rt, handle, icu) = expr_params(b.target.0, blocks, icus, phs, handles);
    &&& e.i18n_owner == ix
    &&& e.target == ix
    &&& e.context == ctx
    &&& e.handle == handle
    &&& e.resolution_time == rt
    &&& e.usage == I18nExpressionFor::I18nText
    &&& e.name@.len() == 0
    &&& e.icu_placeholder == icu
    &&& match b.expression {
        IrExpression::Interpolation { expressions, i18n_placeholders, .. } => {
            &&& e.expression == expressions@[i]
            &&& e.i18n_placeholder == if i < i18n_placeholders@.len() {
                Some(i18n_placeholders@[i])
            } else {
                None
            }
        },
        _ => e.expression == b.expression && e.i18n_placeholder is None,
    }
}

/// Whether the operations of `after` from `start` on are what the update
/// operation `op` becomes.
pub open spec fn update_op_converted(
    op: UpdateOp,
    after: Seq<UpdateOp>,
    start: int,
    blocks: Map<u32, (XrefId, Option<XrefId>)>,
    icus: Map<u32, Option<(XrefId, Option<XrefId>)>>,
    phs: Map<u32, XrefId>,
    handles: Map<u32, SlotId>,
) -> bool {
    if converted(op, blocks) {
        forall|i: int|
            0 <= i < op_width(op, blocks) ==> (#[trigger] after[start + i] matches UpdateOp::I18nExpression(e)
                && i18n_expression_for(e, op->InterpolateText_0, i, blocks, icus, phs, handles))
    } else {
        after[start] == op
    }
}

/// Whether `after` is the update list `u` with every interpolation on an i18n
/// text node replaced by its i18n expressions.
pub open spec fn update_converted(
    u: Seq<UpdateOp>,
    after: Seq<UpdateOp>,
    blocks: Map<u32, (XrefId, Option<XrefId>)>,
    icus: Map<u32, Option<(XrefId, Option<XrefId>)>>,
    phs: Map<u32, XrefId>,
    handles: Map<u32, SlotId>,
) -> bool {
    &&& after.len() == width_before(u, u.len() as int, blocks)
    &&& forall|p: int|
        0 <= p < u.len() ==> update_op_converted(
            #[trigger] u[p],
            after,
            width_before(u, p, blocks) as int,
            blocks,
            icus,
            phs,
            handles,
        )
}

/// Whether the view `after` is `before` with its i18n text converted, the new
/// ICU placeholders numbered from `n` on.
pub open spec fn view_i18n_text_converted(before: ViewCompilationUnit, after: ViewCompilationUnit, n: nat) -> bool {
    let c = before.create@;
    let len = c.len() as int;
    &&& create_converted(c, after.create@, n, before.update@, before.update@.len() as int)
    &&& update_converted(
        before.update@,
        after.update@,
        text_blocks(c, len),
        text_icus(c, len),
        text_placeholders(c, len, n),
        i18n_handles(c, len),
    )
    &&& after.xref == before.xref
    &&& after.decl_count == before.decl_count
    &&& after.functions == before.functions
}

/// The number of ICU placeholders a view gets.
pub open spec fn view_placeholder_count(v: ViewCompilationUnit) -> nat {
    placeholders_before(v.create@, v.create@.len() as int)
}

/// The number of ICU placeholders the views before `i` get.
pub open spec fn views_placeholder_count(views: Seq<ViewCompilationUnit>, i: int) -> nat
    decreases i,
{
    if i <= 0 {
        0
    } else {
        views_placeholder_count(views, i - 1) + view_placeholder_count(views[i - 1])
    }
}

/// Whether the job `after` is `before` with the i18n text of every view
/// converted: the root first, then the views in order, each numbering its new
/// ICU placeholders on from where the previous one stopped.
pub open spec fn job_i18n_text_converted(before: ComponentCompilationJob, after: ComponentCompilationJob) -> bool {
    let n0 = before.next_xref as nat;
    let n1 = n0 + view_placeholder_count(before.root);
    &&& view_i18n_text_converted(before.root, after.root, n0)
    &&& after.views@.len() == before.views@.len()
    &&& forall|i: int|
        0 <= i < before.views@.len() ==> view_i18n_text_converted(
            before.views@[i],
            #[trigger] after.views@[i],
            n1 + views_placeholder_count(before.views@, i),
        )
    &&& after.next_xref == n1 + views_placeholder_count(before.views@, before.views@.len() as int)
    &&& after.consts == before.consts
    &&& after.diagnostics == before.diagnostics
    &&& after.compatibility_mode == before.compatibility_mode
    &&& after.mode == before.mode
    &&& after.enable_debug_locations == before.enable_debug_locations
    &&& after.relative_template_path == before.relative_template_path
    &&& after.template_source == before.template_source
}

/// Counting placeholders and removed nodes is monotone.
proof fn lemma_counts_mono(c: Seq<CreateOp>, k1: int, k2: int)
    requires
        k1 <= k2,
    ensures
        placeholders_before(c, k1) <= placeholders_before(c, k2),
        dropped_before(c, k1) <= dropped_before(c, k2),
        0 <= k1 ==> dropped_before(c, k2) <= dropped_before(c, k1) + (k2 - k1),
    decreases k2 - k1,
{
    if k1 < k2 {
        lemma_counts_mono(c, k1, k2 - 1);
    }
}

/// The state of the pass over a creation block.
struct TextPass {
    i18n: Option<(XrefId, Option<XrefId>)>,
    icu: Option<(XrefId, Option<XrefId>)>,
    blocks: FxHashMap<u32, (XrefId, Option<XrefId>)>,
    icus: FxHashMap<u32, Option<(XrefId, Option<XrefId>)>>,
    phs: FxHashMap<u32, XrefId>,
    handles: FxHashMap<u32, SlotId>,
    /// For each placeholder id: the position in the new block of the first
    /// placeholder with that id.
    first_pos: FxHashMap<u32, usize>,
}

/// Whether `first_pos` holds, for the id `x`, the new position of the first
/// placeholder before `k` with that id.
spec fn first_pos_ok(first_pos: Map<u32, usize>, c: Seq<CreateOp>, x: u32, n: nat, k: int) -> bool {
    match first_placeholder(c, XrefId(x), n, k) {
        Some(j) => first_pos.contains_key(x) && first_pos[x] == j - dropped_before(c, j),
        None => !first_pos.contains_key(x),
    }
}

/// The state after the first `k` operations of `c` have been handled.
spec fn pass_inv(st: TextPass, c: Seq<CreateOp>, k: int, n: nat, out: Seq<CreateOp>, next: u32) -> bool {
    &&& 0 <= k <= c.len()
    &&& st.i18n == scope_at(c, k).i18n
    &&& st.icu == scope_at(c, k).icu
    &&& st.blocks@ == text_blocks(c, k)
    &&& st.icus@ == text_icus(c, k)
    &&& st.phs@ == text_placeholders(c, k, n)
    &&& st.handles@ == i18n_handles(c, k)
    &&& next == n + placeholders_before(c, k)
    &&& out.len() == k - dropped_before(c, k)
    &&& forall|j: int|
        0 <= j < k && !dropped(c, j) ==> create_op_converted(
            c,
            j,
            #[trigger] out[j - dropped_before(c, j)],
            n,
            Seq::<UpdateOp>::empty(),
            0,
        )
    &&& forall|x: u32| #[trigger] first_pos_ok(st.first_pos@, c, x, n, k)
}

/// Records that the operation at `k`, about to go to position `out.len()`,
/// yields a placeholder with the id `x`.
fn note_placeholder(
    first_pos: &mut FxHashMap<u32, usize>,
    x: XrefId,
    pos: usize,
    Ghost(c): Ghost<Seq<CreateOp>>,
    Ghost(k): Ghost<int>,
    Ghost(n): Ghost<nat>,
)
    requires
        0 <= k < c.len(),
        placeholder_xref_at(c, k, n) == Some(x),
        pos == k - dropped_before(c, k),
        forall|y: u32| #[trigger] first_pos_ok(old(first_pos)@, c, y, n, k),
    ensures
        forall|y: u32| #[trigger] first_pos_ok(final(first_pos)@, c, y, n, k + 1),
{
    let seen = fx_map_get(first_pos, x.0);
    if seen.is_none() {
        fx_map_insert(first_pos, x.0, pos);
    }
    assert forall|y: u32| #[trigger] first_pos_ok(first_pos@, c, y, n, k + 1) by {
        assert(first_pos_ok(old(first_pos)@, c, y, n, k));
    }
}

/// Handles the operation at `k` of the creation block.
fn pass_step(
    op: CreateOp,
    st: &mut TextPass,
    out: &mut Vec<CreateOp>,
    next: &mut u32,
    Ghost(c): Ghost<Seq<CreateOp>>,
    Ghost(k): Ghost<int>,
    Ghost(n): Ghost<nat>,
)
    requires
        0 <= k < c.len(),
        op == c[k],
        n + placeholders_before(c, c.len() as int) <= u32::MAX,
        pass_inv(*old(st), c, k, n, old(out)@, *old(next)),
    ensures
        pass_inv(*final(st), c, k + 1, n, final(out)@, *final(next)),
{
    proof {
        lemma_counts_mono(c, k + 1, c.len() as int);
    }
    let ghost out0 = out@;
    match op {
        CreateOp::Text(t) => {
            match st.i18n {
                Some(block) => {
                    fx_map_insert(&mut st.blocks, t.xref.0, block);
                    fx_map_insert(&mut st.icus, t.xref.0, st.icu);
                    match t.icu_placeholder {
                        Some(name) => {
                            let x = XrefId(*next);
                            *next = *next + 1;
                            fx_map_insert(&mut st.phs, t.xref.0, x);
                            let pos = out.len();
                            note_placeholder(&mut st.first_pos, x, pos, Ghost(c), Ghost(k), Ghost(n));
                            let strings = vec![t.initial_value];
                            assert(strings@ =~= seq![t.initial_value]);
                            out.push(CreateOp::IcuPlaceholder(IcuPlaceholderOp { xref: x, name, strings }));
                            assert(becomes_placeholder(c, k));
                            assert(x == new_placeholder_xref(c, k, n));
                            assert(create_op_converted(c, k, out@[k - dropped_before(c, k)], n, Seq::<UpdateOp>::empty(), 0));
                            proof {
                                assert(text_blocks(c, k + 1) == text_blocks(c, k).insert(text_xref(c[k]), block));
                            }
                        },
                        None => {
                            assert forall|y: u32| #[trigger] first_pos_ok(st.first_pos@, c, y, n, k + 1) by {
                                assert(first_pos_ok(st.first_pos@, c, y, n, k));
                            }
                        },
                    }
                },
                None => {
                    out.push(CreateOp::Text(t));
                    assert forall|y: u32| #[trigger] first_pos_ok(st.first_pos@, c, y, n, k + 1) by {
                        assert(first_pos_ok(st.first_pos@, c, y, n, k));
                    }
                },
            }
        },
        CreateOp::IcuPlaceholder(p) => {
            let pos = out.len();
            note_placeholder(&mut st.first_pos, p.xref, pos, Ghost(c), Ghost(k), Ghost(n));
            out.push(CreateOp::IcuPlaceholder(p));
        },
        CreateOp::I18nStart(i) => {
            st.i18n = Some((i.xref, i.context));
            match i.slot {
                Some(slot) => fx_map_insert(&mut st.handles, i.xref.0, slot),
                None => {},
            }
            out.push(CreateOp::I18nStart(i));
            assert forall|y: u32| #[trigger] first_pos_ok(st.first_pos@, c, y, n, k + 1) by {
                assert(first_pos_ok(st.first_pos@, c, y, n, k));
            }
        },
        CreateOp::I18nEnd(x) => {
            st.i18n = None;
            out.push(CreateOp::I18nEnd(x));
            assert forall|y: u32| #[trigger] first_pos_ok(st.first_pos@, c, y, n, k + 1) by {
                assert(first_pos_ok(st.first_pos@, c, y, n, k));
            }
        },
        CreateOp::IcuStart(i) => {
            st.icu = Some((i.xref, i.context));
            out.push(CreateOp::IcuStart(i));
            assert forall|y: u32| #[trigger] first_pos_ok(st.first_pos@, c, y, n, k + 1) by {
                assert(first_pos_ok(st.first_pos@, c, y, n, k));
            }
        },
        CreateOp::IcuEnd(x) => {
            st.icu = None;
            out.push(CreateOp::IcuEnd(x));
            assert forall|y: u32| #[trigger] first_pos_ok(st.first_pos@, c, y, n, k + 1) by {
                assert(first_pos_ok(st.first_pos@, c, y, n, k));
            }
        },
        other => {
            out.push(other);
            assert forall|y: u32| #[trigger] first_pos_ok(st.first_pos@, c, y, n, k + 1) by {
                assert(first_pos_ok(st.first_pos@, c, y, n, k));
            }
        },
    }
    assert forall|j: int|
        0 <= j < k + 1 && !dropped(c, j) implies create_op_converted(
            c,
            j,
            #[trigger] out@[j - dropped_before(c, j)],
            n,
            Seq::<UpdateOp>::empty(),
            0,
        ) by {
        lemma_counts_mono(c, 0, j);
        if j < k {
            lemma_counts_mono(c, j + 1, k);
            assert(dropped_before(c, j + 1) == dropped_before(c, j));
            assert(j - dropped_before(c, j) < out0.len());
            assert(out@.len() >= out0.len());
            assert(out@[j - dropped_before(c, j)] == out0[j - dropped_before(c, j)]);
        }
    }
}

/// Handles the whole creation block of a view (consumed), returning the pass state.
fn convert_create(create: &mut Vec<CreateOp>, next: &mut u32) -> (st: TextPass)
    requires
        *old(next) + placeholders_before(old(create)@, old(create)@.len() as int) <= u32::MAX,
    ensures
        pass_inv(st, old(create)@, old(create)@.len() as int, *old(next) as nat, final(create)@, *final(next)),
{
    let ghost c = create@;
    let ghost n = *next as nat;
    let mut rev: Vec<CreateOp> = Vec::new();
    while create.len() > 0
        invariant
            create@.len() + rev@.len() == c.len(),
            forall|i: int| 0 <= i < create@.len() ==> #[trigger] create@[i] == c[i],
            forall|j: int| 0 <= j < rev@.len() ==> #[trigger] rev@[j] == c[c.len() - 1 - j],
        decreases create.len(),
    {
        let x = create.pop().unwrap();
        rev.push(x);
    }
    let mut st = TextPass {
        i18n: None,
        icu: None,
        blocks: fx_map_new(),
        icus: fx_map_new(),
        phs: fx_map_new(),
        handles: fx_map_new(),
        first_pos: fx_map_new(),
    };
    proof {
        assert(st.blocks@ =~= text_blocks(c, 0));
        assert(st.icus@ =~= text_icus(c, 0));
        assert(st.phs@ =~= text_placeholders(c, 0, n));
        assert(st.handles@ =~= i18n_handles(c, 0));
    }
    while rev.len() > 0
        invariant
            rev@.len() <= c.len(),
            forall|j: int| 0 <= j < rev@.len() ==> #[trigger] rev@[j] == c[c.len() - 1 - j],
            n + placeholders_before(c, c.len() as int) <= u32::MAX,
            pass_inv(st, c, c.len() - rev@.len(), n, create@, *next),
        decreases rev.len(),
    {
        let ghost k = c.len() - rev@.len();
        let op = rev.pop().unwrap();
        pass_step(op, &mut st, create, next, Ghost(c), Ghost(k), Ghost(n));
    }
    st
}

/// The first placeholder with an id is a kept operation that yields it.
proof fn lemma_first_placeholder(c: Seq<CreateOp>, x: XrefId, n: nat, k: int)
    ensures
        first_placeholder(c, x, n, k) matches Some(j) ==> 0 <= j < k && placeholder_xref_at(c, j, n) == Some(x)
            && !dropped(c, j),
    decreases k,
{
    if k > 0 {
        lemma_first_placeholder(c, x, n, k - 1);
    }
}

/// Kept operations keep their order in the new block.
proof fn lemma_positions(c: Seq<CreateOp>, j: int, k: int)
    requires
        0 <= j < k <= c.len(),
        !dropped(c, j),
    ensures
        j - dropped_before(c, j) < k - dropped_before(c, k),
        0 <= j - dropped_before(c, j),
{
    lemma_counts_mono(c, j + 1, k);
    lemma_counts_mono(c, 0, j);
    assert(dropped_before(c, j + 1) == dropped_before(c, j));
}

/// Text nodes get a block and an ICU entry together.
proof fn lemma_blocks_icus(c: Seq<CreateOp>, k: int)
    ensures
        text_blocks(c, k).dom() == text_icus(c, k).dom(),
    decreases k,
{
    if k > 0 {
        lemma_blocks_icus(c, k - 1);
    }
    assert(text_blocks(c, k).dom() =~= text_icus(c, k).dom());
}

/// The update operations before `p` have been handled.
spec fn update_inv(
    u: Seq<UpdateOp>,
    p: int,
    out: Seq<UpdateOp>,
    blocks: Map<u32, (XrefId, Option<XrefId>)>,
    icus: Map<u32, Option<(XrefId, Option<XrefId>)>>,
    phs: Map<u32, XrefId>,
    handles: Map<u32, SlotId>,
) -> bool {
    &&& 0 <= p <= u.len()
    &&& out.len() == width_before(u, p, blocks)
    &&& forall|q: int|
        0 <= q < p ==> update_op_converted(
            #[trigger] u[q],
            out,
            width_before(u, q, blocks) as int,
            blocks,
            icus,
            phs,
            handles,
        )
}

/// The parameters of the i18n expressions for the text node `target`.
fn params_for(target: u32, st: &TextPass) -> (r: (XrefId, XrefId, I18nParamResolutionTime, SlotId, Option<XrefId>))
    requires
        st.blocks@.contains_key(target),
        st.blocks@.dom() == st.icus@.dom(),
    ensures
        r == expr_params(target, st.blocks@, st.icus@, st.phs@, st.handles@),
{
    let (ix, ictx) = fx_map_get(&st.blocks, target).unwrap();
    let block_ctx = match ictx {
        Some(x) => x,
        None => ix,
    };
    let icu_info = fx_map_get(&st.icus, target).unwrap();
    let (ctx, rt) = match icu_info {
        Some((_, icu_ctx)) => (
            match icu_ctx {
                Some(x) => x,
                None => block_ctx,
            },
            I18nParamResolutionTime::Postprocessing,
        ),
        None => (block_ctx, I18nParamResolutionTime::Creation),
    };
    let handle = match fx_map_get(&st.handles, ix.0) {
        Some(h) => h,
        None => SlotId(0),
    };
    let icu = fx_map_get(&st.phs, target);
    (ix, ctx, rt, handle, icu)
}

/// Gives the ICU placeholder at `q` its strings.
fn set_strings(create: &mut Vec<CreateOp>, q: usize, strings: Vec<String>)
    requires
        q < old(create)@.len(),
        old(create)@[q as int] is IcuPlaceholder,
    ensures
        final(create)@.len() == old(create)@.len(),
        forall|i: int| 0 <= i < old(create)@.len() && i != q ==> #[trigger] final(create)@[i] == old(create)@[i],
        final(create)@[q as int] matches CreateOp::IcuPlaceholder(ph) && ph.xref == old(create)@[q as int]->IcuPlaceholder_0.xref
            && ph.name == old(create)@[q as int]->IcuPlaceholder_0.name && ph.strings@ == strings@,
{
    let mut op = CreateOp::ElementEnd(XrefId(0));
    std::mem::swap(&mut op, &mut create[q]);
    let op = match op {
        CreateOp::IcuPlaceholder(ph) => CreateOp::IcuPlaceholder(IcuPlaceholderOp { xref: ph.xref, name: ph.name, strings }),
        other => other,
    };
    create.set(q, op);
}

/// An update operation that fills no placeholder that exists leaves the
/// creation block as it is.
proof fn lemma_no_fill(c: Seq<CreateOp>, cr: Seq<CreateOp>, n: nat, u: Seq<UpdateOp>, p: int)
    requires
        0 <= p < u.len(),
        create_converted(c, cr, n, u, p),
        match fills(u[p], text_blocks(c, c.len() as int), text_placeholders(c, c.len() as int, n)) {
            Some((x, _)) => first_placeholder(c, x, n, c.len() as int) is None,
            None => true,
        },
    ensures
        create_converted(c, cr, n, u, p + 1),
{
    assert forall|k: int| 0 <= k < c.len() && !dropped(c, k) implies create_op_converted(
        c,
        k,
        #[trigger] cr[k - dropped_before(c, k)],
        n,
        u,
        p + 1,
    ) by {
        assert(create_op_converted(c, k, cr[k - dropped_before(c, k)], n, u, p));
    }
}

/// An update operation that fills the placeholder first yielded at `j` gives
/// that placeholder, and no other operation, its strings.
proof fn lemma_fill(
    c: Seq<CreateOp>,
    cr0: Seq<CreateOp>,
    cr1: Seq<CreateOp>,
    n: nat,
    u: Seq<UpdateOp>,
    p: int,
    x: XrefId,
    ss: Seq<String>,
    j: int,
)
    requires
        0 <= p < u.len(),
        create_converted(c, cr0, n, u, p),
        fills(u[p], text_blocks(c, c.len() as int), text_placeholders(c, c.len() as int, n)) == Some((x, ss)),
        first_placeholder(c, x, n, c.len() as int) == Some(j),
        cr1.len() == cr0.len(),
        forall|i: int| 0 <= i < cr0.len() && i != j - dropped_before(c, j) ==> #[trigger] cr1[i] == cr0[i],
        cr1[j - dropped_before(c, j)] matches CreateOp::IcuPlaceholder(ph) && ph.xref == cr0[j
            - dropped_before(c, j)]->IcuPlaceholder_0.xref && ph.name == cr0[j
            - dropped_before(c, j)]->IcuPlaceholder_0.name && ph.strings@ == ss,
    ensures
        create_converted(c, cr1, n, u, p + 1),
{
    lemma_first_placeholder(c, x, n, c.len() as int);
    assert forall|k: int| 0 <= k < c.len() && !dropped(c, k) implies create_op_converted(
        c,
        k,
        #[trigger] cr1[k - dropped_before(c, k)],
        n,
        u,
        p + 1,
    ) by {
        lemma_positions(c, k, c.len() as int);
        assert(create_op_converted(c, k, cr0[k - dropped_before(c, k)], n, u, p));
        if k < j {
            lemma_positions(c, k, j);
        } else if k > j {
            lemma_positions(c, j, k);
        } else {
            assert(placeholder_strings(
                u,
                p + 1,
                text_blocks(c, c.len() as int),
                text_placeholders(c, c.len() as int, n),
                x,
            ) == Some(ss));
        }
    }
}

/// The pushed operations of an extension keep what the earlier ones were.
proof fn lemma_converted_extend(
    op: UpdateOp,
    out0: Seq<UpdateOp>,
    out1: Seq<UpdateOp>,
    start: int,
    blocks: Map<u32, (XrefId, Option<XrefId>)>,
    icus: Map<u32, Option<(XrefId, Option<XrefId>)>>,
    phs: Map<u32, XrefId>,
    handles: Map<u32, SlotId>,
)
    requires
        update_op_converted(op, out0, start, blocks, icus, phs, handles),
        0 <= start,
        start + op_width(op, blocks) <= out0.len(),
        out0.len() <= out1.len(),
        forall|i: int| 0 <= i < out0.len() ==> #[trigger] out1[i] == out0[i],
    ensures
        update_op_converted(op, out1, start, blocks, icus, phs, handles),
{
    if converted(op, blocks) {
        assert forall|i: int| 0 <= i < op_width(op, blocks) implies (#[trigger] out1[start + i] matches UpdateOp::I18nExpression(e)
            && i18n_expression_for(e, op->InterpolateText_0, i, blocks, icus, phs, handles)) by {
            assert(out1[start + i] == out0[start + i]);
        }
    } else {
        assert(out1[start] == out0[start]);
    }
}

/// Widths add up.
proof fn lemma_width_mono(u: Seq<UpdateOp>, q: int, p: int, blocks: Map<u32, (XrefId, Option<XrefId>)>)
    requires
        0 <= q <= p,
    ensures
        width_before(u, q, blocks) <= width_before(u, p, blocks),
    decreases p - q,
{
    if q < p {
        lemma_width_mono(u, q, p - 1, blocks);
    }
}

/// Whether `e` is an i18n text expression with these parameters.
spec fn expression_op_has(
    e: I18nExpressionOp,
    ix: XrefId,
    ctx: XrefId,
    rt: I18nParamResolutionTime,
    handle: SlotId,
    icu: Option<XrefId>,
) -> bool {
    &&& e.i18n_owner == ix
    &&& e.target == ix
    &&& e.context == ctx
    &&& e.handle == handle
    &&& e.resolution_time == rt
    &&& e.usage == I18nExpressionFor::I18nText
    &&& e.name@.len() == 0
    &&& e.icu_placeholder == icu
}

fn reversed<T>(v: Vec<T>) -> (r: Vec<T>)
    ensures
        r@.len() == v@.len(),
        forall|j: int| 0 <= j < v@.len() ==> #[trigger] r@[j] == v@[v@.len() - 1 - j],
{
    let ghost orig = v@;
    let mut rev: Vec<T> = Vec::new();
    let mut v = v;
    while v.len() > 0
        invariant
            v@.len() + rev@.len() == orig.len(),
            forall|i: int| 0 <= i < v@.len() ==> #[trigger] v@[i] == orig[i],
            forall|j: int| 0 <= j < rev@.len() ==> #[trigger] rev@[j] == orig[orig.len() - 1 - j],
        decreases v.len(),
    {
        let x = v.pop().unwrap();
        rev.push(x);
    }
    rev
}

/// Appends one i18n expression per interpolated expression.
fn push_expressions(
    out: &mut Vec<UpdateOp>,
    expressions: Vec<IrExpression>,
    placeholders: Vec<String>,
    ix: XrefId,
    ctx: XrefId,
    rt: I18nParamResolutionTime,
    handle: SlotId,
    icu: Option<XrefId>,
)
    ensures
        final(out)@.len() == old(out)@.len() + expressions@.len(),
        forall|i: int| 0 <= i < old(out)@.len() ==> #[trigger] final(out)@[i] == old(out)@[i],
        forall|i: int|
            0 <= i < expressions@.len() ==> (#[trigger] final(out)@[old(out)@.len() + i] matches UpdateOp::I18nExpression(e)
                && expression_op_has(e, ix, ctx, rt, handle, icu) && e.expression == expressions@[i]
                && e.i18n_placeholder == if i < placeholders@.len() {
                Some(placeholders@[i])
            } else {
                None
            }),
{
    let ghost es = expressions@;
    let ghost ps = placeholders@;
    let ghost o0 = out@;
    let total = expressions.len();
    let mut er = reversed(expressions);
    let mut pr = reversed(placeholders);
    let mut i: usize = 0;
    while er.len() > 0
        invariant
            i + er@.len() == es.len(),
            total == es.len(),
            forall|j: int| 0 <= j < er@.len() ==> #[trigger] er@[j] == es[es.len() - 1 - j],
            i <= ps.len() ==> pr@.len() == ps.len() - i,
            i > ps.len() ==> pr@.len() == 0,
            forall|j: int| 0 <= j < pr@.len() ==> #[trigger] pr@[j] == ps[ps.len() - 1 - j],
            out@.len() == o0.len() + i,
            forall|k: int| 0 <= k < o0.len() ==> #[trigger] out@[k] == o0[k],
            forall|k: int|
                0 <= k < i ==> (#[trigger] out@[o0.len() + k] matches UpdateOp::I18nExpression(e)
                    && expression_op_has(e, ix, ctx, rt, handle, icu) && e.expression == es[k]
                    && e.i18n_placeholder == if k < ps.len() {
                    Some(ps[k])
                } else {
                    None
                }),
        decreases er.len(),
    {
        let e = er.pop().unwrap();
        let ph = pr.pop();
        out.push(
            UpdateOp::I18nExpression(
                I18nExpressionOp {
                    i18n_owner: ix,
                    target: ix,
                    context: ctx,
                    handle,
                    expression: e,
                    resolution_time: rt,
                    usage: I18nExpressionFor::I18nText,
                    name: String::new(),
                    i18n_placeholder: ph,
                    icu_placeholder: icu,
                },
            ),
        );
        i = i + 1;
    }
}

/// Whether the pass state holds the maps of the whole creation block `c`.
spec fn pass_done(st: TextPass, c: Seq<CreateOp>, n: nat) -> bool {
    let len = c.len() as int;
    &&& st.blocks@ == text_blocks(c, len)
    &&& st.icus@ == text_icus(c, len)
    &&& st.phs@ == text_placeholders(c, len, n)
    &&& st.handles@ == i18n_handles(c, len)
    &&& forall|x: u32| #[trigger] first_pos_ok(st.first_pos@, c, x, n, len)
}

/// Handles the update operation at `p`.
fn convert_update_op(
    op: UpdateOp,
    create: &mut Vec<CreateOp>,
    st: &TextPass,
    out: &mut Vec<UpdateOp>,
    Ghost(c): Ghost<Seq<CreateOp>>,
    Ghost(u): Ghost<Seq<UpdateOp>>,
    Ghost(p): Ghost<int>,
    Ghost(n): Ghost<nat>,
)
    requires
        0 <= p < u.len(),
        op == u[p],
        pass_done(*st, c, n),
        create_converted(c, old(create)@, n, u, p),
        update_inv(u, p, old(out)@, st.blocks@, st.icus@, st.phs@, st.handles@),
    ensures
        create_converted(c, final(create)@, n, u, p + 1),
        update_inv(u, p + 1, final(out)@, st.blocks@, st.icus@, st.phs@, st.handles@),
{
    let ghost out0 = out@;
    let ghost cr0 = create@;
    let ghost blocks = st.blocks@;
    let ghost icus = st.icus@;
    let ghost phs = st.phs@;
    let ghost handles = st.handles@;
    proof {
        lemma_blocks_icus(c, c.len() as int);
        lemma_width_mono(u, p, p + 1, blocks);
    }
    let target = match &op {
        UpdateOp::InterpolateText(b) => if fx_map_get(&st.blocks, b.target.0).is_some() { Some(b.target.0) } else { None },
        _ => None,
    };
    match target {
        Some(t) => {
            let (ix, ctx, rt, handle, icu) = params_for(t, st);
            match op {
                UpdateOp::InterpolateText(b) => {
                    let ghost bg = b;
                    match b.expression {
                        IrExpression::Interpolation { strings, expressions, i18n_placeholders } => {
                            push_expressions(out, expressions, i18n_placeholders, ix, ctx, rt, handle, icu);
                            let mut filled = false;
                            match icu {
                                Some(x) => {
                                    match fx_map_get(&st.first_pos, x.0) {
                                        Some(q) => {
                                            proof {
                                                assert(first_pos_ok(st.first_pos@, c, x.0, n, c.len() as int));
                                                let j = first_placeholder(c, x, n, c.len() as int)->0;
                                                lemma_first_placeholder(c, x, n, c.len() as int);
                                                lemma_positions(c, j, c.len() as int);
                                                assert(create_op_converted(c, j, cr0[j - dropped_before(c, j)], n, u, p));
                                            }
                                            let ghost ss = strings@;
                                            set_strings(create, q, strings);
                                            proof {
                                                let j = first_placeholder(c, x, n, c.len() as int)->0;
                                                lemma_fill(c, cr0, create@, n, u, p, x, ss, j);
                                            }
                                            filled = true;
                                        },
                                        None => {
                                            assert(first_pos_ok(st.first_pos@, c, x.0, n, c.len() as int));
                                        },
                                    }
                                },
                                None => {},
                            }
                            if !filled {
                                proof {
                                    lemma_no_fill(c, cr0, n, u, p);
                                }
                            }
                        },
                        other => {
                            out.push(
                                UpdateOp::I18nExpression(
                                    I18nExpressionOp {
                                        i18n_owner: ix,
                                        target: ix,
                                        context: ctx,
                                        handle,
                                        expression: other,
                                        resolution_time: rt,
                                        usage: I18nExpressionFor::I18nText,
                                        name: String::new(),
                                        i18n_placeholder: None,
                                        icu_placeholder: icu,
                                    },
                                ),
                            );
                            proof {
                                lemma_no_fill(c, cr0, n, u, p);
                            }
                        },
                    }
                    assert(update_op_converted(u[p], out@, width_before(u, p, blocks) as int, blocks, icus, phs, handles));
                },
                _ => {},
            }
        },
        None => {
            out.push(op);
            proof {
                lemma_no_fill(c, cr0, n, u, p);
            }
        },
    }
    assert forall|q: int| 0 <= q < p + 1 implies update_op_converted(
        #[trigger] u[q],
        out@,
        width_before(u, q, blocks) as int,
        blocks,
        icus,
        phs,
        handles,
    ) by {
        if q < p {
            lemma_width_mono(u, q + 1, p, blocks);
            lemma_converted_extend(u[q], out0, out@, width_before(u, q, blocks) as int, blocks, icus, phs, handles);
        }
    }
}

/// Converts the i18n text of one view; new ICU placeholders get ids from `*next` on.
fn convert_i18n_text_in_view(view: &mut ViewCompilationUnit, next: &mut u32)
    requires
        *old(next) + view_placeholder_count(*old(view)) <= u32::MAX,
    ensures
        view_i18n_text_converted(*old(view), *final(view), *old(next) as nat),
        *final(next) == *old(next) + view_placeholder_count(*old(view)),
{
    let ghost c = view.create@;
    let ghost n = *next as nat;
    let ghost u = view.update@;
    let st = convert_create(&mut view.create, next);
    proof {
        assert forall|k: int| 0 <= k < c.len() && !dropped(c, k) implies create_op_converted(
            c,
            k,
            #[trigger] view.create@[k - dropped_before(c, k)],
            n,
            u,
            0,
        ) by {
            assert(create_op_converted(c, k, view.create@[k - dropped_before(c, k)], n, Seq::<UpdateOp>::empty(), 0));
        }
    }
    let mut update: Vec<UpdateOp> = Vec::new();
    std::mem::swap(&mut update, &mut view.update);
    let mut rev = reversed(update);
    let mut out: Vec<UpdateOp> = Vec::new();
    while rev.len() > 0
        invariant
            rev@.len() <= u.len(),
            forall|j: int| 0 <= j < rev@.len() ==> #[trigger] rev@[j] == u[u.len() - 1 - j],
            pass_done(st, c, n),
            create_converted(c, view.create@, n, u, u.len() - rev@.len()),
            update_inv(u, u.len() - rev@.len(), out@, st.blocks@, st.icus@, st.phs@, st.handles@),
            view.xref == old(view).xref,
            view.decl_count == old(view).decl_count,
            view.functions == old(view).functions,
        decreases rev.len(),
    {
        let ghost p = u.len() - rev@.len();
        let op = rev.pop().unwrap();
        convert_update_op(op, &mut view.create, &st, &mut out, Ghost(c), Ghost(u), Ghost(p), Ghost(n));
    }
    view.update = out;
}

/// Converts the i18n text of every view, root first; the new ICU placeholders
/// get fresh ids from the job's counter.
pub fn convert_i18n_text(job: &mut ComponentCompilationJob)
    requires
        old(job).next_xref + view_placeholder_count(old(job).root) + views_placeholder_count(
            old(job).views@,
            old(job).views@.len() as int,
        ) <= u32::MAX,
    ensures
        job_i18n_text_converted(*old(job), *final(job)),
{
    let ghost vs = job.views@;
    let ghost n1: nat = job.next_xref as nat + view_placeholder_count(job.root);
    let mut next = job.next_xref;
    convert_i18n_text_in_view(&mut job.root, &mut next);
    let n = job.views.len();
    let mut i: usize = 0;
    while i < n
        invariant
            n == job.views@.len(),
            n == vs.len(),
            vs == old(job).views@,
            i <= n,
            n1 == old(job).next_xref + view_placeholder_count(old(job).root),
            n1 + views_placeholder_count(vs, n as int) <= u32::MAX,
            next == n1 + views_placeholder_count(vs, i as int),
            view_i18n_text_converted(old(job).root, job.root, old(job).next_xref as nat),
            forall|j: int|
                0 <= j < i ==> view_i18n_text_converted(
                    vs[j],
                    #[trigger] job.views@[j],
                    n1 + views_placeholder_count(vs, j),
                ),
            forall|j: int| i <= j < n ==> #[trigger] job.views@[j] == vs[j],
            job.next_xref == old(job).next_xref,
            job.consts == old(job).consts,
            job.diagnostics == old(job).diagnostics,
            job.compatibility_mode == old(job).compatibility_mode,
            job.mode == old(job).mode,
            job.enable_debug_locations == old(job).enable_debug_locations,
            job.relative_template_path == old(job).relative_template_path,
            job.template_source == old(job).template_source,
        decreases n - i,
    {
        proof {
            lemma_views_count_mono(vs, i + 1, n as int);
        }
        convert_i18n_text_in_view(&mut job.views[i], &mut next);
        i = i + 1;
    }
    job.next_xref = next;
}

/// Counting over views is monotone.
proof fn lemma_views_count_mono(views: Seq<ViewCompilationUnit>, i: int, j: int)
    requires
        i <= j,
    ensures
        views_placeholder_count(views, i) <= views_placeholder_count(views, j),
    decreases j - i,
{
    if i < j {
        lemma_views_count_mono(views, i, j - 1);
    }
}

/// Within a view, distinct text nodes that become ICU placeholders get
/// distinct fresh ids, in the order of the nodes: each id is at least the first
/// free id `n` and below `n` plus the view's placeholder count.
pub proof fn law_placeholder_ids_fresh_and_distinct(v: ViewCompilationUnit, j: int, k: int, n: nat)
    requires
        0 <= j < k < v.create@.len(),
        becomes_placeholder(v.create@, j),
        becomes_placeholder(v.create@, k),
        n + view_placeholder_count(v) <= u32::MAX,
    ensures
        new_placeholder_xref(v.create@, j, n) != new_placeholder_xref(v.create@, k, n),
        n <= new_placeholder_xref(v.create@, j, n).0,
        new_placeholder_xref(v.create@, j, n).0 < new_placeholder_xref(v.create@, k, n).0,
        new_placeholder_xref(v.create@, k, n).0 < n + view_placeholder_count(v),
{
    let c = v.create@;
    lemma_counts_mono(c, j + 1, k);
    lemma_counts_mono(c, k + 1, c.len() as int);
}

} // verus!
