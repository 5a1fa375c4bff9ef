//! Empty element collapse phase.
//!
//! A start operation directly followed by its end operation (pipes in between
//! do not count) is merged into one operation: `ElementStart`/`ElementEnd`
//! become `Element`, `ContainerStart`/`ContainerEnd` become `Container`, and
//! `I18nStart`/`I18nEnd` become `I18n`.

use vstd::prelude::*;
use crate::ir::{ComponentCompilationJob, CreateOp, ViewCompilationUnit, XrefId};

verus! {

/// The kinds of start/end pairs that can be merged.
#[derive(Clone, Copy, Debug, PartialEq, Eq, Structural)]
pub enum MergeType {
    Element,
    Container,
    I18n,
}

/// The id and the kind of an end operation.
pub open spec fn end_of(op: CreateOp) -> Option<(u32, MergeType)> {
    match op {
        CreateOp::ElementEnd(x) => Some((x.0, MergeType::Element)),
        CreateOp::ContainerEnd(x) => Some((x.0, MergeType::Container)),
        CreateOp::I18nEnd(x) => Some((x.0, MergeType::I18n)),
        _ => None,
    }
}

/// Whether the operation starts the entity `x` of the kind `t`.
pub open spec fn starts(op: CreateOp, x: u32, t: MergeType) -> bool {
    match op {
        CreateOp::ElementStart(e) => t is Element && e.xref.0 == x,
        CreateOp::ContainerStart(e) => t is Container && e.xref.0 == x,
        CreateOp::I18nStart(i) => t is I18n && i.xref.0 == x,
        _ => false,
    }
}

/// The first position at or below `p` that holds no pipe, or 0.
pub open spec fn skip_pipes_back(c: Seq<CreateOp>, p: int) -> int
    decreases p,
{
    if p > 0 && c[p] is Pipe {
        skip_pipes_back(c, p - 1)
    } else {
        p
    }
}

/// The position compared with the end operation at `idx`: the one before it,
/// pipes skipped.
pub open spec fn before_end(c: Seq<CreateOp>, idx: int) -> int {
    skip_pipes_back(c, if idx == 0 { 0 } else { idx - 1 })
}

/// Whether the end operation at `idx` closes the start just before it.
pub open spec fn collapses_at(c: Seq<CreateOp>, idx: int) -> bool {
    match end_of(c[idx]) {
        Some((x, t)) => starts(c[before_end(c, idx)], x, t),
        None => false,
    }
}

/// The end operations among the first `n` that close the start just before
/// them: their position, id and kind, in order.
pub open spec fn merge_pairs(c: Seq<CreateOp>, n: int) -> Seq<(usize, u32, MergeType)>
    decreases n,
{
    if n <= 0 {
        seq![]
    } else {
        let p = merge_pairs(c, n - 1);
        if collapses_at(c, n - 1) {
            let (x, t) = end_of(c[n - 1])->0;
            p.push(((n - 1) as usize, x, t))
        } else {
            p
        }
    }
}

/// The merged form of a start operation.
pub open spec fn merged(op: CreateOp) -> CreateOp {
    match op {
        CreateOp::ElementStart(e) => CreateOp::Element(e),
        CreateOp::ContainerStart(e) => CreateOp::Container(e),
        CreateOp::I18nStart(i) => CreateOp::I18n(i),
        _ => op,
    }
}

/// The first position at or after `k` of a start of `x` of the kind `t`.
pub open spec fn find_start(s: Seq<CreateOp>, x: u32, t: MergeType, k: int) -> Option<int>
    decreases s.len() - k,
{
    if k < 0 || k >= s.len() {
        None
    } else if starts(s[k], x, t) {
        Some(k)
    } else {
        find_start(s, x, t, k + 1)
    }
}

proof fn lemma_find_start(s: Seq<CreateOp>, x: u32, t: MergeType, k: int)
    ensures
        find_start(s, x, t, k) matches Some(j) ==> k <= j < s.len() && starts(s[j], x, t),
    decreases s.len() - k,
{
    if 0 <= k < s.len() && !starts(s[k], x, t) {
        lemma_find_start(s, x, t, k + 1);
    }
}

/// One merge: the end operation at the pair's position is removed, and the
/// first start of its id and kind becomes the merged operation.
pub open spec fn apply_merge(s: Seq<CreateOp>, m: (usize, u32, MergeType)) -> Seq<CreateOp> {
    let s1 = if m.0 < s.len() { s.remove(m.0 as int) } else { s };
    match find_start(s1, m.1, m.2, 0) {
        Some(j) => s1.update(j, merged(s1[j])),
        None => s1,
    }
}

/// The merges `ms` applied from the last to the first.
pub open spec fn apply_merges(s: Seq<CreateOp>, ms: Seq<(usize, u32, MergeType)>) -> Seq<CreateOp>
    decreases ms.len(),
{
    if ms.len() == 0 {
        s
    } else {
        apply_merges(apply_merge(s, ms.last()), ms.drop_last())
    }
}

/// The creation list with its empty start/end pairs collapsed.
pub open spec fn collapsed(c: Seq<CreateOp>) -> Seq<CreateOp> {
    apply_merges(c, merge_pairs(c, c.len() as int))
}

/// Whether the view `after` is `before` with its empty instructions collapsed.
pub open spec fn view_collapsed_empty(before: ViewCompilationUnit, after: ViewCompilationUnit) -> bool {
    &&& after.create@ == collapsed(before.create@)
    &&& after.update == before.update
    &&& after.functions == before.functions
    &&& after.xref == before.xref
    &&& after.decl_count == before.decl_count
}

/// Whether the job `after` is `before` with the empty instructions of every
/// view collapsed.
pub open spec fn job_collapsed_empty(before: ComponentCompilationJob, after: ComponentCompilationJob) -> bool {
    &&& view_collapsed_empty(before.root, after.root)
    &&& after.views@.len() == before.views@.len()
    &&& forall|i: int| 0 <= i < before.views@.len() ==> view_collapsed_empty(before.views@[i], #[trigger] after.views@[i])
    &&& after.consts == before.consts
    &&& after.diagnostics == before.diagnostics
    &&& after.next_xref == before.next_xref
    &&& after.compatibility_mode == before.compatibility_mode
    &&& after.mode == before.mode
    &&& after.enable_debug_locations == before.enable_debug_locations
    &&& after.relative_template_path == before.relative_template_path
    &&& after.template_source == before.template_source
}

/// Whether an operation is ignored when looking for the start of an end.
fn is_ignored_op(op: &CreateOp) -> (r: bool)
    ensures
        r == (*op is Pipe),
{
    match op {
        CreateOp::Pipe(_) => true,
        _ => false,
    }
}

fn end_info(op: &CreateOp) -> (r: Option<(u32, MergeType)>)
    ensures
        r == end_of(*op),
{
    match op {
        CreateOp::ElementEnd(x) => Some((x.0, MergeType::Element)),
        CreateOp::ContainerEnd(x) => Some((x.0, MergeType::Container)),
        CreateOp::I18nEnd(x) => Some((x.0, MergeType::I18n)),
        _ => None,
    }
}

fn is_start_of(op: &CreateOp, x: u32, t: MergeType) -> (r: bool)
    ensures
        r == starts(*op, x, t),
{
    match op {
        CreateOp::ElementStart(e) => t == MergeType::Element && e.xref.0 == x,
        CreateOp::ContainerStart(e) => t == MergeType::Container && e.xref.0 == x,
        CreateOp::I18nStart(i) => t == MergeType::I18n && i.xref.0 == x,
        _ => false,
    }
}

/// Finds the pairs to merge.
fn find_merge_pairs(create: &Vec<CreateOp>) -> (r: Vec<(usize, u32, MergeType)>)
    ensures
        r@ == merge_pairs(create@, create@.len() as int),
{
    let ghost c = create@;
    let n = create.len();
    let mut pairs: Vec<(usize, u32, MergeType)> = Vec::new();
    let mut idx: usize = 0;
    while idx < n
        invariant
            n == c.len(),
            c == create@,
            idx <= n,
            pairs@ == merge_pairs(c, idx as int),
        decreases n - idx,
    {
        match end_info(&create[idx]) {
            Some((x, t)) => {
                let mut prev: usize = if idx == 0 { 0 } else { idx - 1 };
                while prev > 0 && is_ignored_op(&create[prev])
                    invariant
                        n == c.len(),
                        c == create@,
                        idx < n,
                        prev < n,
                        skip_pipes_back(c, prev as int) == before_end(c, idx as int),
                    decreases prev,
                {
                    prev = prev - 1;
                }
                if is_start_of(&create[prev], x, t) {
                    pairs.push((idx, x, t));
                }
            },
            None => {},
        }
        idx = idx + 1;
    }
    pairs
}

/// The first start of `x` of the kind `t`.
fn find_start_of(create: &Vec<CreateOp>, x: u32, t: MergeType) -> (r: Option<usize>)
    ensures
        match r {
            Some(j) => find_start(create@, x, t, 0) == Some(j as int),
            None => find_start(create@, x, t, 0) is None,
        },
{
    let n = create.len();
    let mut j: usize = 0;
    while j < n
        invariant
            n == create@.len(),
            j <= n,
            find_start(create@, x, t, 0) == find_start(create@, x, t, j as int),
        decreases n - j,
    {
        if is_start_of(&create[j], x, t) {
            return Some(j);
        }
        j = j + 1;
    }
    None
}

/// Applies one merge.
fn merge_one(create: &mut Vec<CreateOp>, m: (usize, u32, MergeType))
    ensures
        final(create)@ == apply_merge(old(create)@, m),
{
    let (end_idx, x, t) = m;
    if end_idx < create.len() {
        create.remove(end_idx);
    }
    proof {
        lemma_find_start(create@, x, t, 0);
    }
    match find_start_of(create, x, t) {
        Some(j) => {
            let mut op = CreateOp::ElementEnd(XrefId(0));
            std::mem::swap(&mut op, &mut create[j]);
            let op = match op {
                CreateOp::ElementStart(e) => CreateOp::Element(e),
                CreateOp::ContainerStart(e) => CreateOp::Container(e),
                CreateOp::I18nStart(i) => CreateOp::I18n(i),
                other => other,
            };
            create.set(j, op);
        },
        None => {},
    }
}

/// Collapses the empty instructions of one view.
fn collapse_in_view(view: &mut ViewCompilationUnit)
    ensures
        view_collapsed_empty(*old(view), *final(view)),
{
    let ghost target = collapsed(view.create@);
    let mut pairs = find_merge_pairs(&view.create);
    while pairs.len() > 0
        invariant
            apply_merges(view.create@, pairs@) == target,
            view.update == old(view).update,
            view.functions == old(view).functions,
            view.xref == old(view).xref,
            view.decl_count == old(view).decl_count,
        decreases pairs.len(),
    {
        let ghost ps = pairs@;
        let m = pairs.pop().unwrap();
        assert(ps.drop_last() =~= pairs@);
        merge_one(&mut view.create, m);
    }
}

/// Replaces each start operation directly followed by its end operation
/// (pipes in between ignored) by the merged operation, in every view.
pub fn collapse_empty_instructions(job: &mut ComponentCompilationJob)
    ensures
        job_collapsed_empty(*old(job), *final(job)),
{
    collapse_in_view(&mut job.root);
    let n = job.views.len();
    let mut i: usize = 0;
    while i < n
        invariant
            n == job.views@.len(),
            n == old(job).views@.len(),
            i <= n,
            view_collapsed_empty(old(job).root, job.root),
            forall|j: int| 0 <= j < i ==> view_collapsed_empty(old(job).views@[j], #[trigger] job.views@[j]),
            forall|j: int| i <= j < n ==> #[trigger] job.views@[j] == old(job).views@[j],
            job.consts == old(job).consts,
            job.diagnostics == old(job).diagnostics,
            job.next_xref == old(job).next_xref,
            job.compatibility_mode == old(job).compatibility_mode,
            job.mode == old(job).mode,
            job.enable_debug_locations == old(job).enable_debug_locations,
            job.relative_template_path == old(job).relative_template_path,
            job.template_source == old(job).template_source,
        decreases n - i,
    {
        collapse_in_view(&mut job.views[i]);
        i = i + 1;
    }
}

} // verus!
