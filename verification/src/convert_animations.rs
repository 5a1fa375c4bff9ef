//! Animation conversion phase.
//!
//! Animation bindings leave the update block and become creation operations:
//! a value binding (`[animate.enter]="expr"`) an animation whose handler
//! returns the value, a string binding (`animate.enter="cls"`) an animation
//! string. Each goes right after its target element, or at the end of the
//! view with a warning when the target is not in the view. In host bindings
//! only the string bindings move, to the end of the creation block.

use vstd::prelude::*;
use crate::ir::{host_frame_kept,
    AnimationKind, AnimationStringOp, BindingKind, ComponentCompilationJob, CreateOp, Diagnostic, HostBindingCompilationJob,
    ListenerOp, UpdateBindingOp, UpdateOp, ViewCompilationUnit, XrefId,
};
use crate::text::str_eq;

verus! {

/// The kind of an animation by its name: `animate.enter` enters, anything else leaves.
pub open spec fn spec_animation_kind(name: Seq<char>) -> AnimationKind {
    if name == "animate.enter"@ {
        AnimationKind::Enter
    } else {
        AnimationKind::Leave
    }
}

/// The kind of an animation by its name.
pub fn get_animation_kind(name: &String) -> (k: AnimationKind)
    ensures
        k == spec_animation_kind(name@),
{
    if str_eq(name.as_str(), "animate.enter") {
        AnimationKind::Enter
    } else {
        AnimationKind::Leave
    }
}

/// Whether an animation binding is string-valued (it came from an attribute).
pub open spec fn is_string_animation(b: UpdateBindingOp) -> bool {
    b.kind == BindingKind::Attribute
}

/// The animation bindings of a list whose string-valuedness is `string`, in order.
pub open spec fn animation_bindings(u: Seq<UpdateOp>, string: bool) -> Seq<UpdateBindingOp>
    decreases u.len(),
{
    if u.len() == 0 {
        seq![]
    } else {
        let p = animation_bindings(u.drop_last(), string);
        match u.last() {
            UpdateOp::AnimationBinding(b) => if is_string_animation(b) == string { p.push(b) } else { p },
            _ => p,
        }
    }
}

/// The operations of a list that are not animation bindings (of the given
/// string-valuedness, or of either when `all`), in order.
pub open spec fn without_animations(u: Seq<UpdateOp>, all: bool) -> Seq<UpdateOp>
    decreases u.len(),
{
    if u.len() == 0 {
        seq![]
    } else {
        let p = without_animations(u.drop_last(), all);
        match u.last() {
            UpdateOp::AnimationBinding(b) => if all || is_string_animation(b) { p } else { p.push(u.last()) },
            _ => p.push(u.last()),
        }
    }
}

/// The creation operation an animation binding becomes.
pub open spec fn animation_op(b: UpdateBindingOp) -> CreateOp {
    if is_string_animation(b) {
        CreateOp::AnimationString(
            AnimationStringOp {
                target: b.target,
                name: b.name,
                expression: b.expression,
                animation_kind: spec_animation_kind(b.name@),
            },
        )
    } else {
        CreateOp::Animation(
            ListenerOp {
                target: b.target,
                target_slot: None,
                name: b.name,
                host_listener: false,
                is_animation_listener: false,
                legacy_animation_phase: None,
                handler_expression: Some(b.expression),
                handler_ops: None,
                animation_kind: Some(spec_animation_kind(b.name@)),
            },
        )
    }
}

/// Whether an operation is the element, container or template `x`.
pub open spec fn is_animation_target(op: CreateOp, x: XrefId) -> bool {
    match op {
        CreateOp::ElementStart(e) | CreateOp::Element(e) | CreateOp::ContainerStart(e) | CreateOp::Container(e) =>
            e.xref == x,
        CreateOp::Template(t) => t.xref == x,
        _ => false,
    }
}

/// The first position at or after `k` of the target `x`.
pub open spec fn find_animation_target(s: Seq<CreateOp>, x: XrefId, k: int) -> Option<int>
    decreases s.len() - k,
{
    if k < 0 || k >= s.len() {
        None
    } else if is_animation_target(s[k], x) {
        Some(k)
    } else {
        find_animation_target(s, x, k + 1)
    }
}

/// The creation list with the operation of the binding `b` placed right after
/// its target, or at the end.
pub open spec fn place_animation(s: Seq<CreateOp>, b: UpdateBindingOp) -> Seq<CreateOp> {
    match find_animation_target(s, b.target, 0) {
        Some(k) => s.insert(k + 1, animation_op(b)),
        None => s.push(animation_op(b)),
    }
}

/// The creation list with the operations of the bindings `bs` placed, in order.
pub open spec fn place_animations(s: Seq<CreateOp>, bs: Seq<UpdateBindingOp>) -> Seq<CreateOp>
    decreases bs.len(),
{
    if bs.len() == 0 {
        s
    } else {
        place_animation(place_animations(s, bs.drop_last()), bs.last())
    }
}

/// The names of the bindings of `bs` whose target is not in `s`, in order.
pub open spec fn missing_targets(s: Seq<CreateOp>, bs: Seq<UpdateBindingOp>) -> Seq<Seq<char>>
    decreases bs.len(),
{
    if bs.len() == 0 {
        seq![]
    } else {
        let p = missing_targets(s, bs.drop_last());
        if find_animation_target(s, bs.last().target, 0) is None {
            p.push(bs.last().name@)
        } else {
            p
        }
    }
}

/// The bindings of a view in the order their operations are placed: the value
/// bindings first, then the string bindings.
pub open spec fn view_animations(u: Seq<UpdateOp>) -> Seq<UpdateBindingOp> {
    animation_bindings(u, false) + animation_bindings(u, true)
}

/// Whether the view `after` is `before` with its animations converted.
pub open spec fn view_animations_converted(before: ViewCompilationUnit, after: ViewCompilationUnit) -> bool {
    &&& after.update@ == without_animations(before.update@, true)
    &&& after.create@ == place_animations(before.create@, view_animations(before.update@))
    &&& after.functions == before.functions
    &&& after.xref == before.xref
    &&& after.decl_count == before.decl_count
}

/// The names of the animations of a view whose target is not in the view.
pub open spec fn view_missing(v: ViewCompilationUnit) -> Seq<Seq<char>> {
    missing_targets(v.create@, view_animations(v.update@))
}

/// The names of the animations without target of the views before `i`.
pub open spec fn views_missing(vs: Seq<ViewCompilationUnit>, i: int) -> Seq<Seq<char>>
    decreases i,
{
    if i <= 0 {
        seq![]
    } else {
        views_missing(vs, i - 1) + view_missing(vs[i - 1])
    }
}

/// Whether the diagnostics `d` are `d0` followed by a target-not-found warning
/// for each of the names `m`.
pub open spec fn warned(d: Seq<Diagnostic>, d0: Seq<Diagnostic>, m: Seq<Seq<char>>) -> bool {
    &&& d.len() == d0.len() + m.len()
    &&& forall|k: int| 0 <= k < d0.len() ==> #[trigger] d[k] == d0[k]
    &&& forall|j: int|
        0 <= j < m.len() ==> ((#[trigger] d[d0.len() + j]) matches Diagnostic::AnimationTargetNotFound { name }
            && name@ == m[j])
}

/// Whether the job `after` is `before` with the animations of every view
/// converted (root first), warning about the animations without target.
pub open spec fn job_animations_converted(before: ComponentCompilationJob, after: ComponentCompilationJob) -> bool {
    &&& view_animations_converted(before.root, after.root)
    &&& after.views@.len() == before.views@.len()
    &&& forall|i: int|
        0 <= i < before.views@.len() ==> view_animations_converted(before.views@[i], #[trigger] after.views@[i])
    &&& warned(
        after.diagnostics@,
        before.diagnostics@,
        view_missing(before.root) + views_missing(before.views@, before.views@.len() as int),
    )
    &&& after.consts == before.consts
    &&& after.next_xref == before.next_xref
    &&& after.compatibility_mode == before.compatibility_mode
    &&& after.mode == before.mode
    &&& after.enable_debug_locations == before.enable_debug_locations
    &&& after.relative_template_path == before.relative_template_path
    &&& after.template_source == before.template_source
}

/// Whether the host job `after` is `before` with its string animation bindings
/// moved to the end of the creation block.
pub open spec fn host_animations_converted(before: HostBindingCompilationJob, after: HostBindingCompilationJob) -> bool {
    &&& after.root.update@ == without_animations(before.root.update@, false)
    &&& after.root.create@ == before.root.create@ + animation_bindings(before.root.update@, true).map_values(
        |b: UpdateBindingOp| animation_op(b),
    )
    &&& after.diagnostics == before.diagnostics
    &&& host_frame_kept(before, after)
}

/// Takes the animation bindings out of an update list: the value bindings and
/// the string bindings, in order (the value bindings stay when `all` is false).
fn take_animations(update: &mut Vec<UpdateOp>, all: bool) -> (r: (Vec<UpdateBindingOp>, Vec<UpdateBindingOp>))
    ensures
        final(update)@ == without_animations(old(update)@, all),
        r.0@ == (if all { animation_bindings(old(update)@, false) } else { Seq::empty() }),
        r.1@ == animation_bindings(old(update)@, true),
{
    let ghost u = update@;
    let mut taken: Vec<UpdateOp> = Vec::new();
    std::mem::swap(update, &mut taken);
    let mut rev: Vec<UpdateOp> = Vec::new();
    while taken.len() > 0
        invariant
            taken@.len() + rev@.len() == u.len(),
            forall|i: int| 0 <= i < taken@.len() ==> #[trigger] taken@[i] == u[i],
            forall|j: int| 0 <= j < rev@.len() ==> #[trigger] rev@[j] == u[u.len() - 1 - j],
        decreases taken.len(),
    {
        let x = taken.pop().unwrap();
        rev.push(x);
    }
    let mut rest: Vec<UpdateOp> = Vec::new();
    let mut values: Vec<UpdateBindingOp> = Vec::new();
    let mut strings: Vec<UpdateBindingOp> = Vec::new();
    proof {
        assert(u.take(0) =~= Seq::<UpdateOp>::empty());
    }
    while rev.len() > 0
        invariant
            rev@.len() <= u.len(),
            forall|j: int| 0 <= j < rev@.len() ==> #[trigger] rev@[j] == u[u.len() - 1 - j],
            rest@ == without_animations(u.take(u.len() - rev@.len()), all),
            values@ == (if all { animation_bindings(u.take(u.len() - rev@.len()), false) } else { Seq::empty() }),
            strings@ == animation_bindings(u.take(u.len() - rev@.len()), true),
        decreases rev.len(),
    {
        let ghost k = u.len() - rev@.len();
        let op = rev.pop().unwrap();
        proof {
            assert(u.take(k + 1).drop_last() =~= u.take(k));
            assert(u.take(k + 1).last() == op);
        }
        match op {
            UpdateOp::AnimationBinding(b) => {
                let is_string = match b.kind {
                    BindingKind::Attribute => true,
                    _ => false,
                };
                if is_string {
                    strings.push(b);
                } else if all {
                    values.push(b);
                } else {
                    rest.push(UpdateOp::AnimationBinding(b));
                }
            },
            other => {
                rest.push(other);
            },
        }
    }
    proof {
        assert(u.take(u.len() as int) =~= u);
    }
    *update = rest;
    (values, strings)
}

fn is_target_of(op: &CreateOp, x: XrefId) -> (r: bool)
    ensures
        r == is_animation_target(*op, x),
{
    match op {
        CreateOp::ElementStart(e) | CreateOp::Element(e) | CreateOp::ContainerStart(e) | CreateOp::Container(e) =>
            e.xref == x,
        CreateOp::Template(t) => t.xref == x,
        _ => false,
    }
}

fn find_target(create: &Vec<CreateOp>, x: XrefId) -> (r: Option<usize>)
    ensures
        match r {
            Some(k) => find_animation_target(create@, x, 0) == Some(k as int) && k < create@.len(),
            None => find_animation_target(create@, x, 0) is None,
        },
{
    let n = create.len();
    let mut k: usize = 0;
    while k < n
        invariant
            n == create@.len(),
            k <= n,
            find_animation_target(create@, x, 0) == find_animation_target(create@, x, k as int),
        decreases n - k,
    {
        if is_target_of(&create[k], x) {
            return Some(k);
        }
        k = k + 1;
    }
    None
}

fn make_animation_op(b: UpdateBindingOp) -> (r: CreateOp)
    ensures
        r == animation_op(b),
{
    let is_string = match b.kind {
        BindingKind::Attribute => true,
        _ => false,
    };
    let kind = get_animation_kind(&b.name);
    if is_string {
        CreateOp::AnimationString(
            AnimationStringOp { target: b.target, name: b.name, expression: b.expression, animation_kind: kind },
        )
    } else {
        CreateOp::Animation(
            ListenerOp {
                target: b.target,
                target_slot: None,
                name: b.name,
                host_listener: false,
                is_animation_listener: false,
                legacy_animation_phase: None,
                handler_expression: Some(b.expression),
                handler_ops: None,
                animation_kind: Some(kind),
            },
        )
    }
}

/// A target not found in a creation list is not found after animations are
/// placed in it either: animations are not targets.
proof fn lemma_place_keeps_targets(s: Seq<CreateOp>, bs: Seq<UpdateBindingOp>, x: XrefId)
    ensures
        (find_animation_target(place_animations(s, bs), x, 0) is None) == (find_animation_target(s, x, 0) is None),
    decreases bs.len(),
{
    if bs.len() > 0 {
        lemma_place_keeps_targets(s, bs.drop_last(), x);
        let s1 = place_animations(s, bs.drop_last());
        lemma_no_target_iff(s1, x);
        lemma_no_target_iff(place_animation(s1, bs.last()), x);
        let b = bs.last();
        lemma_find_target_range(s1, b.target, 0);
        if exists|i: int| 0 <= i < s1.len() && is_animation_target(s1[i], x) {
            let i = choose|i: int| 0 <= i < s1.len() && is_animation_target(s1[i], x);
            match find_animation_target(s1, b.target, 0) {
                Some(k) => {
                    if i <= k {
                        assert(place_animation(s1, b)[i] == s1[i]);
                    } else {
                        assert(place_animation(s1, b)[i + 1] == s1[i]);
                    }
                },
                None => {
                    assert(place_animation(s1, b)[i] == s1[i]);
                },
            }
        }
        if exists|i: int| 0 <= i < place_animation(s1, b).len() && is_animation_target(place_animation(s1, b)[i], x) {
            let t = place_animation(s1, b);
            let i = choose|i: int| 0 <= i < t.len() && is_animation_target(t[i], x);
            match find_animation_target(s1, b.target, 0) {
                Some(k) => {
                    if i <= k {
                        assert(t[i] == s1[i]);
                    } else if i > k + 1 {
                        assert(t[i] == s1[i - 1]);
                    }
                },
                None => {
                    if i < s1.len() {
                        assert(t[i] == s1[i]);
                    }
                },
            }
        }
    }
}

proof fn lemma_find_target_range(s: Seq<CreateOp>, x: XrefId, k: int)
    ensures
        find_animation_target(s, x, k) matches Some(j) ==> k <= j < s.len() && is_animation_target(s[j], x),
    decreases s.len() - k,
{
    if 0 <= k < s.len() && !is_animation_target(s[k], x) {
        lemma_find_target_range(s, x, k + 1);
    }
}

proof fn lemma_no_target_from(s: Seq<CreateOp>, x: XrefId, k: int)
    requires
        0 <= k,
    ensures
        (find_animation_target(s, x, k) is None) == (forall|i: int| k <= i < s.len() ==> !is_animation_target(
            #[trigger] s[i],
            x,
        )),
    decreases s.len() - k,
{
    if k < s.len() {
        lemma_no_target_from(s, x, k + 1);
    }
}

proof fn lemma_no_target_iff(s: Seq<CreateOp>, x: XrefId)
    ensures
        (find_animation_target(s, x, 0) is None) == !(exists|i: int| 0 <= i < s.len() && is_animation_target(s[i], x)),
{
    lemma_no_target_from(s, x, 0);
}

/// Places the animation operations of `bs` in a creation list, in order,
/// warning about those without target.
fn place_all(
    create: &mut Vec<CreateOp>,
    bs: Vec<UpdateBindingOp>,
    diags: &mut Vec<Diagnostic>,
    Ghost(c0): Ghost<Seq<CreateOp>>,
    Ghost(done): Ghost<Seq<UpdateBindingOp>>,
    Ghost(d0): Ghost<Seq<Diagnostic>>,
)
    requires
        old(create)@ == place_animations(c0, done),
        warned(old(diags)@, d0, missing_targets(c0, done)),
    ensures
        final(create)@ == place_animations(c0, done + bs@),
        warned(final(diags)@, d0, missing_targets(c0, done + bs@)),
{
    let ghost all = done + bs@;
    let mut rev: Vec<UpdateBindingOp> = Vec::new();
    let mut bs = bs;
    let ghost orig = bs@;
    while bs.len() > 0
        invariant
            bs@.len() + rev@.len() == orig.len(),
            forall|i: int| 0 <= i < bs@.len() ==> #[trigger] bs@[i] == orig[i],
            forall|j: int| 0 <= j < rev@.len() ==> #[trigger] rev@[j] == orig[orig.len() - 1 - j],
        decreases bs.len(),
    {
        let x = bs.pop().unwrap();
        rev.push(x);
    }
    proof {
        assert(done + orig.take(0) =~= done);
    }
    while rev.len() > 0
        invariant
            rev@.len() <= orig.len(),
            all == done + orig,
            forall|j: int| 0 <= j < rev@.len() ==> #[trigger] rev@[j] == orig[orig.len() - 1 - j],
            create@ == place_animations(c0, done + orig.take(orig.len() - rev@.len())),
            warned(diags@, d0, missing_targets(c0, done + orig.take(orig.len() - rev@.len()))),
        decreases rev.len(),
    {
        let ghost k = orig.len() - rev@.len();
        let ghost pre = done + orig.take(k);
        let b = rev.pop().unwrap();
        proof {
            assert((done + orig.take(k + 1)).drop_last() =~= pre);
            assert((done + orig.take(k + 1)).last() == b);
            lemma_place_keeps_targets(c0, pre, b.target);
        }
        let ghost m0 = missing_targets(c0, pre);
        let ghost dd = diags@;
        match find_target(create, b.target) {
            Some(pos) => {
                let op = make_animation_op(b);
                assert(pos < create.len());
                create.insert(pos + 1, op);
            },
            None => {
                let name = b.name.clone();
                let op = make_animation_op(b);
                create.push(op);
                diags.push(Diagnostic::AnimationTargetNotFound { name });
                proof {
                    let m1 = missing_targets(c0, done + orig.take(k + 1));
                    assert(m1 == m0.push(b.name@));
                    assert forall|j: int| 0 <= j < m1.len() implies ((#[trigger] diags@[d0.len() + j]) matches Diagnostic::AnimationTargetNotFound {
                        name,
                    } && name@ == m1[j]) by {
                        if j < m0.len() {
                            assert(diags@[d0.len() + j] == dd[d0.len() + j]);
                        }
                    }
                }
            },
        }
    }
    proof {
        assert(orig.take(orig.len() as int) =~= orig);
    }
}

/// Converts the animations of one view.
fn convert_in_view(view: &mut ViewCompilationUnit, diags: &mut Vec<Diagnostic>, Ghost(d0): Ghost<Seq<Diagnostic>>)
    requires
        warned(old(diags)@, d0, Seq::empty()),
    ensures
        view_animations_converted(*old(view), *final(view)),
        warned(final(diags)@, d0, view_missing(*old(view))),
{
    let ghost v0 = *view;
    let (values, strings) = take_animations(&mut view.update, true);
    let ghost vals = values@;
    proof {
        assert(view.create@ == place_animations(v0.create@, Seq::empty()));
        assert(missing_targets(v0.create@, Seq::<UpdateBindingOp>::empty()) == Seq::<Seq<char>>::empty());
        assert(Seq::<UpdateBindingOp>::empty() + vals =~= vals);
    }
    place_all(&mut view.create, values, diags, Ghost(v0.create@), Ghost(Seq::empty()), Ghost(d0));
    place_all(&mut view.create, strings, diags, Ghost(v0.create@), Ghost(vals), Ghost(d0));
}

proof fn lemma_warned_extend(d: Seq<Diagnostic>, d0: Seq<Diagnostic>, m: Seq<Seq<char>>)
    requires
        warned(d, d0, m),
    ensures
        warned(d, d, Seq::empty()),
        forall|d2: Seq<Diagnostic>, m2: Seq<Seq<char>>| #[trigger] warned(d2, d, m2) ==> warned(d2, d0, m + m2),
{
    assert forall|d2: Seq<Diagnostic>, m2: Seq<Seq<char>>| #[trigger] warned(d2, d, m2) implies warned(d2, d0, m + m2) by {
        assert forall|j: int| 0 <= j < (m + m2).len() implies ((#[trigger] d2[d0.len() + j]) matches Diagnostic::AnimationTargetNotFound {
            name,
        } && name@ == (m + m2)[j]) by {
            if j < m.len() {
                assert(d2[d0.len() + j] == d[d0.len() + j]);
            } else {
                assert(d2[d.len() + (j - m.len())] == d2[d0.len() + j]);
            }
        }
        assert forall|k: int| 0 <= k < d0.len() implies #[trigger] d2[k] == d0[k] by {
            assert(d2[k] == d[k]);
        }
    }
}

/// Turns the animation bindings of every view (root first) into animation
/// creation operations placed after their targets, warning about the
/// animations whose target is not in their view.
pub fn convert_animations(job: &mut ComponentCompilationJob)
    ensures
        job_animations_converted(*old(job), *final(job)),
{
    let ghost j0 = *job;
    let ghost vs = j0.views@;
    let ghost d0 = job.diagnostics@;
    convert_in_view(&mut job.root, &mut job.diagnostics, Ghost(d0));
    proof {
        lemma_warned_extend(job.diagnostics@, d0, view_missing(j0.root));
        assert(view_missing(j0.root) + views_missing(vs, 0) =~= view_missing(j0.root));
    }
    let n = job.views.len();
    let mut i: usize = 0;
    while i < n
        invariant
            n == job.views@.len(),
            n == vs.len(),
            vs == j0.views@,
            i <= n,
            d0 == j0.diagnostics@,
            warned(job.diagnostics@, d0, view_missing(j0.root) + views_missing(vs, i as int)),
            view_animations_converted(j0.root, job.root),
            forall|j: int| 0 <= j < i ==> view_animations_converted(vs[j], #[trigger] job.views@[j]),
            forall|j: int| i <= j < n ==> #[trigger] job.views@[j] == vs[j],
            job.consts == j0.consts,
            job.next_xref == j0.next_xref,
            job.compatibility_mode == j0.compatibility_mode,
            job.mode == j0.mode,
            job.enable_debug_locations == j0.enable_debug_locations,
            job.relative_template_path == j0.relative_template_path,
            job.template_source == j0.template_source,
        decreases n - i,
    {
        let ghost dd = job.diagnostics@;
        proof {
            lemma_warned_extend(dd, d0, view_missing(j0.root) + views_missing(vs, i as int));
        }
        convert_in_view(&mut job.views[i], &mut job.diagnostics, Ghost(dd));
        proof {
            assert(view_missing(j0.root) + views_missing(vs, i + 1) =~= (view_missing(j0.root) + views_missing(
                vs,
                i as int,
            )) + view_missing(vs[i as int]));
        }
        i = i + 1;
    }
}

/// Moves the string animation bindings of a host-binding job to the end of its
/// creation block, as animation strings (value bindings stay).
pub fn convert_animations_for_host(job: &mut HostBindingCompilationJob)
    ensures
        host_animations_converted(*old(job), *final(job)),
{
    let ghost c0 = job.root.create@;
    let (_values, strings) = take_animations(&mut job.root.update, false);
    let ghost ss = strings@;
    let mut strings = strings;
    let mut rev: Vec<UpdateBindingOp> = Vec::new();
    while strings.len() > 0
        invariant
            strings@.len() + rev@.len() == ss.len(),
            forall|i: int| 0 <= i < strings@.len() ==> #[trigger] strings@[i] == ss[i],
            forall|j: int| 0 <= j < rev@.len() ==> #[trigger] rev@[j] == ss[ss.len() - 1 - j],
        decreases strings.len(),
    {
        let x = strings.pop().unwrap();
        rev.push(x);
    }
    while rev.len() > 0
        invariant
            rev@.len() <= ss.len(),
            forall|j: int| 0 <= j < rev@.len() ==> #[trigger] rev@[j] == ss[ss.len() - 1 - j],
            job.root.create@ == c0 + ss.take(ss.len() - rev@.len()).map_values(|b: UpdateBindingOp| animation_op(b)),
            job.diagnostics == old(job).diagnostics,
            job.root.update@ == without_animations(old(job).root.update@, false),
            host_frame_kept(*old(job), *job),
            ss == animation_bindings(old(job).root.update@, true),
        decreases rev.len(),
    {
        let ghost k = ss.len() - rev@.len();
        let b = rev.pop().unwrap();
        let op = make_animation_op(b);
        job.root.create.push(op);
        proof {
            assert(ss.take(k + 1) =~= ss.take(k).push(b));
            assert(c0 + ss.take(k + 1).map_values(|b: UpdateBindingOp| animation_op(b)) =~= (c0 + ss.take(k).map_values(
                |b: UpdateBindingOp| animation_op(b),
            )).push(animation_op(b)));
        }
    }
    proof {
        assert(ss.take(ss.len() as int) =~= ss);
    }
}

} // verus!
