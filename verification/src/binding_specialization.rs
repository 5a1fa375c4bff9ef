//! Binding specialization phase.
//!
//! Generic `Binding` update operations become the operation their binding kind
//! calls for: attribute, property, two-way property, control, animation
//! binding or, in host bindings, DOM property. An attribute name may carry a
//! namespace (`:svg:href`, `xlink:href`). An `ngNonBindable` attribute binding
//! is removed and marks its element as non-bindable.

use vstd::prelude::*;
use rustc_hash::FxHashSet;
use crate::fx::{fx_set_contains, fx_set_insert, fx_set_new};
use crate::ir::{host_frame_kept, 
    BindingKind, ComponentCompilationJob, CreateOp, HostBindingCompilationJob, SecurityContext, SlotOp,
    TemplateCompilationMode, UpdateBindingOp, UpdateOp, ViewCompilationUnit,
};
use crate::text::{chars_of, copy_range, str_eq, string_of};

verus! {

/// The first position at or after `k` of the character `c`.
pub open spec fn find_char(s: Seq<char>, c: char, k: int) -> Option<int>
    decreases s.len() - k,
{
    if k < 0 || k >= s.len() {
        None
    } else if s[k] == c {
        Some(k)
    } else {
        find_char(s, c, k + 1)
    }
}

/// The namespace prefixes recognized before a colon.
pub open spec fn is_known_ns_prefix(p: Seq<char>) -> bool {
    p == "xlink"@ || p == "xml"@ || p == "xmlns"@
}

/// The namespace and the local name of an attribute name: `:ns:name` gives
/// (`ns`, `name`); `xlink:name`, `xml:name` and `xmlns:name` give the prefix
/// and the rest; any other name has no namespace.
pub open spec fn split_ns(name: Seq<char>) -> (Option<Seq<char>>, Seq<char>) {
    if name.len() > 0 && name[0] == ':' && find_char(name, ':', 1) is Some {
        let q = find_char(name, ':', 1)->0;
        (Some(name.subrange(1, q)), name.subrange(q + 1, name.len() as int))
    } else if find_char(name, ':', 0) is Some && is_known_ns_prefix(
        name.subrange(0, find_char(name, ':', 0)->0),
    ) {
        let c = find_char(name, ':', 0)->0;
        (Some(name.subrange(0, c)), name.subrange(c + 1, name.len() as int))
    } else {
        (None, name)
    }
}

/// Whether `s` starts with `p`.
pub open spec fn has_prefix(s: Seq<char>, p: Seq<char>) -> bool {
    s.len() >= p.len() && s.subrange(0, p.len() as int) == p
}

/// Whether a name is an ARIA attribute name (`aria-` and more).
pub open spec fn is_aria_attribute(name: Seq<char>) -> bool {
    name.len() > "aria-"@.len() && has_prefix(name, "aria-"@)
}

/// The view of an optional string.
pub open spec fn opt_view(o: Option<String>) -> Option<Seq<char>> {
    match o {
        Some(s) => Some(s@),
        None => None,
    }
}

/// Whether `a` is the binding `b` rebuilt as a specific operation with the
/// given name, namespace, security context, flags and i18n message.
pub open spec fn rebound(
    a: UpdateBindingOp,
    b: UpdateBindingOp,
    name: Seq<char>,
    ns: Option<Seq<char>>,
    sec: SecurityContext,
    text: bool,
    structural: bool,
    msg: Option<u32>,
) -> bool {
    &&& a.target == b.target
    &&& a.kind == b.kind
    &&& a.name@ == name
    &&& opt_view(a.namespace) == ns
    &&& a.unit is None
    &&& a.expression == b.expression
    &&& a.security_context == sec
    &&& a.is_text_attribute == text
    &&& a.is_structural_template_attribute == structural
    &&& a.i18n_message == msg
    &&& a.i18n_context is None
}

/// Whether an operation is an `ngNonBindable` attribute binding.
pub open spec fn is_non_bindable_marker(op: UpdateOp) -> bool {
    op matches UpdateOp::Binding(b) && b.kind == BindingKind::Attribute && b.name@ == "ngNonBindable"@
}

/// Whether `after` is the operation `before` specialized in a template.
pub open spec fn specialized(before: UpdateOp, after: UpdateOp, mode: TemplateCompilationMode) -> bool {
    match before {
        UpdateOp::Binding(b) => {
            let n = b.name@;
            let sec = b.security_context;
            match b.kind {
                BindingKind::Attribute => if has_prefix(n, "animate."@) {
                    &&& after matches UpdateOp::AnimationBinding(a)
                    &&& rebound(after->AnimationBinding_0, b, n, None, SecurityContext::NoContext, false, false, None)
                } else {
                    &&& after matches UpdateOp::Attribute(a)
                    &&& rebound(
                        after->Attribute_0,
                        b,
                        split_ns(n).1,
                        split_ns(n).0,
                        sec,
                        b.is_text_attribute,
                        false,
                        b.i18n_message,
                    )
                },
                BindingKind::Animation => {
                    &&& after matches UpdateOp::AnimationBinding(a)
                    &&& rebound(after->AnimationBinding_0, b, n, None, SecurityContext::NoContext, false, false, None)
                },
                BindingKind::Property | BindingKind::LegacyAnimation => if mode is DomOnly && is_aria_attribute(n) {
                    &&& after matches UpdateOp::Attribute(a)
                    &&& rebound(after->Attribute_0, b, n, None, sec, b.is_text_attribute, false, b.i18n_message)
                } else if n == "field"@ {
                    &&& after matches UpdateOp::Control(a)
                    &&& rebound(after->Control_0, b, n, None, sec, false, false, None)
                } else {
                    &&& after matches UpdateOp::Property(a)
                    &&& rebound(after->Property_0, b, n, None, sec, false, false, b.i18n_message)
                },
                BindingKind::TwoWayProperty => {
                    &&& after matches UpdateOp::TwoWayProperty(a)
                    &&& rebound(after->TwoWayProperty_0, b, n, None, sec, false, false, None)
                },
                BindingKind::Template => if b.is_text_attribute {
                    &&& after matches UpdateOp::Attribute(a)
                    &&& rebound(after->Attribute_0, b, n, None, sec, true, true, b.i18n_message)
                } else {
                    &&& after matches UpdateOp::Property(a)
                    &&& rebound(after->Property_0, b, n, None, sec, false, true, b.i18n_message)
                },
                _ => after == before,
            }
        },
        _ => after == before,
    }
}

/// Whether `after` is the operation `before` specialized in host bindings.
pub open spec fn specialized_host(before: UpdateOp, after: UpdateOp) -> bool {
    match before {
        UpdateOp::Binding(b) => {
            let n = b.name@;
            let sec = b.security_context;
            match b.kind {
                BindingKind::Attribute => if has_prefix(n, "animate."@) {
                    &&& after matches UpdateOp::AnimationBinding(a)
                    &&& rebound(after->AnimationBinding_0, b, n, None, SecurityContext::NoContext, false, false, None)
                } else {
                    &&& after matches UpdateOp::Attribute(a)
                    &&& rebound(
                        after->Attribute_0,
                        b,
                        split_ns(n).1,
                        split_ns(n).0,
                        sec,
                        b.is_text_attribute,
                        false,
                        b.i18n_message,
                    )
                },
                BindingKind::Animation => {
                    &&& after matches UpdateOp::AnimationBinding(a)
                    &&& rebound(after->AnimationBinding_0, b, n, None, SecurityContext::NoContext, false, false, None)
                },
                BindingKind::Property | BindingKind::LegacyAnimation | BindingKind::Template => {
                    &&& after matches UpdateOp::DomProperty(a)
                    &&& rebound(after->DomProperty_0, b, n, None, sec, false, false, None)
                },
                BindingKind::TwoWayProperty => {
                    &&& after matches UpdateOp::TwoWayProperty(a)
                    &&& rebound(after->TwoWayProperty_0, b, n, None, sec, false, false, None)
                },
                _ => after == before,
            }
        },
        _ => after == before,
    }
}

/// The operations of a list other than `ngNonBindable` attribute bindings, in order.
pub open spec fn kept_ops(u: Seq<UpdateOp>) -> Seq<UpdateOp>
    decreases u.len(),
{
    if u.len() == 0 {
        seq![]
    } else {
        let p = kept_ops(u.drop_last());
        if is_non_bindable_marker(u.last()) {
            p
        } else {
            p.push(u.last())
        }
    }
}

/// The elements that the `ngNonBindable` attribute bindings of a list target.
pub open spec fn non_bindable_targets(u: Seq<UpdateOp>) -> Set<u32> {
    Set::new(
        |x: u32|
            exists|i: int| 0 <= i < u.len() && #[trigger] is_non_bindable_marker(u[i]) && u[i]->Binding_0.target.0 == x,
    )
}

/// The non-bindable targets of the views before `i`, over `s`.
pub open spec fn views_non_bindable(vs: Seq<ViewCompilationUnit>, i: int, s: Set<u32>) -> Set<u32>
    decreases i,
{
    if i <= 0 {
        s
    } else {
        views_non_bindable(vs, i - 1, s).union(non_bindable_targets(vs[i - 1].update@))
    }
}

/// The non-bindable targets of a job (every view).
pub open spec fn job_non_bindable(job: ComponentCompilationJob) -> Set<u32> {
    views_non_bindable(job.views@, job.views@.len() as int, non_bindable_targets(job.root.update@))
}

/// An element or container with its non-bindable flag set when its id is in `nb`.
pub open spec fn mark_non_bindable(op: CreateOp, nb: Set<u32>) -> CreateOp {
    match op {
        CreateOp::ElementStart(e) => if nb.contains(e.xref.0) {
            CreateOp::ElementStart(SlotOp { non_bindable: true, ..e })
        } else {
            op
        },
        CreateOp::Element(e) => if nb.contains(e.xref.0) {
            CreateOp::Element(SlotOp { non_bindable: true, ..e })
        } else {
            op
        },
        CreateOp::ContainerStart(e) => if nb.contains(e.xref.0) {
            CreateOp::ContainerStart(SlotOp { non_bindable: true, ..e })
        } else {
            op
        },
        CreateOp::Container(e) => if nb.contains(e.xref.0) {
            CreateOp::Container(SlotOp { non_bindable: true, ..e })
        } else {
            op
        },
        _ => op,
    }
}

/// Whether the update list `after` is `before` with its `ngNonBindable`
/// bindings removed and the other operations specialized.
pub open spec fn update_specialized(before: Seq<UpdateOp>, after: Seq<UpdateOp>, mode: TemplateCompilationMode) -> bool {
    let k = kept_ops(before);
    &&& after.len() == k.len()
    &&& forall|i: int| 0 <= i < k.len() ==> specialized(k[i], #[trigger] after[i], mode)
}

/// Whether the view `after` is `before` with its bindings specialized and the
/// elements of `nb` marked non-bindable.
pub open spec fn view_specialized(
    before: ViewCompilationUnit,
    after: ViewCompilationUnit,
    mode: TemplateCompilationMode,
    nb: Set<u32>,
) -> bool {
    &&& update_specialized(before.update@, after.update@, mode)
    &&& after.create@.len() == before.create@.len()
    &&& forall|i: int| 0 <= i < before.create@.len() ==> #[trigger] after.create@[i] == mark_non_bindable(before.create@[i], nb)
    &&& after.functions == before.functions
    &&& after.xref == before.xref
    &&& after.decl_count == before.decl_count
}

/// Whether the job `after` is `before` with the bindings of every view specialized.
pub open spec fn job_specialized(before: ComponentCompilationJob, after: ComponentCompilationJob) -> bool {
    let nb = job_non_bindable(before);
    &&& view_specialized(before.root, after.root, before.mode, nb)
    &&& after.views@.len() == before.views@.len()
    &&& forall|i: int| 0 <= i < before.views@.len() ==> view_specialized(before.views@[i], #[trigger] after.views@[i], before.mode, nb)
    &&& after.consts == before.consts
    &&& after.diagnostics == before.diagnostics
    &&& after.next_xref == before.next_xref
    &&& after.compatibility_mode == before.compatibility_mode
    &&& after.mode == before.mode
    &&& after.enable_debug_locations == before.enable_debug_locations
    &&& after.relative_template_path == before.relative_template_path
    &&& after.template_source == before.template_source
}

/// Whether the host job `after` is `before` with its bindings specialized.
pub open spec fn host_job_specialized(before: HostBindingCompilationJob, after: HostBindingCompilationJob) -> bool {
    &&& after.root.update@.len() == before.root.update@.len()
    &&& forall|i: int| 0 <= i < before.root.update@.len() ==> specialized_host(before.root.update@[i], #[trigger] after.root.update@[i])
    &&& after.root.create == before.root.create
    &&& after.diagnostics == before.diagnostics
    &&& host_frame_kept(before, after)
}

fn find_char_from(s: &Vec<char>, c: char, k: usize) -> (r: Option<usize>)
    requires
        k <= s@.len(),
    ensures
        match r {
            Some(i) => find_char(s@, c, k as int) == Some(i as int) && k <= i < s@.len(),
            None => find_char(s@, c, k as int) is None,
        },
{
    let mut i: usize = k;
    while i < s.len()
        invariant
            k <= i <= s@.len(),
            find_char(s@, c, k as int) == find_char(s@, c, i as int),
        decreases s.len() - i,
    {
        if s[i] == c {
            return Some(i);
        }
        i = i + 1;
    }
    None
}

fn starts_with(s: &Vec<char>, p: &str) -> (r: bool)
    ensures
        r == has_prefix(s@, p@),
{
    let n = p.unicode_len();
    if s.len() < n {
        return false;
    }
    let mut i: usize = 0;
    while i < n
        invariant
            n == p@.len(),
            n <= s@.len(),
            i <= n,
            forall|j: int| 0 <= j < i ==> s@[j] == p@[j],
        decreases n - i,
    {
        if s[i] != p.get_char(i) {
            assert(s@.subrange(0, n as int)[i as int] != p@[i as int]);
            return false;
        }
        i = i + 1;
    }
    assert(s@.subrange(0, n as int) =~= p@);
    true
}

/// Splits an attribute name into its namespace and local name.
fn split_ns_name(name: &String) -> (r: (Option<String>, String))
    ensures
        opt_view(r.0) == split_ns(name@).0,
        r.1@ == split_ns(name@).1,
{
    let chars = chars_of(name.as_str());
    let n = chars.len();
    if n > 0 && chars[0] == ':' {
        match find_char_from(&chars, ':', 1) {
            Some(q) => {
                let ns = string_of(&copy_range(&chars, 1, q));
                let local = string_of(&copy_range(&chars, q + 1, n));
                return (Some(ns), local);
            },
            None => {},
        }
    }
    match find_char_from(&chars, ':', 0) {
        Some(c) => {
            let prefix = string_of(&copy_range(&chars, 0, c));
            let known = str_eq(prefix.as_str(), "xlink") || str_eq(prefix.as_str(), "xml") || str_eq(
                prefix.as_str(),
                "xmlns",
            );
            if known {
                let local = string_of(&copy_range(&chars, c + 1, n));
                return (Some(prefix), local);
            }
        },
        None => {},
    }
    proof {
        assert(chars@ =~= name@);
    }
    (None, name.clone())
}

/// Rebuilds a binding as a specific operation.
fn rebind(
    b: UpdateBindingOp,
    name: String,
    ns: Option<String>,
    sec: SecurityContext,
    text: bool,
    structural: bool,
    msg: Option<u32>,
) -> (a: UpdateBindingOp)
    ensures
        rebound(a, b, name@, opt_view(ns), sec, text, structural, msg),
{
    UpdateBindingOp {
        target: b.target,
        kind: b.kind,
        name,
        unit: None,
        expression: b.expression,
        security_context: sec,
        is_text_attribute: text,
        is_structural_template_attribute: structural,
        namespace: ns,
        i18n_message: msg,
        i18n_context: None,
    }
}

/// Specializes one operation of a template (not an `ngNonBindable` binding).
fn specialize_op(op: UpdateOp, mode: TemplateCompilationMode) -> (r: UpdateOp)
    ensures
        specialized(op, r, mode),
{
    match op {
        UpdateOp::Binding(b) => {
            let name = b.name.clone();
            let chars = chars_of(name.as_str());
            proof {
                assert(chars@ =~= b.name@);
            }
            let sec = b.security_context;
            let msg = b.i18n_message;
            let text = b.is_text_attribute;
            match b.kind {
                BindingKind::Attribute => {
                    if starts_with(&chars, "animate.") {
                        UpdateOp::AnimationBinding(rebind(b, name, None, SecurityContext::NoContext, false, false, None))
                    } else {
                        let (ns, local) = split_ns_name(&name);
                        UpdateOp::Attribute(rebind(b, local, ns, sec, text, false, msg))
                    }
                },
                BindingKind::Animation => UpdateOp::AnimationBinding(
                    rebind(b, name, None, SecurityContext::NoContext, false, false, None),
                ),
                BindingKind::Property | BindingKind::LegacyAnimation => {
                    let aria = starts_with(&chars, "aria-") && chars.len() > "aria-".unicode_len();
                    let dom_only = match mode {
                        TemplateCompilationMode::DomOnly => true,
                        TemplateCompilationMode::Full => false,
                    };
                    if dom_only && aria {
                        UpdateOp::Attribute(rebind(b, name, None, sec, text, false, msg))
                    } else if str_eq(name.as_str(), "field") {
                        UpdateOp::Control(rebind(b, name, None, sec, false, false, None))
                    } else {
                        UpdateOp::Property(rebind(b, name, None, sec, false, false, msg))
                    }
                },
                BindingKind::TwoWayProperty => UpdateOp::TwoWayProperty(rebind(b, name, None, sec, false, false, None)),
                BindingKind::Template => {
                    if text {
                        UpdateOp::Attribute(rebind(b, name, None, sec, true, true, msg))
                    } else {
                        UpdateOp::Property(rebind(b, name, None, sec, false, true, msg))
                    }
                },
                _ => UpdateOp::Binding(b),
            }
        },
        other => other,
    }
}

/// Specializes one operation of host bindings.
fn specialize_host_op(op: UpdateOp) -> (r: UpdateOp)
    ensures
        specialized_host(op, r),
{
    match op {
        UpdateOp::Binding(b) => {
            let name = b.name.clone();
            let chars = chars_of(name.as_str());
            proof {
                assert(chars@ =~= b.name@);
            }
            let sec = b.security_context;
            let msg = b.i18n_message;
            let text = b.is_text_attribute;
            match b.kind {
                BindingKind::Attribute => {
                    if starts_with(&chars, "animate.") {
                        UpdateOp::AnimationBinding(rebind(b, name, None, SecurityContext::NoContext, false, false, None))
                    } else {
                        let (ns, local) = split_ns_name(&name);
                        UpdateOp::Attribute(rebind(b, local, ns, sec, text, false, msg))
                    }
                },
                BindingKind::Animation => UpdateOp::AnimationBinding(
                    rebind(b, name, None, SecurityContext::NoContext, false, false, None),
                ),
                BindingKind::Property | BindingKind::LegacyAnimation | BindingKind::Template => UpdateOp::DomProperty(
                    rebind(b, name, None, sec, false, false, None),
                ),
                BindingKind::TwoWayProperty => UpdateOp::TwoWayProperty(rebind(b, name, None, sec, false, false, None)),
                _ => UpdateOp::Binding(b),
            }
        },
        other => other,
    }
}

/// Whether an operation is an `ngNonBindable` attribute binding; if so, its target.
fn non_bindable_target(op: &UpdateOp) -> (r: Option<u32>)
    ensures
        r is Some == is_non_bindable_marker(*op),
        r matches Some(x) ==> x == op->Binding_0.target.0,
{
    match op {
        UpdateOp::Binding(b) => {
            let is_attr = match b.kind {
                BindingKind::Attribute => true,
                _ => false,
            };
            if is_attr && str_eq(b.name.as_str(), "ngNonBindable") {
                Some(b.target.0)
            } else {
                None
            }
        },
        _ => None,
    }
}

/// Specializes the update operations of one view, removing the
/// `ngNonBindable` bindings and adding their targets to `nb`.
fn specialize_in_view(update: &mut Vec<UpdateOp>, mode: TemplateCompilationMode, nb: &mut FxHashSet<u32>)
    ensures
        update_specialized(old(update)@, final(update)@, mode),
        final(nb)@ == old(nb)@.union(non_bindable_targets(old(update)@)),
{
    let ghost u = update@;
    let ghost nb0 = nb@;
    let mut taken: Vec<UpdateOp> = Vec::new();
    std::mem::swap(update, &mut taken);
    let mut rev: Vec<UpdateOp> = Vec::new();
    while taken.len() > 0
        invariant
            taken@.len() + rev@.len() == u.len(),
            forall|i: int| 0 <= i < taken@.len() ==> #[trigger] taken@[i] == u[i],
            forall|j: int| 0 <= j < rev@.len() ==> #[trigger] rev@[j] == u[u.len() - 1 - j],
        decreases taken.len(),
    {
        let x = taken.pop().unwrap();
        rev.push(x);
    }
    let mut out: Vec<UpdateOp> = Vec::new();
    proof {
        assert(u.take(0) =~= Seq::<UpdateOp>::empty());
        assert(nb@ =~= nb0.union(non_bindable_targets(u.take(0))));
    }
    while rev.len() > 0
        invariant
            rev@.len() <= u.len(),
            forall|j: int| 0 <= j < rev@.len() ==> #[trigger] rev@[j] == u[u.len() - 1 - j],
            update_specialized(u.take(u.len() - rev@.len()), out@, mode),
            nb@ == nb0.union(non_bindable_targets(u.take(u.len() - rev@.len()))),
        decreases rev.len(),
    {
        let ghost k = u.len() - rev@.len();
        let op = rev.pop().unwrap();
        let ghost t = u.take(k);
        let ghost t1 = u.take(k + 1);
        proof {
            assert(t1.drop_last() =~= t);
            assert(t1.last() == op);
        }
        match non_bindable_target(&op) {
            Some(x) => {
                fx_set_insert(nb, x);
            },
            None => {
                let r = specialize_op(op, mode);
                out.push(r);
            },
        }
        proof {
            assert forall|x: u32| #[trigger] nb@.contains(x) == nb0.union(non_bindable_targets(t1)).contains(x) by {
                if non_bindable_targets(t1).contains(x) {
                    let i = choose|i: int| 0 <= i < t1.len() && #[trigger] is_non_bindable_marker(t1[i]) && t1[i]->Binding_0.target.0 == x;
                    if i < k {
                        assert(t[i] == t1[i]);
                        assert(non_bindable_targets(t).contains(x));
                    }
                }
                if non_bindable_targets(t).contains(x) {
                    let i = choose|i: int| 0 <= i < t.len() && #[trigger] is_non_bindable_marker(t[i]) && t[i]->Binding_0.target.0 == x;
                    assert(t1[i] == t[i]);
                    assert(non_bindable_targets(t1).contains(x));
                }
                if is_non_bindable_marker(op) && x == op->Binding_0.target.0 {
                    assert(t1[k] == op);
                    assert(non_bindable_targets(t1).contains(x));
                }
            }
            assert(nb@ =~= nb0.union(non_bindable_targets(t1)));
        }
    }
    proof {
        assert(u.take(u.len() as int) =~= u);
    }
    *update = out;
}

/// Marks the elements and containers of `nb` as non-bindable.
fn set_non_bindable_flags(create: &mut Vec<CreateOp>, nb: &FxHashSet<u32>)
    ensures
        final(create)@.len() == old(create)@.len(),
        forall|i: int| 0 <= i < old(create)@.len() ==> #[trigger] final(create)@[i] == mark_non_bindable(old(create)@[i], nb@),
{
    let ghost c = create@;
    let n = create.len();
    let mut i: usize = 0;
    while i < n
        invariant
            n == c.len(),
            create@.len() == n,
            i <= n,
            forall|j: int| 0 <= j < i ==> #[trigger] create@[j] == mark_non_bindable(c[j], nb@),
            forall|j: int| i <= j < n ==> #[trigger] create@[j] == c[j],
        decreases n - i,
    {
        match &mut create[i] {
            CreateOp::ElementStart(e) => {
                if fx_set_contains(nb, e.xref.0) {
                    e.non_bindable = true;
                }
            },
            CreateOp::Element(e) => {
                if fx_set_contains(nb, e.xref.0) {
                    e.non_bindable = true;
                }
            },
            CreateOp::ContainerStart(e) => {
                if fx_set_contains(nb, e.xref.0) {
                    e.non_bindable = true;
                }
            },
            CreateOp::Container(e) => {
                if fx_set_contains(nb, e.xref.0) {
                    e.non_bindable = true;
                }
            },
            _ => {},
        }
        i = i + 1;
    }
}

/// Specializes the generic bindings of every view (root first), removes the
/// `ngNonBindable` attribute bindings and marks their elements non-bindable.
pub fn specialize_bindings(job: &mut ComponentCompilationJob)
    ensures
        job_specialized(*old(job), *final(job)),
{
    let ghost j0 = *job;
    let ghost vs = j0.views@;
    let mode = job.mode;
    let mut nb: FxHashSet<u32> = fx_set_new();
    specialize_in_view(&mut job.root.update, mode, &mut nb);
    proof {
        assert(nb@ =~= non_bindable_targets(j0.root.update@));
    }
    let n = job.views.len();
    let mut i: usize = 0;
    while i < n
        invariant
            n == job.views@.len(),
            n == vs.len(),
            vs == j0.views@,
            i <= n,
            mode == j0.mode,
            nb@ == views_non_bindable(vs, i as int, non_bindable_targets(j0.root.update@)),
            update_specialized(j0.root.update@, job.root.update@, mode),
            job.root.create == j0.root.create,
            job.root.functions == j0.root.functions,
            job.root.xref == j0.root.xref,
            job.root.decl_count == j0.root.decl_count,
            forall|j: int| 0 <= j < i ==> update_specialized(vs[j].update@, #[trigger] job.views@[j].update@, mode),
            forall|j: int|
                0 <= j < i ==> {
                    &&& (#[trigger] job.views@[j]).create == vs[j].create
                    &&& job.views@[j].functions == vs[j].functions
                    &&& job.views@[j].xref == vs[j].xref
                    &&& job.views@[j].decl_count == vs[j].decl_count
                },
            forall|j: int| i <= j < n ==> #[trigger] job.views@[j] == vs[j],
            job.consts == j0.consts,
            job.diagnostics == j0.diagnostics,
            job.next_xref == j0.next_xref,
            job.compatibility_mode == j0.compatibility_mode,
            job.mode == j0.mode,
            job.enable_debug_locations == j0.enable_debug_locations,
            job.relative_template_path == j0.relative_template_path,
            job.template_source == j0.template_source,
        decreases n - i,
    {
        specialize_in_view(&mut job.views[i].update, mode, &mut nb);
        i = i + 1;
    }
    set_non_bindable_flags(&mut job.root.create, &nb);
    let mut i: usize = 0;
    while i < n
        invariant
            n == job.views@.len(),
            n == vs.len(),
            vs == j0.views@,
            i <= n,
            nb@ == job_non_bindable(j0),
            view_specialized(j0.root, job.root, j0.mode, nb@),
            forall|j: int| 0 <= j < i ==> view_specialized(vs[j], #[trigger] job.views@[j], j0.mode, nb@),
            forall|j: int| i <= j < n ==> update_specialized(vs[j].update@, #[trigger] job.views@[j].update@, j0.mode),
            forall|j: int|
                i <= j < n ==> {
                    &&& (#[trigger] job.views@[j]).create == vs[j].create
                    &&& job.views@[j].functions == vs[j].functions
                    &&& job.views@[j].xref == vs[j].xref
                    &&& job.views@[j].decl_count == vs[j].decl_count
                },
            job.consts == j0.consts,
            job.diagnostics == j0.diagnostics,
            job.next_xref == j0.next_xref,
            job.compatibility_mode == j0.compatibility_mode,
            job.mode == j0.mode,
            job.enable_debug_locations == j0.enable_debug_locations,
            job.relative_template_path == j0.relative_template_path,
            job.template_source == j0.template_source,
        decreases n - i,
    {
        set_non_bindable_flags(&mut job.views[i].create, &nb);
        i = i + 1;
    }
}

/// Specializes the generic bindings of a host-binding job (attribute, DOM
/// property, two-way property or animation binding; no `ngNonBindable`).
pub fn specialize_bindings_for_host(job: &mut HostBindingCompilationJob)
    ensures
        host_job_specialized(*old(job), *final(job)),
{
    let ghost u = job.root.update@;
    let n = job.root.update.len();
    let mut i: usize = 0;
    while i < n
        invariant
            n == u.len(),
            job.root.update@.len() == n,
            i <= n,
            forall|j: int| 0 <= j < i ==> specialized_host(u[j], #[trigger] job.root.update@[j]),
            forall|j: int| i <= j < n ==> #[trigger] job.root.update@[j] == u[j],
            job.root.create == old(job).root.create,
            job.diagnostics == old(job).diagnostics,
            host_frame_kept(*old(job), *job),
        decreases n - i,
    {
        let mut op = UpdateOp::ListEnd;
        std::mem::swap(&mut op, &mut job.root.update[i]);
        let r = specialize_host_op(op);
        job.root.update.set(i, r);
        i = i + 1;
    }
}

} // verus!
