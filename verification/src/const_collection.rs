//! Element const collection phase.
//!
//! The extracted attributes of every element are gathered by their target and
//! removed from the creation lists; each element's attributes are grouped by
//! kind (static attributes, classes, styles, property bindings, template
//! bindings, i18n attributes) and serialized into an array of marker numbers
//! and strings. Elements, containers and templates with attributes get the
//! constant-pool index of their array (added in the order the elements are
//! met, each element once); a projection gets its array directly, and a host
//! binding gets the array of its host element.
//!
//! A duplicate static attribute, class or style of an element is kept only in
//! the older template compiler's compatibility mode; other duplicates (same
//! kind and name) are dropped.

use vstd::prelude::*;
use crate::ir::{
    AngularExpression, BindingKind, CompatibilityMode, ComponentCompilationJob, ConstValue, CreateOp, Diagnostic,
    ExtractedAttributeOp, HostBindingCompilationJob, IrExpression, LiteralValue, OutputExpression, ProjectionOp,
    SlotOp, TemplateOp, UpdateOp, ViewCompilationUnit, XrefId,
};
use crate::propagate_i18n_blocks::{view_creates, view_xrefs};
use crate::text::str_eq;
use crate::fx::{fx_map_get, fx_map_insert, fx_map_new, fx_set_contains, fx_set_insert, fx_set_new};
use rustc_hash::{FxHashMap, FxHashSet};

verus! {

/// The value of a static attribute.
pub enum AttrValue {
    /// A string.
    Text(String),
    /// The empty string (of an attribute tested for truth).
    Empty,
    /// A reference to an i18n variable.
    Var(String),
}

/// A static attribute: its namespace, name and value.
pub struct StaticAttr {
    pub namespace: Option<String>,
    pub name: String,
    pub value: Option<AttrValue>,
}

/// The attributes of one element, grouped by kind, with the (kind, name)
/// pairs already met.
pub struct AttrGroups {
    pub known: Seq<(BindingKind, String)>,
    pub attributes: Seq<StaticAttr>,
    pub classes: Seq<String>,
    pub styles: Seq<(String, Option<AttrValue>)>,
    pub bindings: Seq<String>,
    pub template: Seq<String>,
    pub i18n: Seq<String>,
}

/// No attributes.
pub open spec fn no_groups() -> AttrGroups {
    AttrGroups {
        known: seq![],
        attributes: seq![],
        classes: seq![],
        styles: seq![],
        bindings: seq![],
        template: seq![],
        i18n: seq![],
    }
}

/// Whether the groups hold no attribute at all.
pub open spec fn groups_empty(g: AttrGroups) -> bool {
    &&& g.attributes.len() == 0
    &&& g.classes.len() == 0
    &&& g.styles.len() == 0
    &&& g.bindings.len() == 0
    &&& g.template.len() == 0
    &&& g.i18n.len() == 0
}

/// Whether the pair (`kind`, `name`) was met already.
pub open spec fn is_known(known: Seq<(BindingKind, String)>, kind: BindingKind, name: Seq<char>) -> bool {
    exists|i: int| 0 <= i < known.len() && (#[trigger] known[i]).0 == kind && known[i].1@ == name
}

/// The value of an attribute tested for truth: the empty string.
pub open spec fn truthy_value(a: ExtractedAttributeOp) -> Option<AttrValue> {
    if a.truthy_expression {
        Some(AttrValue::Empty)
    } else {
        None
    }
}

/// The value of an extracted attribute: a string literal, or a reference to
/// an i18n variable; else the empty string when it is tested for truth.
pub open spec fn attr_value(a: ExtractedAttributeOp) -> Option<AttrValue> {
    match a.value {
        Some(IrExpression::OutputExpr(o)) => match *o {
            OutputExpression::Literal(LiteralValue::String(s)) => Some(AttrValue::Text(s)),
            OutputExpression::ReadVar(n) => Some(AttrValue::Var(n)),
            _ => truthy_value(a),
        },
        Some(IrExpression::Ast(x)) => match *x {
            AngularExpression::LiteralPrimitive(LiteralValue::String(s)) => Some(AttrValue::Text(s)),
            _ => truthy_value(a),
        },
        _ => truthy_value(a),
    }
}

/// The value of a style: a string, never a variable reference.
pub open spec fn style_value(v: Option<AttrValue>) -> Option<AttrValue> {
    match v {
        Some(AttrValue::Var(_)) => None,
        _ => v,
    }
}

/// Whether duplicates of an attribute of this kind are kept.
pub open spec fn allows_duplicates(kind: BindingKind, compat: CompatibilityMode) -> bool {
    compat == CompatibilityMode::TemplateDefinitionBuilder && (kind == BindingKind::Attribute || kind
        == BindingKind::ClassName || kind == BindingKind::StyleProperty)
}

/// The groups with the extracted attribute `a` added; for a host binding
/// (`host`), property bindings are left out.
pub open spec fn add_attr(g: AttrGroups, a: ExtractedAttributeOp, compat: CompatibilityMode, host: bool) -> AttrGroups {
    let kind = a.binding_kind;
    let allow = allows_duplicates(kind, compat);
    if !allow && is_known(g.known, kind, a.name@) {
        g
    } else {
        let g1 = if allow {
            g
        } else {
            AttrGroups { known: g.known.push((kind, a.name)), ..g }
        };
        match kind {
            BindingKind::Attribute => AttrGroups {
                attributes: g1.attributes.push(StaticAttr { namespace: a.namespace, name: a.name, value: attr_value(a) }),
                ..g1
            },
            BindingKind::ClassName => AttrGroups { classes: g1.classes.push(a.name), ..g1 },
            BindingKind::StyleProperty => AttrGroups {
                styles: g1.styles.push((a.name, style_value(attr_value(a)))),
                ..g1
            },
            BindingKind::Property | BindingKind::TwoWayProperty => if host {
                g1
            } else {
                AttrGroups { bindings: g1.bindings.push(a.name), ..g1 }
            },
            BindingKind::Template => AttrGroups { template: g1.template.push(a.name), ..g1 },
            BindingKind::I18n => AttrGroups { i18n: g1.i18n.push(a.name), ..g1 },
            _ => g1,
        }
    }
}

/// An entry of a serialized attribute array.
pub enum Entry {
    Marker(i64),
    Text(String),
    Empty,
    Var(String),
}

/// The entry of a value.
pub open spec fn value_entries(v: Option<AttrValue>) -> Seq<Entry> {
    match v {
        Some(AttrValue::Text(s)) => seq![Entry::Text(s)],
        Some(AttrValue::Empty) => seq![Entry::Empty],
        Some(AttrValue::Var(n)) => seq![Entry::Var(n)],
        None => seq![],
    }
}

/// The entries of static attributes: for each, the namespace marker (0) and
/// the namespace when it has one, its name, and its value when it has one.
pub open spec fn static_entries(s: Seq<StaticAttr>) -> Seq<Entry>
    decreases s.len(),
{
    if s.len() == 0 {
        seq![]
    } else {
        let a = s.last();
        static_entries(s.drop_last()) + match a.namespace {
            Some(ns) => seq![Entry::Marker(0), Entry::Text(ns)],
            None => seq![],
        } + seq![Entry::Text(a.name)] + value_entries(a.value)
    }
}

/// The entries of styles: for each, its name, then its value when it has one.
pub open spec fn style_entries(s: Seq<(String, Option<AttrValue>)>) -> Seq<Entry>
    decreases s.len(),
{
    if s.len() == 0 {
        seq![]
    } else {
        style_entries(s.drop_last()) + seq![Entry::Text(s.last().0)] + value_entries(s.last().1)
    }
}

/// A marked section: nothing when `names` is empty, else the marker and the names.
pub open spec fn marked(marker: i64, names: Seq<String>) -> Seq<Entry> {
    if names.len() == 0 {
        seq![]
    } else {
        seq![Entry::Marker(marker)] + names.map_values(|n: String| Entry::Text(n))
    }
}

/// The serialized attribute array of an element: its static attributes, then
/// the classes (marker 1), the styles (marker 2), the property bindings
/// (marker 3), the template bindings (marker 4) and the i18n attributes
/// (marker 6), each marked section only when it is not empty.
pub open spec fn group_entries(g: AttrGroups) -> Seq<Entry> {
    static_entries(g.attributes) + marked(1, g.classes) + (if g.styles.len() == 0 {
        seq![]
    } else {
        seq![Entry::Marker(2)] + style_entries(g.styles)
    }) + marked(3, g.bindings) + marked(4, g.template) + marked(6, g.i18n)
}

/// Whether the constant `c` holds the entry `e`.
pub open spec fn const_entry(c: ConstValue, e: Entry) -> bool {
    match e {
        Entry::Marker(n) => c == ConstValue::Number(n),
        Entry::Text(s) => c == ConstValue::String(s),
        Entry::Empty => c matches ConstValue::String(t) && t@.len() == 0,
        Entry::Var(v) => c == ConstValue::Expression(IrExpression::OutputExpr(Box::new(OutputExpression::ReadVar(v)))),
    }
}

/// Whether the output expression `o` holds the entry `e`.
pub open spec fn output_entry(o: OutputExpression, e: Entry) -> bool {
    match e {
        Entry::Marker(n) => o == OutputExpression::Literal(LiteralValue::Number(n)),
        Entry::Text(s) => o == OutputExpression::Literal(LiteralValue::String(s)),
        Entry::Empty => o matches OutputExpression::Literal(LiteralValue::String(t)) && t@.len() == 0,
        Entry::Var(v) => o == OutputExpression::ReadVar(v),
    }
}

/// Whether the constant `c` is the array of the entries `es`.
pub open spec fn const_array(c: ConstValue, es: Seq<Entry>) -> bool {
    &&& c matches ConstValue::Array(v)
    &&& v@.len() == es.len()
    &&& forall|i: int| 0 <= i < es.len() ==> const_entry((#[trigger] v@[i]), es[i])
}

/// Whether the output expression `o` is the literal array of the entries `es`.
pub open spec fn output_array(o: OutputExpression, es: Seq<Entry>) -> bool {
    &&& o matches OutputExpression::LiteralArray(v)
    &&& v@.len() == es.len()
    &&& forall|i: int| 0 <= i < es.len() ==> output_entry((#[trigger] v@[i]), es[i])
}

/// The extracted attributes of the creation list `c`, in order.
pub open spec fn extracted(c: Seq<CreateOp>) -> Seq<ExtractedAttributeOp>
    decreases c.len(),
{
    if c.len() == 0 {
        seq![]
    } else {
        extracted(c.drop_last()) + match c.last() {
            CreateOp::ExtractedAttribute(a) => seq![a],
            _ => seq![],
        }
    }
}

/// The creation list `c` without its extracted attributes.
pub open spec fn strip(c: Seq<CreateOp>) -> Seq<CreateOp>
    decreases c.len(),
{
    if c.len() == 0 {
        seq![]
    } else {
        strip(c.drop_last()) + match c.last() {
            CreateOp::ExtractedAttribute(_) => seq![],
            op => seq![op],
        }
    }
}

/// The extracted attributes of the first `k` creation lists, in order.
pub open spec fn all_extracted(cs: Seq<Seq<CreateOp>>, k: int) -> Seq<ExtractedAttributeOp>
    decreases k,
{
    if k <= 0 {
        seq![]
    } else {
        all_extracted(cs, k - 1) + extracted(cs[k - 1])
    }
}

/// The attribute groups of every target, after the extracted attributes `ops`.
pub open spec fn gather(ops: Seq<ExtractedAttributeOp>, compat: CompatibilityMode) -> Map<u32, AttrGroups>
    decreases ops.len(),
{
    if ops.len() == 0 {
        Map::empty()
    } else {
        let m = gather(ops.drop_last(), compat);
        let a = ops.last();
        let t = a.target.0;
        m.insert(t, add_attr(if m.contains_key(t) { m[t] } else { no_groups() }, a, compat, false))
    }
}

/// Whether the element `x` has attributes.
pub open spec fn has_attrs(m: Map<u32, AttrGroups>, x: XrefId) -> bool {
    m.contains_key(x.0) && !groups_empty(m[x.0])
}

/// An element that takes the serialized array of its attributes.
#[derive(Clone, Copy)]
pub enum Item {
    /// A projection, which holds its array itself.
    Projection(XrefId),
    /// An element, container or template.
    Regular(XrefId),
    /// The body view of a repeater.
    RepeaterBody(XrefId),
    /// The empty view of a repeater.
    RepeaterEmpty(XrefId),
}

/// The element `x` as an item made by `mk`, when it has attributes and was not met yet.
pub open spec fn first_item(x: XrefId, item: Item, m: Map<u32, AttrGroups>, seen: Set<u32>) -> (Seq<Item>, Set<u32>) {
    if !seen.contains(x.0) && has_attrs(m, x) {
        (seq![item], seen.insert(x.0))
    } else {
        (seq![], seen)
    }
}

/// The items of the operation `op`, with `seen` the elements met before.
pub open spec fn op_items(op: CreateOp, m: Map<u32, AttrGroups>, seen: Set<u32>) -> (Seq<Item>, Set<u32>) {
    match op {
        CreateOp::Projection(p) => if has_attrs(m, p.xref) {
            (seq![Item::Projection(p.xref)], seen)
        } else {
            (seq![], seen)
        },
        CreateOp::ElementStart(e) => first_item(e.xref, Item::Regular(e.xref), m, seen),
        CreateOp::Element(e) => first_item(e.xref, Item::Regular(e.xref), m, seen),
        CreateOp::ContainerStart(e) => first_item(e.xref, Item::Regular(e.xref), m, seen),
        CreateOp::Container(e) => first_item(e.xref, Item::Regular(e.xref), m, seen),
        CreateOp::Template(t) => first_item(t.xref, Item::Regular(t.xref), m, seen),
        CreateOp::Conditional(t) => first_item(t.xref, Item::Regular(t.xref), m, seen),
        CreateOp::ConditionalBranch(t) => first_item(t.xref, Item::Regular(t.xref), m, seen),
        CreateOp::RepeaterCreate(t) => {
            let (a, s1) = first_item(t.embedded_view, Item::RepeaterBody(t.embedded_view), m, seen);
            match t.empty_view {
                Some(ev) => {
                    let (b, s2) = first_item(ev, Item::RepeaterEmpty(ev), m, s1);
                    (a + b, s2)
                },
                None => (a, s1),
            }
        },
        _ => (seq![], seen),
    }
}

/// The items of the first `k` operations of `c`.
pub open spec fn view_items(c: Seq<CreateOp>, k: int, m: Map<u32, AttrGroups>, seen: Set<u32>) -> (Seq<Item>, Set<u32>)
    decreases k,
{
    if k <= 0 {
        (seq![], seen)
    } else {
        let (a, s1) = view_items(c, k - 1, m, seen);
        let (b, s2) = op_items(c[k - 1], m, s1);
        (a + b, s2)
    }
}

/// The items of the first `k` creation lists.
pub open spec fn job_items(cs: Seq<Seq<CreateOp>>, k: int, m: Map<u32, AttrGroups>) -> (Seq<Item>, Set<u32>)
    decreases k,
{
    if k <= 0 {
        (seq![], Set::empty())
    } else {
        let (a, s1) = job_items(cs, k - 1, m);
        let (b, s2) = view_items(cs[k - 1], cs[k - 1].len() as int, m, s1);
        (a + b, s2)
    }
}

/// The constant-pool indices of the items that are no projections, added from
/// index `c0` on in the order of the items (each element once), and the
/// elements in that order.
pub open spec fn const_pass(items: Seq<Item>, m: Map<u32, AttrGroups>, c0: nat) -> (Map<u32, u32>, Seq<XrefId>)
    decreases items.len(),
{
    if items.len() == 0 {
        (Map::empty(), seq![])
    } else {
        let (idx, xs) = const_pass(items.drop_last(), m, c0);
        let x = match items.last() {
            Item::Projection(x) => x,
            Item::Regular(x) => x,
            Item::RepeaterBody(x) => x,
            Item::RepeaterEmpty(x) => x,
        };
        if items.last() is Projection || idx.contains_key(x.0) || !has_attrs(m, x) {
            (idx, xs)
        } else {
            (idx.insert(x.0, (c0 + xs.len()) as u32), xs.push(x))
        }
    }
}

/// The index `x` has in `idx`, else `d`.
pub open spec fn lookup_index(idx: Map<u32, u32>, x: XrefId, d: Option<u32>) -> Option<u32> {
    if idx.contains_key(x.0) {
        Some(idx[x.0])
    } else {
        d
    }
}

/// Whether `new` is the operation `op` once it took its attributes: an
/// element, container or template its constant index (a repeater those of its
/// body and empty views); a projection its array, when it is the first
/// projection of its element (`first`).
pub open spec fn applied(op: CreateOp, new: CreateOp, idx: Map<u32, u32>, m: Map<u32, AttrGroups>, first: bool) -> bool {
    match op {
        CreateOp::ElementStart(e) => new == CreateOp::ElementStart(SlotOp { attributes: lookup_index(idx, e.xref, e.attributes), ..e }),
        CreateOp::Element(e) => new == CreateOp::Element(SlotOp { attributes: lookup_index(idx, e.xref, e.attributes), ..e }),
        CreateOp::ContainerStart(e) => new == CreateOp::ContainerStart(
            SlotOp { attributes: lookup_index(idx, e.xref, e.attributes), ..e },
        ),
        CreateOp::Container(e) => new == CreateOp::Container(SlotOp { attributes: lookup_index(idx, e.xref, e.attributes), ..e }),
        CreateOp::Template(t) => new == CreateOp::Template(TemplateOp { attributes: lookup_index(idx, t.xref, t.attributes), ..t }),
        CreateOp::Conditional(t) => new == CreateOp::Conditional(
            TemplateOp { attributes: lookup_index(idx, t.xref, t.attributes), ..t },
        ),
        CreateOp::ConditionalBranch(t) => new == CreateOp::ConditionalBranch(
            TemplateOp { attributes: lookup_index(idx, t.xref, t.attributes), ..t },
        ),
        CreateOp::RepeaterCreate(t) => new == CreateOp::RepeaterCreate(
            TemplateOp {
                attributes: lookup_index(idx, t.embedded_view, t.attributes),
                empty_attributes: match t.empty_view {
                    Some(ev) => lookup_index(idx, ev, t.empty_attributes),
                    None => t.empty_attributes,
                },
                ..t
            },
        ),
        CreateOp::Projection(p) => if first && has_attrs(m, p.xref) {
            &&& new matches CreateOp::Projection(q)
            &&& q.xref == p.xref
            &&& q.slot == p.slot
            &&& q.fallback == p.fallback
            &&& q.fallback_has_i18n_placeholder == p.fallback_has_i18n_placeholder
            &&& q.attributes matches Some(o)
            &&& output_array(o, group_entries(m[p.xref.0]))
        } else {
            new == op
        },
        _ => new == op,
    }
}

/// Whether no projection of the element `x` stands before position `i` of the
/// creation list at `p`, the lists walked in order.
pub open spec fn first_projection(cs: Seq<Seq<CreateOp>>, p: int, i: int, x: XrefId) -> bool {
    forall|q: int, j: int|
        #![trigger cs[q][j]]
        0 <= q <= p && 0 <= j < cs[q].len() && (q < p || j < i) ==> !(cs[q][j] matches CreateOp::Projection(o) && o.xref
            == x)
}

/// The groups of a job: those of its extracted attributes, all views walked in order.
pub open spec fn job_groups(job: ComponentCompilationJob) -> Map<u32, AttrGroups> {
    gather(all_extracted(view_creates(job), job.views@.len() + 1int), job.compatibility_mode)
}

/// The creation lists of a job without their extracted attributes.
pub open spec fn stripped(job: ComponentCompilationJob) -> Seq<Seq<CreateOp>> {
    view_creates(job).map_values(|c: Seq<CreateOp>| strip(c))
}

/// The constant-pool indices of the elements of a job, and the elements in order.
pub open spec fn job_const_pass(job: ComponentCompilationJob) -> (Map<u32, u32>, Seq<XrefId>) {
    let m = job_groups(job);
    const_pass(job_items(stripped(job), job.views@.len() + 1int, m).0, m, job.consts@.len())
}

/// Whether the job `after` is `before` with its element consts collected.
pub open spec fn job_consts_collected(before: ComponentCompilationJob, after: ComponentCompilationJob) -> bool {
    let m = job_groups(before);
    let cs = stripped(before);
    let (idx, xs) = job_const_pass(before);
    let c0 = before.consts@.len();
    &&& view_creates(after).len() == cs.len()
    &&& forall|p: int|
        0 <= p < cs.len() ==> (#[trigger] view_creates(after)[p]).len() == cs[p].len() && forall|i: int|
            0 <= i < cs[p].len() ==> applied(
                cs[p][i],
                #[trigger] view_creates(after)[p][i],
                idx,
                m,
                first_projection(cs, p, i, cs[p][i]->Projection_0.xref),
            )
    &&& after.consts@.len() == c0 + xs.len()
    &&& forall|j: int| 0 <= j < c0 ==> #[trigger] after.consts@[j] == before.consts@[j]
    &&& forall|j: int| 0 <= j < xs.len() ==> const_array(#[trigger] after.consts@[c0 + j], group_entries(m[xs[j].0]))
    &&& view_xrefs(after) == view_xrefs(before)
    &&& after.root.update == before.root.update
    &&& after.root.functions == before.root.functions
    &&& after.root.decl_count == before.root.decl_count
    &&& after.views@.len() == before.views@.len()
    &&& forall|i: int|
        0 <= i < before.views@.len() ==> {
            &&& (#[trigger] after.views@[i]).update == before.views@[i].update
            &&& after.views@[i].functions == before.views@[i].functions
            &&& after.views@[i].decl_count == before.views@[i].decl_count
        }
    &&& after.diagnostics == before.diagnostics
    &&& after.next_xref == before.next_xref
    &&& after.compatibility_mode == before.compatibility_mode
    &&& after.mode == before.mode
    &&& after.enable_debug_locations == before.enable_debug_locations
    &&& after.relative_template_path == before.relative_template_path
    &&& after.template_source == before.template_source
}

/// The attributes of one element, grouped by kind, as the phase gathers them.
pub struct ElementAttributes {
    pub known: Vec<(BindingKind, String)>,
    pub attributes: Vec<StaticAttr>,
    pub classes: Vec<String>,
    pub styles: Vec<(String, Option<AttrValue>)>,
    pub bindings: Vec<String>,
    pub template: Vec<String>,
    pub i18n: Vec<String>,
}

impl ElementAttributes {
    /// The groups these attributes hold.
    pub open spec fn groups(&self) -> AttrGroups {
        AttrGroups {
            known: self.known@,
            attributes: self.attributes@,
            classes: self.classes@,
            styles: self.styles@,
            bindings: self.bindings@,
            template: self.template@,
            i18n: self.i18n@,
        }
    }

    /// No attributes yet.
    pub fn new() -> (r: Self)
        ensures
            r.groups() == no_groups(),
    {
        ElementAttributes {
            known: Vec::new(),
            attributes: Vec::new(),
            classes: Vec::new(),
            styles: Vec::new(),
            bindings: Vec::new(),
            template: Vec::new(),
            i18n: Vec::new(),
        }
    }

    /// Whether no attribute was added.
    pub fn is_empty(&self) -> (r: bool)
        ensures
            r == groups_empty(self.groups()),
    {
        self.attributes.len() == 0 && self.classes.len() == 0 && self.styles.len() == 0 && self.bindings.len() == 0
            && self.template.len() == 0 && self.i18n.len() == 0
    }

    /// Whether the pair (`kind`, `name`) was met; marks it met.
    fn check_known(&mut self, kind: BindingKind, name: &String) -> (r: bool)
        ensures
            r == is_known(old(self).known@, kind, name@),
            final(self).known@ == if r {
                old(self).known@
            } else {
                old(self).known@.push((kind, *name))
            },
            final(self).attributes == old(self).attributes,
            final(self).classes == old(self).classes,
            final(self).styles == old(self).styles,
            final(self).bindings == old(self).bindings,
            final(self).template == old(self).template,
            final(self).i18n == old(self).i18n,
    {
        let mut i: usize = 0;
        while i < self.known.len()
            invariant
                i <= self.known@.len(),
                self.known@ == old(self).known@,
                forall|j: int| 0 <= j < i ==> !((#[trigger] self.known@[j]).0 == kind && self.known@[j].1@ == name@),
                self.attributes == old(self).attributes,
                self.classes == old(self).classes,
                self.styles == old(self).styles,
                self.bindings == old(self).bindings,
                self.template == old(self).template,
                self.i18n == old(self).i18n,
            decreases self.known@.len() - i,
        {
            if self.known[i].0 == kind && str_eq(self.known[i].1.as_str(), name.as_str()) {
                return true;
            }
            i = i + 1;
        }
        self.known.push((kind, name.clone()));
        false
    }

    /// Adds the extracted attribute `a`; for a host binding (`host`), property
    /// bindings are left out.
    pub fn add(&mut self, a: &ExtractedAttributeOp, compat: CompatibilityMode, host: bool)
        ensures
            final(self).groups() == add_attr(old(self).groups(), *a, compat, host),
    {
        let kind = a.binding_kind;
        let allow = match compat {
            CompatibilityMode::TemplateDefinitionBuilder => match kind {
                BindingKind::Attribute | BindingKind::ClassName | BindingKind::StyleProperty => true,
                _ => false,
            },
            CompatibilityMode::Normal => false,
        };
        if !allow {
            if self.check_known(kind, &a.name) {
                return ;
            }
        }
        match kind {
            BindingKind::Attribute => {
                let namespace = match &a.namespace {
                    Some(n) => Some(n.clone()),
                    None => None,
                };
                self.attributes.push(StaticAttr { namespace, name: a.name.clone(), value: value_of(a) });
            },
            BindingKind::ClassName => {
                self.classes.push(a.name.clone());
            },
            BindingKind::StyleProperty => {
                let v = match value_of(a) {
                    Some(AttrValue::Var(_)) => None,
                    v => v,
                };
                self.styles.push((a.name.clone(), v));
            },
            BindingKind::Property | BindingKind::TwoWayProperty => {
                if !host {
                    self.bindings.push(a.name.clone());
                }
            },
            BindingKind::Template => {
                self.template.push(a.name.clone());
            },
            BindingKind::I18n => {
                self.i18n.push(a.name.clone());
            },
            _ => {},
        }
    }
}

/// The value of the extracted attribute `a`.
fn value_of(a: &ExtractedAttributeOp) -> (r: Option<AttrValue>)
    ensures
        r == attr_value(*a),
{
    let fallback = if a.truthy_expression {
        Some(AttrValue::Empty)
    } else {
        None
    };
    match &a.value {
        Some(IrExpression::OutputExpr(o)) => match &**o {
            OutputExpression::Literal(LiteralValue::String(s)) => Some(AttrValue::Text(s.clone())),
            OutputExpression::ReadVar(n) => Some(AttrValue::Var(n.clone())),
            _ => fallback,
        },
        Some(IrExpression::Ast(x)) => match &**x {
            AngularExpression::LiteralPrimitive(LiteralValue::String(s)) => Some(AttrValue::Text(s.clone())),
            _ => fallback,
        },
        _ => fallback,
    }
}

/// Appends the entry of the value `v` to `out`.
fn push_value(out: &mut Vec<Entry>, v: &Option<AttrValue>)
    ensures
        final(out)@ == old(out)@ + value_entries(*v),
{
    match v {
        Some(AttrValue::Text(s)) => out.push(Entry::Text(s.clone())),
        Some(AttrValue::Empty) => out.push(Entry::Empty),
        Some(AttrValue::Var(n)) => out.push(Entry::Var(n.clone())),
        None => {},
    }
    assert(out@ =~= old(out)@ + value_entries(*v));
}

/// Appends a marked section of `names` to `out`.
fn push_marked(out: &mut Vec<Entry>, marker: i64, names: &Vec<String>)
    ensures
        final(out)@ == old(out)@ + marked(marker, names@),
{
    if names.len() == 0 {
        assert(out@ =~= old(out)@ + marked(marker, names@));
        return ;
    }
    out.push(Entry::Marker(marker));
    let ghost o1 = out@;
    let mut i: usize = 0;
    while i < names.len()
        invariant
            i <= names@.len(),
            out@ == o1 + names@.take(i as int).map_values(|n: String| Entry::Text(n)),
        decreases names@.len() - i,
    {
        out.push(Entry::Text(names[i].clone()));
        assert(names@.take(i + 1).map_values(|n: String| Entry::Text(n)) =~= names@.take(i as int).map_values(
            |n: String| Entry::Text(n),
        ).push(Entry::Text(names@[i as int])));
        i = i + 1;
    }
    assert(names@.take(names@.len() as int) =~= names@);
    assert(out@ =~= old(out)@ + marked(marker, names@));
}

/// The serialized entries of the attributes `g`.
fn entries_of(g: &ElementAttributes) -> (r: Vec<Entry>)
    ensures
        r@ == group_entries(g.groups()),
{
    let mut out: Vec<Entry> = Vec::new();
    let mut i: usize = 0;
    while i < g.attributes.len()
        invariant
            i <= g.attributes@.len(),
            out@ == static_entries(g.attributes@.take(i as int)),
        decreases g.attributes@.len() - i,
    {
        let a = &g.attributes[i];
        assert(g.attributes@.take(i + 1).drop_last() =~= g.attributes@.take(i as int));
        match &a.namespace {
            Some(ns) => {
                out.push(Entry::Marker(0));
                out.push(Entry::Text(ns.clone()));
            },
            None => {},
        }
        out.push(Entry::Text(a.name.clone()));
        push_value(&mut out, &a.value);
        assert(out@ =~= static_entries(g.attributes@.take(i + 1)));
        i = i + 1;
    }
    assert(g.attributes@.take(g.attributes@.len() as int) =~= g.attributes@);
    let ghost e1 = out@;
    push_marked(&mut out, 1, &g.classes);
    let ghost e2 = out@;
    if g.styles.len() > 0 {
        out.push(Entry::Marker(2));
        let ghost e3 = out@;
        let mut j: usize = 0;
        while j < g.styles.len()
            invariant
                j <= g.styles@.len(),
                out@ == e3 + style_entries(g.styles@.take(j as int)),
            decreases g.styles@.len() - j,
        {
            assert(g.styles@.take(j + 1).drop_last() =~= g.styles@.take(j as int));
            out.push(Entry::Text(g.styles[j].0.clone()));
            push_value(&mut out, &g.styles[j].1);
            assert(out@ =~= e3 + style_entries(g.styles@.take(j + 1)));
            j = j + 1;
        }
        assert(g.styles@.take(g.styles@.len() as int) =~= g.styles@);
    }
    let ghost e4 = out@;
    assert(e4 =~= e2 + if g.styles@.len() == 0 {
        seq![]
    } else {
        seq![Entry::Marker(2)] + style_entries(g.styles@)
    });
    push_marked(&mut out, 3, &g.bindings);
    push_marked(&mut out, 4, &g.template);
    push_marked(&mut out, 6, &g.i18n);
    assert(out@ =~= group_entries(g.groups()));
    out
}

/// The constant of an entry.
fn const_of_entry(e: &Entry) -> (c: ConstValue)
    ensures
        const_entry(c, *e),
{
    match e {
        Entry::Marker(n) => ConstValue::Number(*n),
        Entry::Text(s) => ConstValue::String(s.clone()),
        Entry::Empty => ConstValue::String(String::new()),
        Entry::Var(v) => ConstValue::Expression(IrExpression::OutputExpr(Box::new(OutputExpression::ReadVar(v.clone())))),
    }
}

/// The output expression of an entry.
fn output_of_entry(e: &Entry) -> (o: OutputExpression)
    ensures
        output_entry(o, *e),
{
    match e {
        Entry::Marker(n) => OutputExpression::Literal(LiteralValue::Number(*n)),
        Entry::Text(s) => OutputExpression::Literal(LiteralValue::String(s.clone())),
        Entry::Empty => OutputExpression::Literal(LiteralValue::String(String::new())),
        Entry::Var(v) => OutputExpression::ReadVar(v.clone()),
    }
}

/// The constant array of the entries `es`.
fn const_array_of(es: &Vec<Entry>) -> (c: ConstValue)
    ensures
        const_array(c, es@),
{
    let mut v: Vec<ConstValue> = Vec::new();
    let mut i: usize = 0;
    while i < es.len()
        invariant
            i <= es@.len(),
            v@.len() == i,
            forall|j: int| 0 <= j < i ==> const_entry(#[trigger] v@[j], es@[j]),
        decreases es@.len() - i,
    {
        v.push(const_of_entry(&es[i]));
        i = i + 1;
    }
    ConstValue::Array(v)
}

/// The literal array of the entries `es`.
fn output_array_of(es: &Vec<Entry>) -> (o: OutputExpression)
    ensures
        output_array(o, es@),
{
    let mut v: Vec<OutputExpression> = Vec::new();
    let mut i: usize = 0;
    while i < es.len()
        invariant
            i <= es@.len(),
            v@.len() == i,
            forall|j: int| 0 <= j < i ==> output_entry(#[trigger] v@[j], es@[j]),
        decreases es@.len() - i,
    {
        v.push(output_of_entry(&es[i]));
        i = i + 1;
    }
    OutputExpression::LiteralArray(v)
}

/// Whether `b` keeps everything of `a` but the creation lists and the constants.
pub open spec fn kept(a: ComponentCompilationJob, b: ComponentCompilationJob) -> bool {
    &&& b.root.xref == a.root.xref
    &&& b.root.update == a.root.update
    &&& b.root.functions == a.root.functions
    &&& b.root.decl_count == a.root.decl_count
    &&& b.views@.len() == a.views@.len()
    &&& forall|i: int|
        0 <= i < a.views@.len() ==> {
            &&& (#[trigger] b.views@[i]).xref == a.views@[i].xref
            &&& b.views@[i].update == a.views@[i].update
            &&& b.views@[i].functions == a.views@[i].functions
            &&& b.views@[i].decl_count == a.views@[i].decl_count
        }
    &&& b.diagnostics == a.diagnostics
    &&& b.next_xref == a.next_xref
    &&& b.compatibility_mode == a.compatibility_mode
    &&& b.mode == a.mode
    &&& b.enable_debug_locations == a.enable_debug_locations
    &&& b.relative_template_path == a.relative_template_path
    &&& b.template_source == a.template_source
}

proof fn lemma_kept_trans(a: ComponentCompilationJob, b: ComponentCompilationJob, c: ComponentCompilationJob)
    requires
        kept(a, b),
        kept(b, c),
    ensures
        kept(a, c),
{
    assert forall|i: int| 0 <= i < a.views@.len() implies {
        &&& (#[trigger] c.views@[i]).xref == a.views@[i].xref
        &&& c.views@[i].update == a.views@[i].update
        &&& c.views@[i].functions == a.views@[i].functions
        &&& c.views@[i].decl_count == a.views@[i].decl_count
    } by {
        assert(b.views@[i].xref == a.views@[i].xref);
    }
}

proof fn lemma_kept_xrefs(a: ComponentCompilationJob, b: ComponentCompilationJob)
    requires
        kept(a, b),
    ensures
        view_xrefs(b) == view_xrefs(a),
        view_creates(b).len() == a.views@.len() + 1,
        view_creates(a).len() == a.views@.len() + 1,
{
    assert(view_xrefs(b) =~= view_xrefs(a)) by {
        assert forall|i: int| 0 <= i < view_xrefs(a).len() implies view_xrefs(b)[i] == view_xrefs(a)[i] by {
            if i > 0 {
                assert(b.views@[i - 1].xref == a.views@[i - 1].xref);
            }
        }
    }
}

/// Takes the creation list of the view at `p` out of the job.
fn take_list(job: &mut ComponentCompilationJob, p: usize) -> (c: Vec<CreateOp>)
    requires
        p <= old(job).views@.len(),
    ensures
        c@ == view_creates(*old(job))[p as int],
        view_creates(*final(job)) == view_creates(*old(job)).update(p as int, seq![]),
        kept(*old(job), *final(job)),
        final(job).consts == old(job).consts,
{
    let mut c: Vec<CreateOp> = Vec::new();
    if p == 0 {
        std::mem::swap(&mut c, &mut job.root.create);
    } else {
        std::mem::swap(&mut c, &mut job.views[p - 1].create);
    }
    assert(view_creates(*job) =~= view_creates(*old(job)).update(p as int, seq![]));
    c
}

/// Puts `c` back as the creation list of the view at `p`.
fn put_list(job: &mut ComponentCompilationJob, p: usize, c: Vec<CreateOp>)
    requires
        p <= old(job).views@.len(),
    ensures
        view_creates(*final(job)) == view_creates(*old(job)).update(p as int, c@),
        kept(*old(job), *final(job)),
        final(job).consts == old(job).consts,
{
    let ghost c0 = c@;
    let mut c = c;
    if p == 0 {
        std::mem::swap(&mut c, &mut job.root.create);
    } else {
        std::mem::swap(&mut c, &mut job.views[p - 1].create);
    }
    assert(view_creates(*job) =~= view_creates(*old(job)).update(p as int, c0));
}

/// The creation list of the view at `p`.
fn list_at(job: &ComponentCompilationJob, p: usize) -> (c: &Vec<CreateOp>)
    requires
        p <= job.views@.len(),
    ensures
        c@ == view_creates(*job)[p as int],
{
    if p == 0 {
        &job.root.create
    } else {
        &job.views[p - 1].create
    }
}

/// Whether `groups[slots[t]]` holds the groups `m[t]` of every element `t`, each element its own entry.
pub open spec fn store_holds(groups: Seq<ElementAttributes>, slots: Map<u32, usize>, m: Map<u32, AttrGroups>) -> bool {
    &&& slots.dom() == m.dom()
    &&& forall|t: u32| #[trigger] m.contains_key(t) ==> slots[t] < groups.len() && groups[slots[t] as int].groups() == m[t]
    &&& forall|t1: u32, t2: u32|
        #[trigger] slots.contains_key(t1) && #[trigger] slots.contains_key(t2) && t1 != t2 ==> slots[t1] != slots[t2]
}

/// The groups after one more extracted attribute.
pub open spec fn gather_step(m: Map<u32, AttrGroups>, a: ExtractedAttributeOp, compat: CompatibilityMode) -> Map<u32, AttrGroups> {
    let t = a.target.0;
    m.insert(t, add_attr(if m.contains_key(t) { m[t] } else { no_groups() }, a, compat, false))
}

proof fn lemma_gather_push(ops: Seq<ExtractedAttributeOp>, a: ExtractedAttributeOp, compat: CompatibilityMode)
    ensures
        gather(ops.push(a), compat) == gather_step(gather(ops, compat), a, compat),
{
    assert(ops.push(a).drop_last() =~= ops);
}

/// Adds the extracted attribute `a` to the groups of its target.
fn store_add(
    groups: &mut Vec<ElementAttributes>,
    slots: &mut FxHashMap<u32, usize>,
    a: &ExtractedAttributeOp,
    compat: CompatibilityMode,
    Ghost(m): Ghost<Map<u32, AttrGroups>>,
)
    requires
        store_holds(old(groups)@, old(slots)@, m),
    ensures
        store_holds(final(groups)@, final(slots)@, gather_step(m, *a, compat)),
{
    let t = a.target.0;
    match fx_map_get(slots, t) {
        Some(i) => {
            let mut g = ElementAttributes::new();
            std::mem::swap(&mut g, &mut groups[i]);
            g.add(a, compat, false);
            groups.set(i, g);
            let ghost m2 = gather_step(m, *a, compat);
            assert(slots@.dom() =~= m2.dom());
            assert forall|u: u32| #[trigger] m2.contains_key(u) implies slots@[u] < groups@.len() && groups@[slots@[u] as int].groups()
                == m2[u] by {
                if u != t {
                    assert(slots@[u] != slots@[t]);
                }
            }
        },
        None => {
            let mut g = ElementAttributes::new();
            g.add(a, compat, false);
            let n = groups.len();
            fx_map_insert(slots, t, n);
            groups.push(g);
            let ghost m2 = gather_step(m, *a, compat);
            assert(slots@.dom() =~= m2.dom());
            assert forall|u: u32| #[trigger] m2.contains_key(u) implies slots@[u] < groups@.len() && groups@[slots@[u] as int].groups()
                == m2[u] by {
                if u != t {
                    assert(m.contains_key(u));
                    assert(groups@[slots@[u] as int] == old(groups)@[slots@[u] as int]);
                }
            }
            assert forall|t1: u32, t2: u32|
                #[trigger] slots@.contains_key(t1) && #[trigger] slots@.contains_key(t2) && t1 != t2 implies slots@[t1] != slots@[t2] by {
                if t1 != t && t2 != t {
                    assert(old(slots)@.contains_key(t1) && old(slots)@.contains_key(t2));
                } else if t1 == t {
                    assert(m.contains_key(t2));
                } else {
                    assert(m.contains_key(t1));
                }
            }
        },
    }
}

/// Gathers the extracted attributes of the view at `p` into the groups of
/// their targets, and removes them from the view.
fn gather_view(
    job: &mut ComponentCompilationJob,
    p: usize,
    groups: &mut Vec<ElementAttributes>,
    slots: &mut FxHashMap<u32, usize>,
    Ghost(ops0): Ghost<Seq<ExtractedAttributeOp>>,
)
    requires
        p <= old(job).views@.len(),
        store_holds(old(groups)@, old(slots)@, gather(ops0, old(job).compatibility_mode)),
    ensures
        view_creates(*final(job)) == view_creates(*old(job)).update(p as int, strip(view_creates(*old(job))[p as int])),
        store_holds(
            final(groups)@,
            final(slots)@,
            gather(ops0 + extracted(view_creates(*old(job))[p as int]), old(job).compatibility_mode),
        ),
        kept(*old(job), *final(job)),
        final(job).consts == old(job).consts,
{
    let compat = job.compatibility_mode;
    let ghost j0 = *job;
    let mut c = take_list(job, p);
    let ghost c0 = c@;
    let mut rest: Vec<CreateOp> = Vec::new();
    let mut i: usize = 0;
    while i < c.len()
        invariant
            i <= c@.len(),
            c@.len() == c0.len(),
            forall|j: int| i <= j < c0.len() ==> #[trigger] c@[j] == c0[j],
            rest@ == strip(c0.take(i as int)),
            store_holds(groups@, slots@, gather(ops0 + extracted(c0.take(i as int)), compat)),
        decreases c@.len() - i,
    {
        let mut op = CreateOp::ElementEnd(XrefId(0));
        std::mem::swap(&mut op, &mut c[i]);
        assert(c0.take(i + 1).drop_last() =~= c0.take(i as int));
        let ghost before = ops0 + extracted(c0.take(i as int));
        match op {
            CreateOp::ExtractedAttribute(a) => {
                store_add(groups, slots, &a, compat, Ghost(gather(before, compat)));
                proof {
                    lemma_gather_push(before, a, compat);
                    assert(ops0 + extracted(c0.take(i + 1)) =~= before.push(a));
                }
                assert(rest@ =~= strip(c0.take(i + 1)));
            },
            other => {
                rest.push(other);
                assert(ops0 + extracted(c0.take(i + 1)) =~= before);
                assert(rest@ =~= strip(c0.take(i + 1)));
            },
        }
        i = i + 1;
    }
    assert(c0.take(c0.len() as int) =~= c0);
    let ghost j1 = *job;
    put_list(job, p, rest);
    proof {
        lemma_kept_trans(j0, j1, *job);
    }
    assert(view_creates(*job) =~= view_creates(j0).update(p as int, strip(view_creates(j0)[p as int])));
}

/// Gathers the extracted attributes of every view into the groups of their
/// targets, and removes them from the views.
fn gather_job(job: &mut ComponentCompilationJob, groups: &mut Vec<ElementAttributes>, slots: &mut FxHashMap<u32, usize>)
    requires
        old(groups)@.len() == 0,
        old(slots)@ == Map::<u32, usize>::empty(),
    ensures
        store_holds(final(groups)@, final(slots)@, job_groups(*old(job))),
        view_creates(*final(job)) == stripped(*old(job)),
        kept(*old(job), *final(job)),
        final(job).consts == old(job).consts,
{
    let ghost cs0 = view_creates(*job);
    let ghost compat = job.compatibility_mode;
    proof {
        lemma_kept_xrefs(*job, *job);
        assert(gather(all_extracted(cs0, 0), compat) =~= Map::<u32, AttrGroups>::empty());
        assert(slots@.dom() =~= Set::<u32>::empty());
    }
    let ghost j0 = *job;
    gather_view(job, 0, groups, slots, Ghost(all_extracted(cs0, 0)));
    proof {
        lemma_kept_xrefs(j0, *job);
        assert(all_extracted(cs0, 1) =~= all_extracted(cs0, 0) + extracted(cs0[0]));
    }
    let mut i: usize = 0;
    while i < job.views.len()
        invariant
            i <= job.views@.len(),
            job.views@.len() == old(job).views@.len(),
            cs0 == view_creates(*old(job)),
            compat == old(job).compatibility_mode,
            job.compatibility_mode == compat,
            kept(*old(job), *job),
            job.consts == old(job).consts,
            view_creates(*job).len() == cs0.len(),
            forall|q: int| 0 <= q <= i ==> #[trigger] view_creates(*job)[q] == strip(cs0[q]),
            forall|q: int| i < q < cs0.len() ==> #[trigger] view_creates(*job)[q] == cs0[q],
            store_holds(groups@, slots@, gather(all_extracted(cs0, i + 1), compat)),
        decreases job.views@.len() - i,
    {
        let ghost j1 = *job;
        gather_view(job, i + 1, groups, slots, Ghost(all_extracted(cs0, i + 1)));
        proof {
            lemma_kept_trans(*old(job), j1, *job);
            lemma_kept_xrefs(*old(job), *job);
            assert(all_extracted(cs0, i + 2) =~= all_extracted(cs0, i + 1) + extracted(cs0[i + 1]));
        }
        i = i + 1;
    }
    assert(view_creates(*job) =~= stripped(*old(job)));
}

/// Whether the element `x` has attributes.
fn has_attrs_in(groups: &Vec<ElementAttributes>, slots: &FxHashMap<u32, usize>, x: XrefId, Ghost(m): Ghost<Map<u32, AttrGroups>>) -> (r: bool)
    requires
        store_holds(groups@, slots@, m),
    ensures
        r == has_attrs(m, x),
{
    match fx_map_get(slots, x.0) {
        Some(i) => {
            assert(m.contains_key(x.0));
            !groups[i].is_empty()
        },
        None => {
            assert(!m.contains_key(x.0));
            false
        },
    }
}

/// Appends the element `x` as `item` when it has attributes and was not met yet.
fn push_first_item(
    x: XrefId,
    item: Item,
    groups: &Vec<ElementAttributes>,
    slots: &FxHashMap<u32, usize>,
    seen: &mut FxHashSet<u32>,
    out: &mut Vec<Item>,
    Ghost(m): Ghost<Map<u32, AttrGroups>>,
)
    requires
        store_holds(groups@, slots@, m),
    ensures
        final(out)@ == old(out)@ + first_item(x, item, m, old(seen)@).0,
        final(seen)@ == first_item(x, item, m, old(seen)@).1,
{
    if !fx_set_contains(seen, x.0) && has_attrs_in(groups, slots, x, Ghost(m)) {
        fx_set_insert(seen, x.0);
        out.push(item);
    } else {
        assert(out@ =~= old(out)@ + first_item(x, item, m, old(seen)@).0);
    }
}

/// Appends the items of the operation `op`.
fn push_op_items(
    op: &CreateOp,
    groups: &Vec<ElementAttributes>,
    slots: &FxHashMap<u32, usize>,
    seen: &mut FxHashSet<u32>,
    out: &mut Vec<Item>,
    Ghost(m): Ghost<Map<u32, AttrGroups>>,
)
    requires
        store_holds(groups@, slots@, m),
    ensures
        final(out)@ == old(out)@ + op_items(*op, m, old(seen)@).0,
        final(seen)@ == op_items(*op, m, old(seen)@).1,
{
    match op {
        CreateOp::Projection(p) => {
            if has_attrs_in(groups, slots, p.xref, Ghost(m)) {
                out.push(Item::Projection(p.xref));
            } else {
                assert(out@ =~= old(out)@ + op_items(*op, m, old(seen)@).0);
            }
        },
        CreateOp::ElementStart(e) => push_first_item(e.xref, Item::Regular(e.xref), groups, slots, seen, out, Ghost(m)),
        CreateOp::Element(e) => push_first_item(e.xref, Item::Regular(e.xref), groups, slots, seen, out, Ghost(m)),
        CreateOp::ContainerStart(e) => push_first_item(e.xref, Item::Regular(e.xref), groups, slots, seen, out, Ghost(m)),
        CreateOp::Container(e) => push_first_item(e.xref, Item::Regular(e.xref), groups, slots, seen, out, Ghost(m)),
        CreateOp::Template(t) => push_first_item(t.xref, Item::Regular(t.xref), groups, slots, seen, out, Ghost(m)),
        CreateOp::Conditional(t) => push_first_item(t.xref, Item::Regular(t.xref), groups, slots, seen, out, Ghost(m)),
        CreateOp::ConditionalBranch(t) => push_first_item(t.xref, Item::Regular(t.xref), groups, slots, seen, out, Ghost(m)),
        CreateOp::RepeaterCreate(t) => {
            let ghost o0 = out@;
            push_first_item(t.embedded_view, Item::RepeaterBody(t.embedded_view), groups, slots, seen, out, Ghost(m));
            match t.empty_view {
                Some(ev) => {
                    push_first_item(ev, Item::RepeaterEmpty(ev), groups, slots, seen, out, Ghost(m));
                    assert(out@ =~= o0 + op_items(*op, m, old(seen)@).0);
                },
                None => {},
            }
        },
        _ => {
            assert(out@ =~= old(out)@ + op_items(*op, m, old(seen)@).0);
        },
    }
}

/// The items of the creation lists of a job, walked in order.
fn collect_items(job: &ComponentCompilationJob, groups: &Vec<ElementAttributes>, slots: &FxHashMap<u32, usize>, Ghost(m): Ghost<Map<u32, AttrGroups>>) -> (r: Vec<Item>)
    requires
        store_holds(groups@, slots@, m),
    ensures
        r@ == job_items(view_creates(*job), job.views@.len() + 1int, m).0,
{
    let ghost cs = view_creates(*job);
    let mut out: Vec<Item> = Vec::new();
    let mut seen: FxHashSet<u32> = fx_set_new();
    let mut p: usize = 0;
    let n = job.views.len();
    assert(job_items(cs, 0, m) == (Seq::<Item>::empty(), Set::<u32>::empty()));
    while p <= n
        invariant
            n == job.views@.len(),
            p <= n + 1,
            cs == view_creates(*job),
            cs.len() == n + 1,
            store_holds(groups@, slots@, m),
            (out@, seen@) == job_items(cs, p as int, m),
        decreases n + 1 - p,
    {
        let c = list_at(job, p);
        let ghost (a0, s0) = job_items(cs, p as int, m);
        let mut i: usize = 0;
        assert(view_items(c@, 0, m, s0) == (Seq::<Item>::empty(), s0));
        assert(out@ =~= a0 + view_items(c@, 0, m, s0).0);
        while i < c.len()
            invariant
                i <= c@.len(),
                c@ == cs[p as int],
                store_holds(groups@, slots@, m),
                out@ == a0 + view_items(c@, i as int, m, s0).0,
                seen@ == view_items(c@, i as int, m, s0).1,
            decreases c@.len() - i,
        {
            let ghost o1 = out@;
            push_op_items(&c[i], groups, slots, &mut seen, &mut out, Ghost(m));
            assert(out@ =~= a0 + view_items(c@, i + 1, m, s0).0);
            i = i + 1;
        }
        assert(out@ =~= job_items(cs, p + 1, m).0);
        if p == n {
            return out;
        }
        p = p + 1;
    }
    out
}

proof fn lemma_const_pass_grows(items: Seq<Item>, k: int, m: Map<u32, AttrGroups>, c0: nat)
    requires
        0 <= k <= items.len(),
    ensures
        const_pass(items.take(k), m, c0).1.len() <= const_pass(items, m, c0).1.len(),
    decreases items.len(),
{
    if k < items.len() {
        assert(items.drop_last().take(k) =~= items.take(k));
        lemma_const_pass_grows(items.drop_last(), k, m, c0);
    } else {
        assert(items.take(k) =~= items);
    }
}

/// Whether `consts` holds the constants from before (`c0` of them), then the
/// arrays of the elements `xs`.
pub open spec fn consts_hold(consts: Seq<ConstValue>, before: Seq<ConstValue>, xs: Seq<XrefId>, m: Map<u32, AttrGroups>) -> bool {
    &&& consts.len() == before.len() + xs.len()
    &&& forall|j: int| 0 <= j < before.len() ==> #[trigger] consts[j] == before[j]
    &&& forall|j: int| 0 <= j < xs.len() ==> const_array(#[trigger] consts[before.len() + j], group_entries(m[xs[j].0]))
}

/// Adds the array of the element `x` to the constants, unless it has one or has no attributes.
fn add_element_const(
    x: XrefId,
    groups: &Vec<ElementAttributes>,
    slots: &FxHashMap<u32, usize>,
    idx: &mut FxHashMap<u32, u32>,
    consts: &mut Vec<ConstValue>,
    Ghost(m): Ghost<Map<u32, AttrGroups>>,
    Ghost(before): Ghost<Seq<ConstValue>>,
    Ghost(xs): Ghost<Seq<XrefId>>,
)
    requires
        store_holds(groups@, slots@, m),
        consts_hold(old(consts)@, before, xs, m),
        !old(idx)@.contains_key(x.0) && has_attrs(m, x) ==> before.len() + xs.len() < u32::MAX,
    ensures
        if !old(idx)@.contains_key(x.0) && has_attrs(m, x) {
            &&& final(idx)@ == old(idx)@.insert(x.0, (before.len() + xs.len()) as u32)
            &&& consts_hold(final(consts)@, before, xs.push(x), m)
        } else {
            &&& final(idx)@ == old(idx)@
            &&& final(consts)@ == old(consts)@
        },
{
    let known = fx_map_get(idx, x.0);
    if known.is_none() && has_attrs_in(groups, slots, x, Ghost(m)) {
        let slot = match fx_map_get(slots, x.0) {
            Some(i) => i,
            None => {
                proof {
                    assert(false);
                }
                return ;
            },
        };
        let es = entries_of(&groups[slot]);
        let c = const_array_of(&es);
        let n = consts.len() as u32;
        consts.push(c);
        fx_map_insert(idx, x.0, n);
        assert forall|j: int| 0 <= j < xs.push(x).len() implies const_array(
            #[trigger] consts@[before.len() + j],
            group_entries(m[xs.push(x)[j].0]),
        ) by {
            if j < xs.len() {
                assert(consts@[before.len() + j] == old(consts)@[before.len() + j]);
            }
        }
    }
}

/// Adds the arrays of the elements among `items` to the constants, in order,
/// and records their indices.
fn add_element_consts(
    items: &Vec<Item>,
    groups: &Vec<ElementAttributes>,
    slots: &FxHashMap<u32, usize>,
    idx: &mut FxHashMap<u32, u32>,
    consts: &mut Vec<ConstValue>,
    Ghost(m): Ghost<Map<u32, AttrGroups>>,
)
    requires
        store_holds(groups@, slots@, m),
        old(idx)@ == Map::<u32, u32>::empty(),
        old(consts)@.len() + const_pass(items@, m, old(consts)@.len() as nat).1.len() <= u32::MAX,
    ensures
        final(idx)@ == const_pass(items@, m, old(consts)@.len() as nat).0,
        consts_hold(final(consts)@, old(consts)@, const_pass(items@, m, old(consts)@.len() as nat).1, m),
{
    let ghost before = consts@;
    let ghost c0 = before.len() as nat;
    let mut k: usize = 0;
    assert(items@.take(0) =~= Seq::<Item>::empty());
    while k < items.len()
        invariant
            k <= items@.len(),
            store_holds(groups@, slots@, m),
            before.len() + const_pass(items@, m, c0).1.len() <= u32::MAX,
            c0 == before.len(),
            idx@ == const_pass(items@.take(k as int), m, c0).0,
            consts_hold(consts@, before, const_pass(items@.take(k as int), m, c0).1, m),
        decreases items@.len() - k,
    {
        let ghost xs = const_pass(items@.take(k as int), m, c0).1;
        assert(items@.take(k + 1).drop_last() =~= items@.take(k as int));
        proof {
            lemma_const_pass_grows(items@, k + 1, m, c0);
        }
        match items[k] {
            Item::Projection(_) => {},
            Item::Regular(x) => add_element_const(x, groups, slots, idx, consts, Ghost(m), Ghost(before), Ghost(xs)),
            Item::RepeaterBody(x) => add_element_const(x, groups, slots, idx, consts, Ghost(m), Ghost(before), Ghost(xs)),
            Item::RepeaterEmpty(x) => add_element_const(x, groups, slots, idx, consts, Ghost(m), Ghost(before), Ghost(xs)),
        }
        k = k + 1;
    }
    assert(items@.take(items@.len() as int) =~= items@);
}

proof fn lemma_first_projection_step(cs: Seq<Seq<CreateOp>>, p: int, i: int, x: XrefId)
    requires
        0 <= p < cs.len(),
        0 <= i < cs[p].len(),
    ensures
        first_projection(cs, p, i + 1, x) <==> (first_projection(cs, p, i, x) && !(cs[p][i] matches CreateOp::Projection(o)
            && o.xref == x)),
{
    if first_projection(cs, p, i + 1, x) {
        assert forall|q: int, j: int|
            #![trigger cs[q][j]]
            0 <= q <= p && 0 <= j < cs[q].len() && (q < p || j < i) implies !(cs[q][j] matches CreateOp::Projection(o)
                && o.xref == x) by {
            assert(q < p || j < i + 1);
        }
    }
}

proof fn lemma_first_projection_next_view(cs: Seq<Seq<CreateOp>>, p: int, x: XrefId)
    requires
        0 <= p < cs.len(),
    ensures
        first_projection(cs, p + 1, 0, x) <==> first_projection(cs, p, cs[p].len() as int, x),
{
    if first_projection(cs, p, cs[p].len() as int, x) {
        assert forall|q: int, j: int|
            #![trigger cs[q][j]]
            0 <= q <= p + 1 && 0 <= j < cs[q].len() && (q < p + 1 || j < 0) implies !(cs[q][j] matches CreateOp::Projection(
                o,
            ) && o.xref == x) by {
            assert(q <= p && (q < p || j < cs[p].len()));
        }
    }
    if first_projection(cs, p + 1, 0, x) {
        assert forall|q: int, j: int|
            #![trigger cs[q][j]]
            0 <= q <= p && 0 <= j < cs[q].len() && (q < p || j < cs[p].len()) implies !(cs[q][j] matches CreateOp::Projection(
                o,
            ) && o.xref == x) by {
            assert(q < p + 1);
        }
    }
}

/// Whether `done` holds exactly the elements with attributes that have a
/// projection before position `i` of the creation list at `p`.
pub open spec fn done_before(done: Set<u32>, cs: Seq<Seq<CreateOp>>, p: int, i: int, m: Map<u32, AttrGroups>) -> bool {
    forall|t: u32| #[trigger] done.contains(t) <==> (has_attrs(m, XrefId(t)) && !first_projection(cs, p, i, XrefId(t)))
}

/// The index `x` has in `idx`, else `d`.
fn lookup_in(idx: &FxHashMap<u32, u32>, x: XrefId, d: Option<u32>) -> (r: Option<u32>)
    ensures
        r == lookup_index(idx@, x, d),
{
    match fx_map_get(idx, x.0) {
        Some(i) => Some(i),
        None => d,
    }
}

/// The operation `op` once it took its attributes; `done` holds the elements
/// whose first projection took its array.
fn apply_op(
    op: CreateOp,
    idx: &FxHashMap<u32, u32>,
    groups: &Vec<ElementAttributes>,
    slots: &FxHashMap<u32, usize>,
    done: &mut FxHashSet<u32>,
    Ghost(m): Ghost<Map<u32, AttrGroups>>,
) -> (r: CreateOp)
    requires
        store_holds(groups@, slots@, m),
    ensures
        applied(op, r, idx@, m, !old(done)@.contains(op->Projection_0.xref.0)),
        final(done)@ == if op is Projection && has_attrs(m, op->Projection_0.xref) {
            old(done)@.insert(op->Projection_0.xref.0)
        } else {
            old(done)@
        },
{
    match op {
        CreateOp::ElementStart(e) => {
            let a = lookup_in(idx, e.xref, e.attributes);
            CreateOp::ElementStart(SlotOp { attributes: a, ..e })
        },
        CreateOp::Element(e) => {
            let a = lookup_in(idx, e.xref, e.attributes);
            CreateOp::Element(SlotOp { attributes: a, ..e })
        },
        CreateOp::ContainerStart(e) => {
            let a = lookup_in(idx, e.xref, e.attributes);
            CreateOp::ContainerStart(SlotOp { attributes: a, ..e })
        },
        CreateOp::Container(e) => {
            let a = lookup_in(idx, e.xref, e.attributes);
            CreateOp::Container(SlotOp { attributes: a, ..e })
        },
        CreateOp::Template(t) => {
            let a = lookup_in(idx, t.xref, t.attributes);
            CreateOp::Template(TemplateOp { attributes: a, ..t })
        },
        CreateOp::Conditional(t) => {
            let a = lookup_in(idx, t.xref, t.attributes);
            CreateOp::Conditional(TemplateOp { attributes: a, ..t })
        },
        CreateOp::ConditionalBranch(t) => {
            let a = lookup_in(idx, t.xref, t.attributes);
            CreateOp::ConditionalBranch(TemplateOp { attributes: a, ..t })
        },
        CreateOp::RepeaterCreate(t) => {
            let a = lookup_in(idx, t.embedded_view, t.attributes);
            let ea = match t.empty_view {
                Some(ev) => lookup_in(idx, ev, t.empty_attributes),
                None => t.empty_attributes,
            };
            CreateOp::RepeaterCreate(TemplateOp { attributes: a, empty_attributes: ea, ..t })
        },
        CreateOp::Projection(pj) => {
            let has = has_attrs_in(groups, slots, pj.xref, Ghost(m));
            if has {
                let seen = fx_set_contains(done, pj.xref.0);
                fx_set_insert(done, pj.xref.0);
                assert(done@ =~= old(done)@.insert(pj.xref.0));
                if !seen {
                    let slot = match fx_map_get(slots, pj.xref.0) {
                        Some(i) => i,
                        None => {
                            proof {
                                assert(false);
                            }
                            return CreateOp::Projection(pj);
                        },
                    };
                    let es = entries_of(&groups[slot]);
                    let o = output_array_of(&es);
                    CreateOp::Projection(ProjectionOp { attributes: Some(o), ..pj })
                } else {
                    CreateOp::Projection(pj)
                }
            } else {
                CreateOp::Projection(pj)
            }
        },
        other => other,
    }
}

/// Hands the operations of the view at `p` their attributes.
fn apply_view(
    job: &mut ComponentCompilationJob,
    p: usize,
    idx: &FxHashMap<u32, u32>,
    groups: &Vec<ElementAttributes>,
    slots: &FxHashMap<u32, usize>,
    done: &mut FxHashSet<u32>,
    Ghost(m): Ghost<Map<u32, AttrGroups>>,
    Ghost(cs): Ghost<Seq<Seq<CreateOp>>>,
)
    requires
        p <= old(job).views@.len(),
        p < cs.len(),
        view_creates(*old(job))[p as int] == cs[p as int],
        store_holds(groups@, slots@, m),
        done_before(old(done)@, cs, p as int, 0, m),
    ensures
        view_creates(*final(job)).len() == view_creates(*old(job)).len(),
        forall|q: int| 0 <= q < view_creates(*old(job)).len() && q != p ==> #[trigger] view_creates(*final(job))[q] == view_creates(*old(job))[q],
        view_creates(*final(job))[p as int].len() == cs[p as int].len(),
        forall|i: int|
            0 <= i < cs[p as int].len() ==> applied(
                cs[p as int][i],
                #[trigger] view_creates(*final(job))[p as int][i],
                idx@,
                m,
                first_projection(cs, p as int, i, cs[p as int][i]->Projection_0.xref),
            ),
        done_before(final(done)@, cs, p as int, cs[p as int].len() as int, m),
        kept(*old(job), *final(job)),
        final(job).consts == old(job).consts,
{
    let ghost j0 = *job;
    let mut c = take_list(job, p);
    let ghost c0 = c@;
    let mut i: usize = 0;
    while i < c.len()
        invariant
            i <= c@.len(),
            c0 == cs[p as int],
            p < cs.len(),
            c@.len() == c0.len(),
            forall|j: int| i <= j < c0.len() ==> #[trigger] c@[j] == c0[j],
            forall|j: int|
                0 <= j < i ==> applied(c0[j], #[trigger] c@[j], idx@, m, first_projection(cs, p as int, j, c0[j]->Projection_0.xref)),
            store_holds(groups@, slots@, m),
            done_before(done@, cs, p as int, i as int, m),
        decreases c@.len() - i,
    {
        let mut op = CreateOp::ElementEnd(XrefId(0));
        std::mem::swap(&mut op, &mut c[i]);
        let ghost d0 = done@;
        let ghost x = op->Projection_0.xref;
        proof {
            lemma_first_projection_step(cs, p as int, i as int, x);
        }
        let r = apply_op(op, idx, groups, slots, done, Ghost(m));
        c.set(i, r);
        assert forall|t: u32| #[trigger] done@.contains(t) <==> (has_attrs(m, XrefId(t)) && !first_projection(cs, p as int, i + 1, XrefId(t))) by {
            lemma_first_projection_step(cs, p as int, i as int, XrefId(t));
        }
        i = i + 1;
    }
    let ghost c1 = c@;
    let ghost j1 = *job;
    put_list(job, p, c);
    proof {
        lemma_kept_trans(j0, j1, *job);
    }
}

/// Hands the operations of every view their attributes.
fn apply_job(
    job: &mut ComponentCompilationJob,
    idx: &FxHashMap<u32, u32>,
    groups: &Vec<ElementAttributes>,
    slots: &FxHashMap<u32, usize>,
    Ghost(m): Ghost<Map<u32, AttrGroups>>,
)
    requires
        store_holds(groups@, slots@, m),
    ensures
        view_creates(*final(job)).len() == view_creates(*old(job)).len(),
        forall|p: int|
            0 <= p < view_creates(*old(job)).len() ==> (#[trigger] view_creates(*final(job))[p]).len()
                == view_creates(*old(job))[p].len() && forall|i: int|
                0 <= i < view_creates(*old(job))[p].len() ==> applied(
                    view_creates(*old(job))[p][i],
                    #[trigger] view_creates(*final(job))[p][i],
                    idx@,
                    m,
                    first_projection(view_creates(*old(job)), p, i, view_creates(*old(job))[p][i]->Projection_0.xref),
                ),
        kept(*old(job), *final(job)),
        final(job).consts == old(job).consts,
{
    let ghost cs = view_creates(*job);
    let mut done: FxHashSet<u32> = fx_set_new();
    proof {
        lemma_kept_xrefs(*job, *job);
        assert forall|t: u32| #[trigger] done@.contains(t) <==> (has_attrs(m, XrefId(t)) && !first_projection(cs, 0, 0, XrefId(t))) by {
        }
    }
    let n = job.views.len();
    let mut p: usize = 0;
    while p <= n
        invariant
            n == job.views@.len(),
            n == old(job).views@.len(),
            p <= n + 1,
            cs == view_creates(*old(job)),
            cs.len() == n + 1,
            view_creates(*job).len() == cs.len(),
            store_holds(groups@, slots@, m),
            kept(*old(job), *job),
            job.consts == old(job).consts,
            p <= n ==> done_before(done@, cs, p as int, 0, m),
            forall|q: int| p <= q < cs.len() ==> #[trigger] view_creates(*job)[q] == cs[q],
            forall|q: int|
                0 <= q < p ==> (#[trigger] view_creates(*job)[q]).len() == cs[q].len() && forall|i: int|
                    0 <= i < cs[q].len() ==> applied(
                        cs[q][i],
                        #[trigger] view_creates(*job)[q][i],
                        idx@,
                        m,
                        first_projection(cs, q, i, cs[q][i]->Projection_0.xref),
                    ),
        decreases n + 1 - p,
    {
        let ghost j0 = *job;
        apply_view(job, p, idx, groups, slots, &mut done, Ghost(m), Ghost(cs));
        proof {
            lemma_kept_trans(*old(job), j0, *job);
            lemma_kept_xrefs(*old(job), *job);
            if p < n {
                assert forall|t: u32| #[trigger] done@.contains(t) <==> (has_attrs(m, XrefId(t)) && !first_projection(
                    cs,
                    p + 1,
                    0,
                    XrefId(t),
                )) by {
                    lemma_first_projection_next_view(cs, p as int, XrefId(t));
                }
            }
        }
        if p == n {
            return ;
        }
        p = p + 1;
    }
}

proof fn lemma_strip_clean(c: Seq<CreateOp>)
    ensures
        forall|i: int| 0 <= i < strip(c).len() ==> !(#[trigger] strip(c)[i] is ExtractedAttribute),
    decreases c.len(),
{
    if c.len() > 0 {
        lemma_strip_clean(c.drop_last());
        let a = strip(c.drop_last());
        assert forall|i: int| 0 <= i < strip(c).len() implies !(#[trigger] strip(c)[i] is ExtractedAttribute) by {
            if i < a.len() {
                assert(strip(c)[i] == a[i]);
            }
        }
    }
}

/// No extracted attribute is left in a template once its element consts are
/// collected.
pub proof fn law_no_extracted_attribute_left(before: ComponentCompilationJob, after: ComponentCompilationJob)
    requires
        job_consts_collected(before, after),
    ensures
        forall|p: int, i: int|
            0 <= p < view_creates(after).len() && 0 <= i < view_creates(after)[p].len() ==> !(#[trigger] view_creates(
                after,
            )[p][i] is ExtractedAttribute),
{
    let cs = stripped(before);
    let (idx, xs) = job_const_pass(before);
    let m = job_groups(before);
    assert forall|p: int, i: int|
        0 <= p < view_creates(after).len() && 0 <= i < view_creates(after)[p].len() implies !(#[trigger] view_creates(
            after,
        )[p][i] is ExtractedAttribute) by {
        lemma_strip_clean(view_creates(before)[p]);
        assert(cs[p] == strip(view_creates(before)[p]));
        assert(!(cs[p][i] is ExtractedAttribute));
        assert(applied(cs[p][i], view_creates(after)[p][i], idx, m, first_projection(cs, p, i, cs[p][i]->Projection_0.xref)));
    }
}

/// No extracted attribute is left in a host binding once its attributes are collected.
pub proof fn law_no_host_extracted_attribute_left(before: HostBindingCompilationJob, after: HostBindingCompilationJob)
    requires
        host_consts_collected(before, after),
    ensures
        forall|i: int| 0 <= i < after.root.create@.len() ==> !(#[trigger] after.root.create@[i] is ExtractedAttribute),
{
    lemma_strip_clean(before.root.create@);
}

proof fn lemma_const_pass_props(items: Seq<Item>, m: Map<u32, AttrGroups>, c0: nat)
    requires
        c0 + const_pass(items, m, c0).1.len() <= u32::MAX,
    ensures
        ({
            let (idx, xs) = const_pass(items, m, c0);
            &&& forall|i: int, j: int| 0 <= i < j < xs.len() ==> #[trigger] xs[i] != #[trigger] xs[j]
            &&& forall|j: int| 0 <= j < xs.len() ==> idx.contains_key(#[trigger] xs[j].0) && idx[xs[j].0] == c0 + j
            &&& forall|t: u32| #[trigger] idx.contains_key(t) ==> exists|j: int| 0 <= j < xs.len() && xs[j].0 == t
        }),
    decreases items.len(),
{
    if items.len() > 0 {
        let (idx, xs) = const_pass(items.drop_last(), m, c0);
        lemma_const_pass_props(items.drop_last(), m, c0);
        let (idx2, xs2) = const_pass(items, m, c0);
        if xs2.len() != xs.len() {
            let x = xs2.last();
            assert(!idx.contains_key(x.0));
            assert forall|i: int, j: int| 0 <= i < j < xs2.len() implies #[trigger] xs2[i] != #[trigger] xs2[j] by {
                if j == xs.len() {
                    assert(idx.contains_key(xs[i].0));
                }
            }
            assert forall|j: int| 0 <= j < xs2.len() implies idx2.contains_key(#[trigger] xs2[j].0) && idx2[xs2[j].0] == c0 + j by {
                if j < xs.len() {
                    assert(idx.contains_key(xs[j].0));
                    assert(xs[j].0 != x.0);
                }
            }
            assert forall|t: u32| #[trigger] idx2.contains_key(t) implies exists|j: int| 0 <= j < xs2.len() && xs2[j].0 == t by {
                if t == x.0 {
                    assert(xs2[xs.len() as int].0 == t);
                } else {
                    assert(idx.contains_key(t));
                    let j = choose|j: int| 0 <= j < xs.len() && xs[j].0 == t;
                    assert(xs2[j].0 == t);
                }
            }
        }
    }
}

/// Each element with attributes gets one constant: the elements whose arrays
/// join the pool are pairwise distinct, the `j`-th of them takes the index
/// of the pool's former size plus `j`, and no other element has an index.
pub proof fn law_each_element_const_once(job: ComponentCompilationJob)
    requires
        job.consts@.len() + job_const_pass(job).1.len() <= u32::MAX,
    ensures
        ({
            let (idx, xs) = job_const_pass(job);
            let c0 = job.consts@.len();
            &&& forall|i: int, j: int| 0 <= i < j < xs.len() ==> #[trigger] xs[i] != #[trigger] xs[j]
            &&& forall|j: int| 0 <= j < xs.len() ==> idx.contains_key(#[trigger] xs[j].0) && idx[xs[j].0] == c0 + j
            &&& forall|t: u32| #[trigger] idx.contains_key(t) ==> exists|j: int| 0 <= j < xs.len() && xs[j].0 == t
        }),
{
    let m = job_groups(job);
    lemma_const_pass_props(job_items(stripped(job), job.views@.len() + 1int, m).0, m, job.consts@.len() as nat);
}

/// Collects the static attributes of the elements of a template into the
/// constant pool: each element, container or template with attributes gets the
/// index of its serialized array (arrays added in the order the elements are
/// met, each element once), each projection with attributes gets its array,
/// and the extracted attributes leave the creation lists.
pub fn collect_element_consts(job: &mut ComponentCompilationJob)
    requires
        old(job).consts@.len() + job_const_pass(*old(job)).1.len() <= u32::MAX,
    ensures
        job_consts_collected(*old(job), *final(job)),
{
    let ghost m = job_groups(*job);
    let ghost j0 = *job;
    let mut groups: Vec<ElementAttributes> = Vec::new();
    let mut slots: FxHashMap<u32, usize> = fx_map_new();
    assert(slots@ =~= Map::<u32, usize>::empty());
    gather_job(job, &mut groups, &mut slots);
    let items = collect_items(job, &groups, &slots, Ghost(m));
    let mut idx: FxHashMap<u32, u32> = fx_map_new();
    assert(idx@ =~= Map::<u32, u32>::empty());
    add_element_consts(&items, &groups, &slots, &mut idx, &mut job.consts, Ghost(m));
    let ghost j1 = *job;
    apply_job(job, &idx, &groups, &slots, Ghost(m));
    proof {
        lemma_kept_trans(j0, j1, *job);
        lemma_kept_xrefs(j0, *job);
    }
}

/// The groups of a host's extracted attributes `ops`, property bindings left out.
pub open spec fn host_groups(ops: Seq<ExtractedAttributeOp>, compat: CompatibilityMode) -> AttrGroups
    decreases ops.len(),
{
    if ops.len() == 0 {
        no_groups()
    } else {
        add_attr(host_groups(ops.drop_last(), compat), ops.last(), compat, true)
    }
}

/// The number of the extracted attributes `ops` that target another element than `root`.
pub open spec fn misplaced(ops: Seq<ExtractedAttributeOp>, root: XrefId) -> nat
    decreases ops.len(),
{
    if ops.len() == 0 {
        0
    } else {
        misplaced(ops.drop_last(), root) + if ops.last().target != root {
            1nat
        } else {
            0nat
        }
    }
}

/// `n` diagnostics of a host attribute that targets another element.
pub open spec fn misplaced_diagnostics(n: nat) -> Seq<Diagnostic> {
    Seq::new(n, |i: int| Diagnostic::HostAttributeNotOnRoot)
}

/// Whether the host job `after` is `before` with its static attributes collected.
pub open spec fn host_consts_collected(before: HostBindingCompilationJob, after: HostBindingCompilationJob) -> bool {
    let ops = extracted(before.root.create@);
    let g = host_groups(ops, before.compatibility_mode);
    &&& after.root.create@ == strip(before.root.create@)
    &&& after.root.update == before.root.update
    &&& after.root.xref == before.root.xref
    &&& after.compatibility_mode == before.compatibility_mode
    &&& after.diagnostics@ == before.diagnostics@ + misplaced_diagnostics(misplaced(ops, before.root.xref))
    &&& if groups_empty(g) {
        after.root.attributes == before.root.attributes
    } else {
        &&& after.root.attributes matches Some(o)
        &&& output_array(o, group_entries(g))
    }
}

/// Collects the static attributes of a host binding into its attribute array
/// (property bindings stay out of it), removes them from its creation list,
/// and reports each one that targets another element than the host.
pub fn collect_element_consts_for_host(job: &mut HostBindingCompilationJob)
    ensures
        host_consts_collected(*old(job), *final(job)),
{
    let root = job.root.xref;
    let compat = job.compatibility_mode;
    let mut attrs = ElementAttributes::new();
    let mut c: Vec<CreateOp> = Vec::new();
    std::mem::swap(&mut c, &mut job.root.create);
    let ghost c0 = c@;
    let ghost d0 = job.diagnostics@;
    let mut rest: Vec<CreateOp> = Vec::new();
    let mut i: usize = 0;
    while i < c.len()
        invariant
            i <= c@.len(),
            c@.len() == c0.len(),
            c0 == old(job).root.create@,
            root == old(job).root.xref,
            compat == old(job).compatibility_mode,
            d0 == old(job).diagnostics@,
            job.root.update == old(job).root.update,
            job.root.xref == old(job).root.xref,
            job.root.attributes == old(job).root.attributes,
            job.compatibility_mode == old(job).compatibility_mode,
            forall|j: int| i <= j < c0.len() ==> #[trigger] c@[j] == c0[j],
            rest@ == strip(c0.take(i as int)),
            attrs.groups() == host_groups(extracted(c0.take(i as int)), compat),
            job.diagnostics@ == d0 + misplaced_diagnostics(misplaced(extracted(c0.take(i as int)), root)),
        decreases c@.len() - i,
    {
        let mut op = CreateOp::ElementEnd(XrefId(0));
        std::mem::swap(&mut op, &mut c[i]);
        assert(c0.take(i + 1).drop_last() =~= c0.take(i as int));
        let ghost ops = extracted(c0.take(i as int));
        match op {
            CreateOp::ExtractedAttribute(a) => {
                assert(extracted(c0.take(i + 1)) =~= ops.push(a));
                assert(ops.push(a).drop_last() =~= ops);
                if a.target != root {
                    job.diagnostics.push(Diagnostic::HostAttributeNotOnRoot);
                }
                attrs.add(&a, compat, true);
                assert(job.diagnostics@ =~= d0 + misplaced_diagnostics(misplaced(ops.push(a), root)));
                assert(rest@ =~= strip(c0.take(i + 1)));
            },
            other => {
                rest.push(other);
                assert(extracted(c0.take(i + 1)) =~= ops);
                assert(rest@ =~= strip(c0.take(i + 1)));
            },
        }
        i = i + 1;
    }
    assert(c0.take(c0.len() as int) =~= c0);
    job.root.create = rest;
    if !attrs.is_empty() {
        let es = entries_of(&attrs);
        job.root.attributes = Some(output_array_of(&es));
    }
}

/// A template's property or two-way property binding that was not met before
/// adds its name at the end of the element's bindings, and nothing else but
/// the record that it was met; a host job leaves property bindings out. An
/// element whose only attribute is such a binding gets the array `[3, name]`
/// (the bindings marker, then the name).
pub proof fn law_property_bindings_are_listed(g: AttrGroups, a: ExtractedAttributeOp, compat: CompatibilityMode)
    requires
        a.binding_kind == BindingKind::Property || a.binding_kind == BindingKind::TwoWayProperty,
        !is_known(g.known, a.binding_kind, a.name@),
    ensures
        add_attr(g, a, compat, false).bindings == g.bindings.push(a.name),
        add_attr(g, a, compat, false).attributes == g.attributes,
        add_attr(g, a, compat, false).classes == g.classes,
        add_attr(g, a, compat, false).styles == g.styles,
        add_attr(g, a, compat, false).template == g.template,
        add_attr(g, a, compat, false).i18n == g.i18n,
        add_attr(g, a, compat, true).bindings == g.bindings,
        groups_empty(g) ==> group_entries(add_attr(g, a, compat, false)) == seq![Entry::Marker(3), Entry::Text(a.name)],
{
    let r = add_attr(g, a, compat, false);
    if groups_empty(g) {
        assert(r.bindings =~= seq![a.name]);
        assert(r.bindings.map_values(|n: String| Entry::Text(n)) =~= seq![Entry::Text(a.name)]);
        assert(static_entries(r.attributes) =~= Seq::<Entry>::empty());
        assert(group_entries(r) =~= seq![Entry::Marker(3), Entry::Text(a.name)]);
    }
}

/// An element whose only attribute is a class, a template binding or an i18n
/// attribute gets the array made of that section's marker (1, 4 or 6) and the
/// name; one whose only attribute is a style without value gets `[2, name]`.
pub proof fn law_single_section_arrays(g: AttrGroups, a: ExtractedAttributeOp, compat: CompatibilityMode)
    requires
        groups_empty(g),
        !is_known(g.known, a.binding_kind, a.name@),
        attr_value(a) is None,
    ensures
        a.binding_kind == BindingKind::ClassName ==> group_entries(add_attr(g, a, compat, false)) == seq![Entry::Marker(1), Entry::Text(a.name)],
        a.binding_kind == BindingKind::StyleProperty ==> group_entries(add_attr(g, a, compat, false)) == seq![Entry::Marker(2), Entry::Text(a.name)],
        a.binding_kind == BindingKind::Template ==> group_entries(add_attr(g, a, compat, false)) == seq![Entry::Marker(4), Entry::Text(a.name)],
        a.binding_kind == BindingKind::I18n ==> group_entries(add_attr(g, a, compat, false)) == seq![Entry::Marker(6), Entry::Text(a.name)],
        a.binding_kind == BindingKind::Attribute && a.namespace is None ==> group_entries(add_attr(g, a, compat, false)) == seq![Entry::Text(a.name)],
{
    let r = add_attr(g, a, compat, false);
    assert(seq![a.name].map_values(|n: String| Entry::Text(n)) =~= seq![Entry::Text(a.name)]);
    assert(Seq::<String>::empty().push(a.name) =~= seq![a.name]);
    if a.binding_kind == BindingKind::StyleProperty {
        let st = r.styles;
        assert(st =~= seq![(a.name, style_value(attr_value(a)))]);
        assert(st.drop_last() =~= Seq::<(String, Option<AttrValue>)>::empty());
        assert(style_entries(st.drop_last()) =~= Seq::<Entry>::empty());
        assert(value_entries(st.last().1) =~= Seq::<Entry>::empty());
        assert(style_entries(st) =~= seq![Entry::Text(a.name)]);
    }
    if a.binding_kind == BindingKind::Attribute && a.namespace is None {
        let at = r.attributes;
        assert(at.drop_last() =~= Seq::<StaticAttr>::empty());
        assert(static_entries(at.drop_last()) =~= Seq::<Entry>::empty());
        assert(value_entries(at.last().value) =~= Seq::<Entry>::empty());
        assert(static_entries(at) =~= seq![Entry::Text(a.name)]);
    }
    assert(group_entries(r) =~= group_entries(r));
}

/// An element whose only attribute is a static attribute gets the array of
/// that attribute: the namespace marker (0) and the namespace when it has one,
/// then its name, then its value when it has one (a literal string as text).
pub proof fn law_static_attribute_array(g: AttrGroups, a: ExtractedAttributeOp, compat: CompatibilityMode, v: String)
    requires
        groups_empty(g),
        !is_known(g.known, a.binding_kind, a.name@),
        a.binding_kind == BindingKind::Attribute,
        attr_value(a) == Some(AttrValue::Text(v)),
    ensures
        a.namespace matches Some(ns) ==> group_entries(add_attr(g, a, compat, false))
            == seq![Entry::Marker(0), Entry::Text(ns), Entry::Text(a.name), Entry::Text(v)],
        a.namespace is None ==> group_entries(add_attr(g, a, compat, false)) == seq![Entry::Text(a.name), Entry::Text(v)],
{
    let r = add_attr(g, a, compat, false);
    let at = r.attributes;
    assert(at =~= seq![StaticAttr { namespace: a.namespace, name: a.name, value: attr_value(a) }]);
    assert(at.drop_last() =~= Seq::<StaticAttr>::empty());
    assert(static_entries(at.drop_last()) =~= Seq::<Entry>::empty());
    assert(value_entries(at.last().value) =~= seq![Entry::Text(v)]);
    assert(group_entries(r) =~= static_entries(at));
}

} // verus!
