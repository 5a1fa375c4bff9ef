//! Host style property parsing phase.
//!
//! Host bindings are compiled with a different parser entry point, so generic
//! property bindings named `style.x`, `style!...`, `class.x` or `class!...`
//! are turned here into style-property and class-name bindings: a trailing
//! `!important` is dropped, style property names are converted from camelCase
//! to kebab-case (except CSS custom properties), and a unit suffix such as
//! `.px` is split off.

use vstd::prelude::*;
use crate::ir::{host_frame_kept, BindingKind, ComponentCompilationJob, HostBindingCompilationJob, UpdateBindingOp, UpdateOp};
use crate::text::{ascii_lower, chars_of, copy_range, is_upper, string_of, to_lower};

verus! {

/// Whether `s` starts with `p`.
pub open spec fn starts_with(s: Seq<char>, p: Seq<char>) -> bool {
    p.len() <= s.len() && s.subrange(0, p.len() as int) == p
}

/// Whether `s` ends with `p`.
pub open spec fn ends_with(s: Seq<char>, p: Seq<char>) -> bool {
    p.len() <= s.len() && s.subrange(s.len() - p.len(), s.len() as int) == p
}

/// Whether a property name is a CSS custom property (starts with `--`).
pub open spec fn spec_is_css_custom_property(name: Seq<char>) -> bool {
    starts_with(name, seq!['-', '-'])
}

/// The host-binding camelCase-to-kebab-case conversion: each upper-case letter
/// after the first character becomes `-` and its lower-case form.
pub open spec fn spec_host_hyphenate(s: Seq<char>) -> Seq<char>
    decreases s.len(),
{
    if s.len() == 0 {
        seq![]
    } else {
        let c = s.last();
        let prefix = spec_host_hyphenate(s.drop_last());
        if is_upper(c) && s.len() > 1 {
            prefix.push('-').push(to_lower(c))
        } else {
            prefix.push(c)
        }
    }
}

/// The first index `>= i` at which `p` occurs in `s`, if any.
pub open spec fn find_from(s: Seq<char>, p: Seq<char>, i: int) -> Option<int>
    decreases s.len() - i,
{
    if i < 0 || i + p.len() > s.len() {
        None
    } else if s.subrange(i, i + p.len()) == p {
        Some(i)
    } else if i >= s.len() {
        None
    } else {
        find_from(s, p, i + 1)
    }
}

/// The first index at which `p` occurs in `s`, if any.
pub open spec fn find_first(s: Seq<char>, p: Seq<char>) -> Option<int> {
    find_from(s, p, 0)
}

/// The last index `< i` of `c` in `s`, if any.
pub open spec fn rfind_before(s: Seq<char>, c: char, i: int) -> Option<int>
    decreases i,
{
    if i <= 0 {
        None
    } else if s[i - 1] == c {
        Some(i - 1)
    } else {
        rfind_before(s, c, i - 1)
    }
}

/// The last index of `c` in `s`, if any.
pub open spec fn rfind_char(s: Seq<char>, c: char) -> Option<int> {
    rfind_before(s, c, s.len() as int)
}

/// The name with everything from the first `!important` on removed.
pub open spec fn strip_important(name: Seq<char>) -> Seq<char> {
    match find_first(name, "!important"@) {
        Some(idx) => name.subrange(0, idx),
        None => name,
    }
}

/// A property name split at its last `.` (when that `.` is not the first
/// character) into the property and a unit suffix.
pub open spec fn spec_parse_property(name: Seq<char>) -> (Seq<char>, Option<Seq<char>>) {
    let name = strip_important(name);
    match rfind_char(name, '.') {
        Some(u) => if u > 0 { (name.subrange(0, u), Some(name.skip(u + 1))) } else { (name, None) },
        None => (name, None),
    }
}

fn is_css_custom_property(name: &Vec<char>) -> (r: bool)
    ensures
        r == spec_is_css_custom_property(name@),
{
    let r = name.len() >= 2 && name[0] == '-' && name[1] == '-';
    proof {
        if name@.len() >= 2 {
            if r {
                assert(name@.subrange(0, 2) =~= seq!['-', '-']);
            } else {
                assert(name@.subrange(0, 2)[0] == name@[0]);
                assert(name@.subrange(0, 2)[1] == name@[1]);
            }
        }
    }
    r
}

/// Converts camelCase to kebab-case: every upper-case letter after the first
/// character becomes a hyphen followed by its lower-case form.
fn hyphenate(value: &Vec<char>) -> (r: Vec<char>)
    ensures
        r@ == spec_host_hyphenate(value@),
{
    let mut result: Vec<char> = Vec::new();
    let mut i: usize = 0;
    while i < value.len()
        invariant
            i <= value@.len(),
            result@ == spec_host_hyphenate(value@.subrange(0, i as int)),
        decreases value.len() - i,
    {
        let c = value[i];
        proof {
            assert(value@.subrange(0, i as int + 1).drop_last() =~= value@.subrange(0, i as int));
        }
        if 'A' <= c && c <= 'Z' && i > 0 {
            result.push('-');
            result.push(ascii_lower(c));
        } else {
            result.push(c);
        }
        i = i + 1;
    }
    assert(value@.subrange(0, value@.len() as int) =~= value@);
    result
}

/// Whether `p` occurs in `s` at index `i`.
fn occurs_at(s: &Vec<char>, i: usize, p: &Vec<char>) -> (r: bool)
    requires
        i + p@.len() <= s@.len(),
    ensures
        r == (s@.subrange(i as int, i + p@.len()) == p@),
{
    let mut j: usize = 0;
    while j < p.len()
        invariant
            i + p@.len() <= s@.len(),
            j <= p@.len(),
            forall|k: int| 0 <= k < j ==> s@[i + k] == p@[k],
        decreases p.len() - j,
    {
        let sl = s.len();
        assert(i + j < sl);
        if s[i + j] != p[j] {
            assert(s@.subrange(i as int, i + p@.len())[j as int] != p@[j as int]);
            return false;
        }
        j = j + 1;
    }
    assert(s@.subrange(i as int, i + p@.len()) =~= p@);
    true
}

fn strip_important_chars(name: &Vec<char>) -> (r: Vec<char>)
    ensures
        r@ == strip_important(name@),
{
    let pat = chars_of("!important");
    let ghost p = "!important"@;
    proof { reveal_strlit("!important"); }
    let mut i: usize = 0;
    while i <= name.len() && name.len() - i >= pat.len()
        invariant
            pat@ == p,
            p == "!important"@,
            p.len() == 10,
            i <= name@.len(),
            find_first(name@, p) == find_from(name@, p, i as int),
        decreases name.len() - i,
    {
        if occurs_at(name, i, &pat) {
            let r = copy_range(name, 0, i);
            assert(find_from(name@, p, i as int) == Some(i as int));
            return r;
        }
        i = i + 1;
    }
    name.clone()
}

/// Parses a property name, extracting any unit suffix: `width.px` gives
/// (`width`, `px`). Anything from the first `!important` on is dropped first.
fn parse_property(name: &Vec<char>) -> (r: (Vec<char>, Option<Vec<char>>))
    ensures
        r.0@ == spec_parse_property(name@).0,
        match (r.1, spec_parse_property(name@).1) {
            (Some(u), Some(v)) => u@ == v,
            (None, None) => true,
            _ => false,
        },
{
    let ghost orig = name@;
    let stripped = strip_important_chars(name);
    let ghost nm = stripped@;
    let mut i: usize = stripped.len();
    while i > 0
        invariant
            i <= nm.len(),
            stripped@ == nm,
            nm == strip_important(orig),
            orig == name@,
            rfind_char(nm, '.') == rfind_before(nm, '.', i as int),
        decreases i,
    {
        if stripped[i - 1] == '.' {
            let u = i - 1;
            assert(rfind_before(nm, '.', i as int) == Some(u as int));
            if u > 0 {
                let property = copy_range(&stripped, 0, u);
                let suffix = copy_range(&stripped, u + 1, stripped.len());
                assert(suffix@ =~= nm.skip(u + 1));
                assert(strip_important(orig) == nm);
                assert(rfind_char(nm, '.') == Some(u as int));
                assert(spec_parse_property(orig).0 == nm.subrange(0, u as int));
                assert(spec_parse_property(orig).1 == Some(nm.skip(u + 1)));
                return (property, Some(suffix));
            }
            return (stripped, None);
        }
        i = i - 1;
    }
    (stripped, None)
}

/// What the phase makes of a binding: its kind, name and unit.
pub open spec fn spec_host_style_binding(kind: BindingKind, name: Seq<char>, unit: Option<Seq<char>>)
    -> (BindingKind, Seq<char>, Option<Seq<char>>)
{
    if kind != BindingKind::Property {
        (kind, name, unit)
    } else {
        let n = if ends_with(name, "!important"@) { name.subrange(0, name.len() - 10) } else { name };
        if starts_with(n, "style."@) {
            let prop = n.skip(6);
            let hy = if !spec_is_css_custom_property(prop) { spec_host_hyphenate(prop) } else { prop };
            let parsed = spec_parse_property(hy);
            (BindingKind::StyleProperty, parsed.0, parsed.1)
        } else if starts_with(n, "style!"@) {
            (BindingKind::StyleProperty, "style"@, unit)
        } else if starts_with(n, "class."@) {
            (BindingKind::ClassName, spec_parse_property(n.skip(6)).0, unit)
        } else if starts_with(n, "class!"@) {
            (BindingKind::ClassName, spec_parse_property(n.skip(6)).0, unit)
        } else {
            (kind, name, unit)
        }
    }
}

/// The view of an optional string.
pub open spec fn opt_string_view(s: Option<String>) -> Option<Seq<char>> {
    match s {
        Some(x) => Some(x@),
        None => None,
    }
}

/// Whether `after` keeps every field of `before` but its kind, name and unit.
pub open spec fn binding_rest_kept(before: UpdateBindingOp, after: UpdateBindingOp) -> bool {
    &&& after.target == before.target
    &&& after.expression == before.expression
    &&& after.security_context == before.security_context
    &&& after.is_text_attribute == before.is_text_attribute
    &&& after.is_structural_template_attribute == before.is_structural_template_attribute
    &&& after.namespace == before.namespace
    &&& after.i18n_message == before.i18n_message
    &&& after.i18n_context == before.i18n_context
}

/// Whether `after` is `before` with the binding rewritten as the phase does:
/// only a property binding's kind, name and unit change.
pub open spec fn host_style_rewritten(before: UpdateOp, after: UpdateOp) -> bool {
    match before {
        UpdateOp::Binding(b) => after matches UpdateOp::Binding(a) && {
            let r = spec_host_style_binding(b.kind, b.name@, opt_string_view(b.unit));
            &&& a.kind == r.0
            &&& a.name@ == r.1
            &&& opt_string_view(a.unit) == r.2
            &&& binding_rest_kept(b, a)
            &&& b.kind != BindingKind::Property ==> a == b
        },
        _ => after == before,
    }
}

fn has_prefix(v: &Vec<char>, p: &str) -> (r: bool)
    ensures
        r == starts_with(v@, p@),
{
    let pc = chars_of(p);
    if pc.len() > v.len() {
        return false;
    }
    let r = occurs_at(v, 0, &pc);
    r
}

fn rewrite_binding(binding: &mut UpdateBindingOp)
    ensures
        ({
            let r = spec_host_style_binding(old(binding).kind, old(binding).name@, opt_string_view(old(binding).unit));
            &&& final(binding).kind == r.0
            &&& final(binding).name@ == r.1
            &&& opt_string_view(final(binding).unit) == r.2
            &&& binding_rest_kept(*old(binding), *final(binding))
            &&& old(binding).kind != BindingKind::Property ==> *final(binding) == *old(binding)
        }),
{
    if binding.kind != BindingKind::Property {
        return;
    }
    let full = chars_of(binding.name.as_str());
    let bang = chars_of("!important");
    let ends = bang.len() <= full.len() && occurs_at(&full, full.len() - bang.len(), &bang);
    assert(ends == ends_with(full@, "!important"@));
    proof { reveal_strlit("!important"); }
    let name = if ends { copy_range(&full, 0, full.len() - bang.len()) } else { copy_range(&full, 0, full.len()) };
    assert(full@.subrange(0, full@.len() as int) =~= full@);
    proof {
        reveal_strlit("style.");
        reveal_strlit("style!");
        reveal_strlit("class.");
        reveal_strlit("class!");
        reveal_strlit("style");
    }
    if has_prefix(&name, "style.") {
        binding.kind = BindingKind::StyleProperty;
        let prop = copy_range(&name, 6, name.len());
        assert(prop@ =~= name@.skip(6));
        let hyphenated = if !is_css_custom_property(&prop) { hyphenate(&prop) } else { prop };
        let (property, unit) = parse_property(&hyphenated);
        binding.name = string_of(&property);
        binding.unit = match unit {
            Some(u) => Some(string_of(&u)),
            None => None,
        };
    } else if has_prefix(&name, "style!") {
        binding.kind = BindingKind::StyleProperty;
        binding.name = String::from_str("style");
    } else if has_prefix(&name, "class.") {
        binding.kind = BindingKind::ClassName;
        let class_name = copy_range(&name, 6, name.len());
        assert(class_name@ =~= name@.skip(6));
        let (property, _) = parse_property(&class_name);
        binding.name = string_of(&property);
    } else if has_prefix(&name, "class!") {
        binding.kind = BindingKind::ClassName;
        let class_name = copy_range(&name, 6, name.len());
        assert(class_name@ =~= name@.skip(6));
        let (property, _) = parse_property(&class_name);
        binding.name = string_of(&property);
    }
}

fn parse_host_style_properties_in(update: &mut Vec<UpdateOp>)
    ensures
        final(update)@.len() == old(update)@.len(),
        forall|i: int| 0 <= i < old(update)@.len() ==> host_style_rewritten(#[trigger] old(update)@[i], final(update)@[i]),
{
    let n = update.len();
    let mut i: usize = 0;
    while i < n
        invariant
            n == update@.len(),
            n == old(update)@.len(),
            i <= n,
            forall|j: int| 0 <= j < i ==> host_style_rewritten(#[trigger] old(update)@[j], update@[j]),
            forall|j: int| i <= j < n ==> #[trigger] update@[j] == old(update)@[j],
        decreases n - i,
    {
        match &mut update[i] {
            UpdateOp::Binding(binding) => {
                rewrite_binding(binding);
            },
            _ => {},
        }
        i = i + 1;
    }
}

/// Parses host style property bindings in the root view of a template job.
pub fn parse_host_style_properties(job: &mut ComponentCompilationJob)
    ensures
        final(job).root.update@.len() == old(job).root.update@.len(),
        forall|i: int| 0 <= i < old(job).root.update@.len()
            ==> host_style_rewritten(#[trigger] old(job).root.update@[i], final(job).root.update@[i]),
        final(job).root.create == old(job).root.create,
        final(job).root.xref == old(job).root.xref,
        final(job).root.decl_count == old(job).root.decl_count,
        final(job).root.functions == old(job).root.functions,
        final(job).views == old(job).views,
        final(job).consts == old(job).consts,
        final(job).diagnostics == old(job).diagnostics,
        final(job).next_xref == old(job).next_xref,
        final(job).compatibility_mode == old(job).compatibility_mode,
        final(job).mode == old(job).mode,
        final(job).enable_debug_locations == old(job).enable_debug_locations,
        final(job).relative_template_path == old(job).relative_template_path,
        final(job).template_source == old(job).template_source,
{
    parse_host_style_properties_in(&mut job.root.update);
}

/// Whether the host job `after` is `before` with its style property bindings parsed.
pub open spec fn host_job_styles_rewritten(before: HostBindingCompilationJob, after: HostBindingCompilationJob) -> bool {
    &&& after.root.update@.len() == before.root.update@.len()
    &&& forall|i: int| 0 <= i < before.root.update@.len()
        ==> host_style_rewritten(#[trigger] before.root.update@[i], after.root.update@[i])
    &&& after.root.create == before.root.create
    &&& after.diagnostics == before.diagnostics
    &&& host_frame_kept(before, after)
}

/// Parses host style property bindings of a host-binding job.
pub fn parse_host_style_properties_for_host(job: &mut HostBindingCompilationJob)
    ensures
        host_job_styles_rewritten(*old(job), *final(job)),
{
    parse_host_style_properties_in(&mut job.root.update);
}

proof fn lemma_find_from_absent(s: Seq<char>, p: Seq<char>, i: int)
    requires
        p.len() > 0,
        forall|k: int| 0 <= k < s.len() ==> s[k] != p[0],
    ensures
        find_from(s, p, i) is None,
    decreases s.len() - i,
{
    if i < 0 || i + p.len() > s.len() {
    } else {
        assert(s.subrange(i, i + p.len())[0] == s[i]);
        if i < s.len() {
            lemma_find_from_absent(s, p, i + 1);
        }
    }
}

proof fn lemma_rfind_before_absent(s: Seq<char>, c: char, i: int)
    requires
        i <= s.len(),
        forall|k: int| 0 <= k < s.len() ==> s[k] != c,
    ensures
        rfind_before(s, c, i) is None,
    decreases i,
{
    if i > 0 {
        lemma_rfind_before_absent(s, c, i - 1);
    }
}

/// A host binding to `class.` followed by a class name (with no `.` and no
/// `!`) becomes a class-name binding to exactly that name, as written: class
/// names are not hyphenated, and the unit stays as it was.
pub proof fn law_host_class_binding_keeps_name(before: UpdateOp, after: UpdateOp, c: Seq<char>)
    requires
        host_style_rewritten(before, after),
        before matches UpdateOp::Binding(b) && b.kind == BindingKind::Property && b.name@ == "class."@ + c,
        forall|k: int| 0 <= k < c.len() ==> c[k] != '.' && c[k] != '!',
    ensures
        after matches UpdateOp::Binding(a) && a.kind == BindingKind::ClassName && a.name@ == c
            && opt_string_view(a.unit) == opt_string_view(before->Binding_0.unit),
{
    reveal_strlit("class.");
    reveal_strlit("style.");
    reveal_strlit("style!");
    reveal_strlit("!important");
    let b = before->Binding_0;
    let name = b.name@;
    assert(forall|k: int| 0 <= k < name.len() ==> name[k] != '!') by {
        assert forall|k: int| 0 <= k < name.len() implies name[k] != '!' by {
            if k >= 6 {
                assert(name[k] == c[k - 6]);
            }
        }
    }
    if ends_with(name, "!important"@) {
        let t = name.subrange(name.len() - 10, name.len() as int);
        assert(t[0] == '!');
        assert(name[name.len() - 10] == '!');
    }
    assert(name.subrange(0, 6) =~= "class."@);
    assert(!starts_with(name, "style."@)) by {
        if starts_with(name, "style."@) {
            assert(name.subrange(0, 6)[0] == 's');
        }
    }
    assert(!starts_with(name, "style!"@)) by {
        if starts_with(name, "style!"@) {
            assert(name.subrange(0, 6)[0] == 's');
        }
    }
    assert(name.skip(6) =~= c);
    lemma_find_from_absent(c, "!important"@, 0);
    assert(strip_important(c) == c);
    lemma_rfind_before_absent(c, '.', c.len() as int);
}

proof fn lemma_host_hyphenate_shape(s: Seq<char>)
    ensures
        s.len() == 0 <==> spec_host_hyphenate(s).len() == 0,
        s.len() > 0 ==> spec_host_hyphenate(s)[0] == s[0],
        forall|k: int| 1 <= k < spec_host_hyphenate(s).len() ==> !is_upper(#[trigger] spec_host_hyphenate(s)[k]),
        forall|k: int| 0 <= k < spec_host_hyphenate(s).len() ==> (#[trigger] spec_host_hyphenate(s)[k] == '.' || spec_host_hyphenate(s)[k] == '!')
            ==> exists|j: int| 0 <= j < s.len() && s[j] == spec_host_hyphenate(s)[k],
        (forall|k: int| 0 <= k < s.len() ==> !is_upper(#[trigger] s[k])) ==> spec_host_hyphenate(s) == s,
    decreases s.len(),
{
    if s.len() > 0 {
        let t = s.drop_last();
        lemma_host_hyphenate_shape(t);
        let h = spec_host_hyphenate(s);
        let ht = spec_host_hyphenate(t);
        let c = s.last();
        if c as u32 >= 65 && c as u32 <= 90 {
            assert(!is_upper(to_lower(c)));
        }
        assert forall|k: int| 0 <= k < h.len() && (#[trigger] h[k] == '.' || h[k] == '!')
            implies exists|j: int| 0 <= j < s.len() && s[j] == h[k] by {
            if k < ht.len() {
                let j = choose|j: int| 0 <= j < t.len() && t[j] == ht[k];
                assert(s[j] == t[j]);
            } else {
                assert(s[s.len() - 1] == c);
                if is_upper(c) && s.len() > 1 {
                    assert(h[k] == '-' || h[k] == to_lower(c));
                    assert(h[k] == to_lower(c) ==> h[k] == c || is_upper(c));
                } else {
                    assert(h[k] == c);
                }
            }
        }
        if forall|k: int| 0 <= k < s.len() ==> !is_upper(#[trigger] s[k]) {
            assert forall|k: int| 0 <= k < t.len() implies !is_upper(#[trigger] t[k]) by {
                assert(t[k] == s[k]);
            }
            assert(!is_upper(s[s.len() - 1]));
            assert(h =~= s);
        }
    }
}

proof fn lemma_no_bang(name: Seq<char>)
    requires
        forall|k: int| 0 <= k < name.len() ==> name[k] != '!',
    ensures
        !ends_with(name, "!important"@),
        strip_important(name) == name,
{
    reveal_strlit("!important");
    if ends_with(name, "!important"@) {
        let t = name.subrange(name.len() - 10, name.len() as int);
        assert(t[0] == '!');
        assert(name[name.len() - 10] == '!');
    }
    lemma_find_from_absent(name, "!important"@, 0);
}

/// A host binding to `style.` followed by a property name (with no `.`, no
/// `!`, not a `--` custom property) becomes a style-property binding without
/// unit, named by the property in kebab case: its first character stays, and
/// no upper-case letter is left after it; a name without upper-case letters is
/// kept as written.
pub proof fn law_host_style_binding_is_kebab_case(before: UpdateOp, after: UpdateOp, p: Seq<char>)
    requires
        host_style_rewritten(before, after),
        before matches UpdateOp::Binding(b) && b.kind == BindingKind::Property && b.name@ == "style."@ + p,
        p.len() > 0,
        p[0] != '-',
        forall|k: int| 0 <= k < p.len() ==> p[k] != '.' && p[k] != '!',
    ensures
        after matches UpdateOp::Binding(a) && a.kind == BindingKind::StyleProperty && a.unit is None && {
            &&& a.name@.len() > 0
            &&& a.name@[0] == p[0]
            &&& forall|k: int| 1 <= k < a.name@.len() ==> !is_upper(#[trigger] a.name@[k])
            &&& (forall|k: int| 0 <= k < p.len() ==> !is_upper(#[trigger] p[k])) ==> a.name@ == p
        },
{
    reveal_strlit("style.");
    let b = before->Binding_0;
    let name = b.name@;
    assert forall|k: int| 0 <= k < name.len() implies name[k] != '!' by {
        if k >= 6 {
            assert(name[k] == p[k - 6]);
        }
    }
    lemma_no_bang(name);
    assert(name.subrange(0, 6) =~= "style."@);
    assert(name.skip(6) =~= p);
    assert(!spec_is_css_custom_property(p)) by {
        if spec_is_css_custom_property(p) {
            assert(p.subrange(0, 2)[0] == '-');
        }
    }
    let h = spec_host_hyphenate(p);
    lemma_host_hyphenate_shape(p);
    assert forall|k: int| 0 <= k < h.len() implies h[k] != '.' && h[k] != '!' by {
        if h[k] == '.' || h[k] == '!' {
            let j = choose|j: int| 0 <= j < p.len() && p[j] == h[k];
        }
    }
    lemma_no_bang(h);
    lemma_rfind_before_absent(h, '.', h.len() as int);
}

/// A host binding to `style.` followed by a lower-case property name, a `.`
/// and a lower-case unit (none of them holding a `.` or a `!`) becomes a
/// style-property binding to that property, with that unit.
pub proof fn law_host_style_binding_splits_unit(before: UpdateOp, after: UpdateOp, p: Seq<char>, u: Seq<char>)
    requires
        host_style_rewritten(before, after),
        before matches UpdateOp::Binding(b) && b.kind == BindingKind::Property && b.name@ == "style."@ + p + seq!['.'] + u,
        p.len() > 0,
        p[0] != '-',
        forall|k: int| 0 <= k < p.len() ==> p[k] != '.' && p[k] != '!' && !is_upper(p[k]),
        forall|k: int| 0 <= k < u.len() ==> u[k] != '.' && u[k] != '!' && !is_upper(u[k]),
    ensures
        after matches UpdateOp::Binding(a) && a.kind == BindingKind::StyleProperty && a.name@ == p && opt_string_view(a.unit) == Some(u),
{
    reveal_strlit("style.");
    let b = before->Binding_0;
    let name = b.name@;
    let prop = p + seq!['.'] + u;
    assert forall|k: int| 0 <= k < name.len() implies name[k] != '!' by {
        if k >= 6 {
            assert(name[k] == prop[k - 6]);
            if k - 6 < p.len() {
                assert(prop[k - 6] == p[k - 6]);
            } else if k - 6 > p.len() {
                assert(prop[k - 6] == u[k - 7 - p.len()]);
            }
        }
    }
    lemma_no_bang(name);
    assert(name.subrange(0, 6) =~= "style."@);
    assert(name.skip(6) =~= prop);
    assert(!spec_is_css_custom_property(prop)) by {
        if spec_is_css_custom_property(prop) {
            assert(prop.subrange(0, 2)[0] == '-');
            assert(prop[0] == p[0]);
        }
    }
    assert forall|k: int| 0 <= k < prop.len() implies !is_upper(#[trigger] prop[k]) && prop[k] != '!' by {
        if k < p.len() {
            assert(prop[k] == p[k]);
        } else if k > p.len() {
            assert(prop[k] == u[k - 1 - p.len()]);
        }
    }
    lemma_host_hyphenate_shape(prop);
    assert(spec_host_hyphenate(prop) == prop);
    lemma_no_bang(prop);
    let dot = p.len() as int;
    assert(prop[dot] == '.');
    assert forall|k: int| dot < k < prop.len() implies prop[k] != '.' by {
        assert(prop[k] == u[k - 1 - p.len()]);
    }
    lemma_rfind_last(prop, '.', dot, prop.len() as int);
    assert(prop.subrange(0, dot) =~= p);
    assert(prop.skip(dot + 1) =~= u);
}

proof fn lemma_rfind_last(s: Seq<char>, c: char, d: int, i: int)
    requires
        0 <= d < i <= s.len(),
        s[d] == c,
        forall|k: int| d < k < s.len() ==> s[k] != c,
    ensures
        rfind_before(s, c, i) == Some(d),
    decreases i,
{
    if i - 1 != d {
        lemma_rfind_last(s, c, d, i - 1);
    }
}

/// A trailing `!important` on a host style or class binding is dropped: a
/// binding to `style.` + a lower-case property + `!important` becomes a
/// style-property binding to that property, and one to `class.` + a class
/// name + `!important` a class-name binding to that name.
pub proof fn law_host_important_is_dropped(before: UpdateOp, after: UpdateOp, style: bool, p: Seq<char>)
    requires
        host_style_rewritten(before, after),
        before matches UpdateOp::Binding(b) && b.kind == BindingKind::Property
            && b.name@ == (if style { "style."@ } else { "class."@ }) + p + "!important"@,
        p.len() > 0,
        p[0] != '-',
        forall|k: int| 0 <= k < p.len() ==> p[k] != '.' && p[k] != '!' && !is_upper(p[k]),
    ensures
        after matches UpdateOp::Binding(a) && a.name@ == p
            && a.kind == (if style { BindingKind::StyleProperty } else { BindingKind::ClassName }),
{
    reveal_strlit("style.");
    reveal_strlit("class.");
    reveal_strlit("style!");
    reveal_strlit("!important");
    let b = before->Binding_0;
    let name = b.name@;
    let pre: Seq<char> = if style { "style."@ } else { "class."@ };
    assert(name.subrange(name.len() - 10, name.len() as int) =~= "!important"@);
    let n = name.subrange(0, name.len() - 10);
    assert(n =~= pre + p);
    assert forall|k: int| 0 <= k < n.len() implies n[k] != '!' by {
        if k >= 6 {
            assert(n[k] == p[k - 6]);
        }
    }
    assert(n.subrange(0, 6) =~= pre);
    assert(n.skip(6) =~= p);
    if style {
        assert(!spec_is_css_custom_property(p)) by {
            if spec_is_css_custom_property(p) {
                assert(p.subrange(0, 2)[0] == '-');
            }
        }
        lemma_host_hyphenate_shape(p);
    } else {
        assert(!starts_with(n, "style."@)) by {
            if starts_with(n, "style."@) {
                assert(n.subrange(0, 6)[0] == 's');
            }
        }
        assert(!starts_with(n, "style!"@)) by {
            if starts_with(n, "style!"@) {
                assert(n.subrange(0, 6)[0] == 's');
            }
        }
    }
    lemma_no_bang(p);
    lemma_rfind_before_absent(p, '.', p.len() as int);
}

} // verus!
