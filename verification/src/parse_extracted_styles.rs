//! Parse extracted styles phase.
//!
//! Splits an extracted `style="color: red; height: auto"` attribute into one
//! style-property attribute per declaration, and `class="foo bar"` into one
//! class-name attribute per class.

use vstd::prelude::*;
use rustc_hash::FxHashSet;
use crate::fx::{fx_set_contains, fx_set_insert, fx_set_new};
use crate::ir::{host_frame_kept, 
    AngularExpression, BindingKind, ComponentCompilationJob, CreateOp, ExtractedAttributeOp,
    HostBindingCompilationJob, IrExpression, LiteralValue, OutputExpression, SecurityContext,
    TemplateKind, ViewCompilationUnit, XrefId,
};
use crate::text::{ascii_lower, chars_of, is_lower, is_upper, push_chars, str_eq, string_of, to_lower};

verus! {

/// Unicode white space (`char::is_whitespace`).
pub open spec fn is_ws(c: char) -> bool {
    ('\u{9}' <= c <= '\u{d}') || c == ' ' || c == '\u{85}' || c == '\u{a0}' || c == '\u{1680}'
        || ('\u{2000}' <= c <= '\u{200a}') || c == '\u{2028}' || c == '\u{2029}' || c == '\u{202f}'
        || c == '\u{205f}' || c == '\u{3000}'
}

fn is_whitespace(c: char) -> (r: bool)
    ensures
        r == is_ws(c),
{
    ('\u{9}' <= c && c <= '\u{d}') || c == ' ' || c == '\u{85}' || c == '\u{a0}' || c == '\u{1680}'
        || ('\u{2000}' <= c && c <= '\u{200a}') || c == '\u{2028}' || c == '\u{2029}' || c == '\u{202f}'
        || c == '\u{205f}' || c == '\u{3000}'
}

/// `s` without leading white space.
pub open spec fn trim_start(s: Seq<char>) -> Seq<char>
    decreases s.len(),
{
    if s.len() > 0 && is_ws(s[0]) { trim_start(s.skip(1)) } else { s }
}

/// `s` without trailing white space.
pub open spec fn trim_end(s: Seq<char>) -> Seq<char>
    decreases s.len(),
{
    if s.len() > 0 && is_ws(s.last()) { trim_end(s.drop_last()) } else { s }
}

/// `s` without leading and trailing white space.
pub open spec fn trim(s: Seq<char>) -> Seq<char> {
    trim_end(trim_start(s))
}

/// Trims white space from both ends.
fn trim_chars(s: &Vec<char>) -> (r: Vec<char>)
    ensures
        r@ == trim(s@),
{
    let mut start: usize = 0;
    assert(s@.skip(0) =~= s@);
    while start < s.len() && is_whitespace(s[start])
        invariant
            start <= s@.len(),
            trim_start(s@) == trim_start(s@.skip(start as int)),
        decreases s.len() - start,
    {
        proof {
            assert(s@.skip(start as int).skip(1) =~= s@.skip(start + 1));
        }
        start = start + 1;
    }
    let mut end: usize = s.len();
    assert(trim_start(s@) == s@.skip(start as int));
    assert(s@.skip(start as int) =~= s@.subrange(start as int, end as int));
    while end > start && is_whitespace(s[end - 1])
        invariant
            start <= end <= s@.len(),
            trim(s@) == trim_end(s@.subrange(start as int, end as int)),
        decreases end,
    {
        proof {
            assert(s@.subrange(start as int, end as int).drop_last() =~= s@.subrange(start as int, end - 1));
        }
        end = end - 1;
    }
    let mut r: Vec<char> = Vec::new();
    let mut k: usize = start;
    while k < end
        invariant
            start <= k <= end,
            end <= s@.len(),
            r@ == s@.subrange(start as int, k as int),
        decreases end - k,
    {
        r.push(s[k]);
        k = k + 1;
        assert(r@ =~= s@.subrange(start as int, k as int));
    }
    r
}

/// The camelCase-to-kebab-case conversion of style property names: a hyphen
/// before each upper-case letter that follows a lower-case letter, and
/// everything lower-cased.
pub open spec fn spec_hyphenate(s: Seq<char>) -> Seq<char>
    decreases s.len(),
{
    if s.len() == 0 {
        seq![]
    } else {
        let i = s.len() - 1;
        let c = s[i];
        let prefix = spec_hyphenate(s.drop_last());
        if is_upper(c) && i > 0 && is_lower(s[i - 1]) {
            prefix.push('-').push(to_lower(c))
        } else {
            prefix.push(to_lower(c))
        }
    }
}

proof fn lemma_lower_not_upper(c: char)
    ensures
        !is_upper(to_lower(c)),
{
    if is_upper(c) {
        assert(97 <= (c as u32) + 32 <= 122);
        assert(('a' as u32) == 97 && ('z' as u32) == 122);
    }
}

/// Hyphenating leaves no ASCII upper-case letter.
pub proof fn law_hyphenate_no_upper(s: Seq<char>)
    ensures
        forall|i: int| 0 <= i < spec_hyphenate(s).len() ==> !is_upper(#[trigger] spec_hyphenate(s)[i]),
    decreases s.len(),
{
    if s.len() > 0 {
        law_hyphenate_no_upper(s.drop_last());
        lemma_lower_not_upper(s.last());
        let p = spec_hyphenate(s.drop_last());
        assert forall|i: int| 0 <= i < spec_hyphenate(s).len() implies !is_upper(#[trigger] spec_hyphenate(s)[i]) by {
            if i < p.len() {
                assert(spec_hyphenate(s)[i] == p[i]);
            }
        }
    }
}

proof fn lemma_hyphenate_lower_fixed(t: Seq<char>)
    requires
        forall|i: int| 0 <= i < t.len() ==> !is_upper(#[trigger] t[i]),
    ensures
        spec_hyphenate(t) == t,
    decreases t.len(),
{
    if t.len() > 0 {
        lemma_hyphenate_lower_fixed(t.drop_last());
        assert(!is_upper(t[t.len() - 1]));
        assert(t.drop_last().push(t.last()) =~= t);
    }
}

/// Hyphenating twice is hyphenating once.
pub proof fn law_hyphenate_idempotent(s: Seq<char>)
    ensures
        spec_hyphenate(spec_hyphenate(s)) == spec_hyphenate(s),
{
    law_hyphenate_no_upper(s);
    lemma_hyphenate_lower_fixed(spec_hyphenate(s));
}

fn hyphenate_chars(chars: &Vec<char>) -> (r: Vec<char>)
    ensures
        r@ == spec_hyphenate(chars@),
{
    let mut result: Vec<char> = Vec::new();
    let n = chars.len();
    let mut i: usize = 0;
    while i < n
        invariant
            n == chars@.len(),
            i <= n,
            result@ == spec_hyphenate(chars@.subrange(0, i as int)),
        decreases n - i,
    {
        let c = chars[i];
        assert(chars@.subrange(0, i as int + 1).drop_last() == chars@.subrange(0, i as int));
        if 'A' <= c && c <= 'Z' && i > 0 && 'a' <= chars[i - 1] && chars[i - 1] <= 'z' {
            result.push('-');
        }
        result.push(ascii_lower(c));
        i = i + 1;
    }
    assert(chars@.subrange(0, n as int) == chars@);
    result
}

/// Converts camelCase to kebab-case (`backgroundColor` becomes
/// `background-color`): a hyphen goes before each upper-case letter that
/// follows a lower-case one, and the whole string is lower-cased.
pub fn hyphenate(value: &str) -> (r: String)
    ensures
        r@ == spec_hyphenate(value@),
{
    let chars = chars_of(value);
    let h = hyphenate_chars(&chars);
    string_of(&h)
}

/// The state of the style-string scanner.
pub struct StyleScan {
    pub styles: Seq<(Seq<char>, Seq<char>)>,
    pub depth: int,
    pub quote: Option<char>,
    pub prop: Seq<char>,
    pub val: Seq<char>,
    pub in_value: bool,
    pub prev: char,
}

/// A declaration is kept when both its hyphenated, trimmed property and its
/// trimmed value are non-empty.
pub open spec fn finish_decl(styles: Seq<(Seq<char>, Seq<char>)>, prop: Seq<char>, val: Seq<char>) -> Seq<(Seq<char>, Seq<char>)> {
    let p = spec_hyphenate(trim(prop));
    let v = trim(val);
    if p.len() > 0 && v.len() > 0 { styles.push((p, v)) } else { styles }
}

/// Appends a character to the value or to the property, whichever is being read.
pub open spec fn append_char(st: StyleScan, ch: char) -> StyleScan {
    if st.in_value {
        StyleScan { val: st.val.push(ch), ..st }
    } else {
        StyleScan { prop: st.prop.push(ch), ..st }
    }
}

/// One step of the style-string scanner. Parentheses nest, quotes (not escaped
/// by a preceding backslash) open and close strings, a `:` outside quotes and
/// parentheses starts the value, and a `;` outside them ends the declaration.
pub open spec fn style_step(st: StyleScan, ch: char) -> StyleScan {
    let nx = if ch == '(' {
        append_char(StyleScan { depth: st.depth + 1, ..st }, ch)
    } else if ch == ')' {
        append_char(StyleScan { depth: st.depth - 1, ..st }, ch)
    } else if ch == '\'' || ch == '"' {
        let q = if st.quote is None {
            Some(ch)
        } else if st.quote == Some(ch) && st.prev != '\\' {
            None
        } else {
            st.quote
        };
        append_char(StyleScan { quote: q, ..st }, ch)
    } else if ch == ':' {
        if st.quote is None && st.depth == 0 && !st.in_value {
            StyleScan { in_value: true, ..st }
        } else {
            append_char(st, ch)
        }
    } else if ch == ';' {
        if st.quote is None && st.depth == 0 {
            StyleScan {
                styles: finish_decl(st.styles, st.prop, st.val),
                prop: seq![],
                val: seq![],
                in_value: false,
                ..st
            }
        } else {
            append_char(st, ch)
        }
    } else {
        append_char(st, ch)
    };
    StyleScan { prev: ch, ..nx }
}

/// The scanner state after reading `s`.
pub open spec fn style_scan(s: Seq<char>) -> StyleScan
    decreases s.len(),
{
    if s.len() == 0 {
        StyleScan { styles: seq![], depth: 0, quote: None, prop: seq![], val: seq![], in_value: false, prev: '\0' }
    } else {
        style_step(style_scan(s.drop_last()), s.last())
    }
}

/// The `(property, value)` declarations of a CSS style string.
pub open spec fn spec_parse_style_string(s: Seq<char>) -> Seq<(Seq<char>, Seq<char>)> {
    let st = style_scan(s);
    finish_decl(st.styles, st.prop, st.val)
}

/// Pairs of strings and their views agree.
pub open spec fn pairs_match(r: Seq<(String, String)>, v: Seq<(Seq<char>, Seq<char>)>) -> bool {
    &&& r.len() == v.len()
    &&& forall|i: int| 0 <= i < r.len() ==> (#[trigger] r[i]).0@ == v[i].0 && r[i].1@ == v[i].1
}

fn finish_declaration(styles: &mut Vec<(String, String)>, prop: &Vec<char>, val: &Vec<char>)
    ensures
        ({
            let ghost_old = old(styles)@;
            forall|v: Seq<(Seq<char>, Seq<char>)>| pairs_match(ghost_old, v) ==> pairs_match(final(styles)@, finish_decl(v, prop@, val@))
        }),
{
    let p = hyphenate_chars(&trim_chars(prop));
    let v = trim_chars(val);
    if p.len() > 0 && v.len() > 0 {
        styles.push((string_of(&p), string_of(&v)));
        proof {
            assert forall|w: Seq<(Seq<char>, Seq<char>)>| pairs_match(old(styles)@, w)
                implies pairs_match(styles@, finish_decl(w, prop@, val@)) by {
                let f = finish_decl(w, prop@, val@);
                assert forall|i: int| 0 <= i < styles@.len() implies (#[trigger] styles@[i]).0@ == f[i].0 && styles@[i].1@ == f[i].1 by {
                    if i < old(styles)@.len() {
                        assert(styles@[i] == old(styles)@[i]);
                    }
                }
            }
        }
    }
}

/// Parses a CSS style string into `(property, value)` pairs, handling
/// parentheses (`url(foo.png)`) and quoted values (`'hello'`). Property names
/// are trimmed and hyphenated, values trimmed; empty declarations are dropped.
fn parse_style_string(value: &str) -> (r: Vec<(String, String)>)
    ensures
        pairs_match(r@, spec_parse_style_string(value@)),
{
    let chars = chars_of(value);
    let mut styles: Vec<(String, String)> = Vec::new();
    let mut paren_depth: i128 = 0;
    let mut quote_char: Option<char> = None;
    let mut current_prop: Vec<char> = Vec::new();
    let mut current_value: Vec<char> = Vec::new();
    let mut in_value = false;
    let mut prev_char = '\0';
    let mut i: usize = 0;
    while i < chars.len()
        invariant
            chars@ == value@,
            i <= chars@.len(),
            ({
                let st = style_scan(value@.subrange(0, i as int));
                &&& pairs_match(styles@, st.styles)
                &&& paren_depth == st.depth
                &&& quote_char == st.quote
                &&& current_prop@ == st.prop
                &&& current_value@ == st.val
                &&& in_value == st.in_value
                &&& prev_char == st.prev
            }),
            -(i as int) <= paren_depth <= i,
        decreases chars.len() - i,
    {
        let ch = chars[i];
        let ghost st0 = style_scan(value@.subrange(0, i as int));
        proof {
            assert(value@.subrange(0, i as int + 1).drop_last() =~= value@.subrange(0, i as int));
            assert(value@.subrange(0, i as int + 1).last() == ch);
        }
        if ch == '(' {
            paren_depth = paren_depth + 1;
            if in_value { current_value.push(ch); } else { current_prop.push(ch); }
        } else if ch == ')' {
            paren_depth = paren_depth - 1;
            if in_value { current_value.push(ch); } else { current_prop.push(ch); }
        } else if ch == '\'' || ch == '"' {
            if quote_char.is_none() {
                quote_char = Some(ch);
            } else if quote_char == Some(ch) && prev_char != '\\' {
                quote_char = None;
            }
            if in_value { current_value.push(ch); } else { current_prop.push(ch); }
        } else if ch == ':' {
            if quote_char.is_none() && paren_depth == 0 && !in_value {
                in_value = true;
            } else if in_value {
                current_value.push(ch);
            } else {
                current_prop.push(ch);
            }
        } else if ch == ';' {
            if quote_char.is_none() && paren_depth == 0 {
                finish_declaration(&mut styles, &current_prop, &current_value);
                current_prop = Vec::new();
                current_value = Vec::new();
                in_value = false;
            } else if in_value {
                current_value.push(ch);
            } else {
                current_prop.push(ch);
            }
        } else {
            if in_value { current_value.push(ch); } else { current_prop.push(ch); }
        }
        prev_char = ch;
        i = i + 1;
    }
    assert(value@.subrange(0, chars@.len() as int) =~= value@);
    finish_declaration(&mut styles, &current_prop, &current_value);
    styles
}

/// The white-space separated words of `s`.
pub open spec fn ws_words(s: Seq<char>) -> Seq<Seq<char>>
    decreases s.len(),
{
    if s.len() == 0 {
        seq![]
    } else {
        let w = ws_words(s.drop_last());
        let c = s.last();
        if is_ws(c) {
            w
        } else if s.len() >= 2 && !is_ws(s[s.len() - 2]) {
            w.update(w.len() - 1, w.last().push(c))
        } else {
            w.push(seq![c])
        }
    }
}

/// The class names of a `class` attribute value: its white-space separated
/// words, or a single empty name when the value is blank.
pub open spec fn spec_parse_classes(v: Seq<char>) -> Seq<Seq<char>> {
    if trim(v).len() == 0 { seq![seq![]] } else { ws_words(trim(v)) }
}

/// Splits characters into their white-space separated words.
fn split_whitespace(s: &Vec<char>) -> (r: Vec<Vec<char>>)
    ensures
        r@.len() == ws_words(s@).len(),
        forall|i: int| 0 <= i < r@.len() ==> (#[trigger] r@[i])@ == ws_words(s@)[i],
{
    let mut done: Vec<Vec<char>> = Vec::new();
    let mut cur: Vec<char> = Vec::new();
    let mut i: usize = 0;
    while i < s.len()
        invariant
            i <= s@.len(),
            ({
                let w = ws_words(s@.subrange(0, i as int));
                let open = i > 0 && !is_ws(s@[i - 1]);
                &&& if open { w.len() == done@.len() + 1 && cur@ == w.last() } else { w.len() == done@.len() && cur@.len() == 0 }
                &&& forall|j: int| 0 <= j < done@.len() ==> (#[trigger] done@[j])@ == w[j]
            }),
        decreases s.len() - i,
    {
        let c = s[i];
        proof {
            assert(s@.subrange(0, i as int + 1).drop_last() =~= s@.subrange(0, i as int));
            assert(s@.subrange(0, i as int + 1).last() == c);
            if i > 0 {
                assert(s@.subrange(0, i as int + 1)[i - 1] == s@[i - 1]);
            }
        }
        if is_whitespace(c) {
            if i > 0 && !is_whitespace(s[i - 1]) {
                let mut fresh: Vec<char> = Vec::new();
                std::mem::swap(&mut cur, &mut fresh);
                done.push(fresh);
            }
        } else {
            cur.push(c);
        }
        i = i + 1;
    }
    assert(s@.subrange(0, s@.len() as int) =~= s@);
    if s.len() > 0 && !is_whitespace(s[s.len() - 1]) {
        done.push(cur);
    }
    done
}

/// Parses a `class` attribute value into class names.
fn parse_classes(value: &Vec<char>) -> (r: Vec<Vec<char>>)
    ensures
        r@.len() == spec_parse_classes(value@).len(),
        forall|i: int| 0 <= i < r@.len() ==> (#[trigger] r@[i])@ == spec_parse_classes(value@)[i],
{
    let trimmed = trim_chars(value);
    if trimmed.len() == 0 {
        let mut r: Vec<Vec<char>> = Vec::new();
        r.push(Vec::new());
        assert(r@[0]@ =~= seq![]);
        r
    } else {
        split_whitespace(&trimmed)
    }
}

/// The string of a literal string expression, whether it is a template-syntax
/// literal or an output literal.
pub open spec fn string_value(e: IrExpression) -> Option<Seq<char>> {
    match e {
        IrExpression::Ast(a) => match *a {
            AngularExpression::LiteralPrimitive(LiteralValue::String(s)) => Some(s@),
            _ => None,
        },
        IrExpression::OutputExpr(o) => match *o {
            OutputExpression::Literal(LiteralValue::String(s)) => Some(s@),
            _ => None,
        },
        _ => None,
    }
}

/// Extracts the string of a literal string expression.
fn extract_string_value(expr: &IrExpression) -> (r: Option<Vec<char>>)
    ensures
        match (r, string_value(*expr)) {
            (Some(a), Some(b)) => a@ == b,
            (None, None) => true,
            _ => false,
        },
{
    match expr {
        IrExpression::Ast(a) => match &**a {
            AngularExpression::LiteralPrimitive(LiteralValue::String(s)) => Some(chars_of(s.as_str())),
            _ => None,
        },
        IrExpression::OutputExpr(o) => match &**o {
            OutputExpression::Literal(LiteralValue::String(s)) => Some(chars_of(s.as_str())),
            _ => None,
        },
        _ => None,
    }
}

/// A description of an extracted attribute created by the phase.
pub struct AttrDesc {
    pub target: XrefId,
    pub kind: BindingKind,
    pub name: Seq<char>,
    pub value: Option<Seq<char>>,
    pub security: SecurityContext,
}

/// Whether `op` is the extracted attribute that `d` describes (a value is a
/// template-syntax string literal).
pub open spec fn op_is_desc(op: CreateOp, d: AttrDesc) -> bool {
    op matches CreateOp::ExtractedAttribute(a) && {
        &&& a.target == d.target
        &&& a.binding_kind == d.kind
        &&& a.name@ == d.name
        &&& a.security_context == d.security
        &&& a.namespace is None
        &&& !a.truthy_expression
        &&& a.i18n_context is None
        &&& a.i18n_message is None
        &&& match d.value {
            None => a.value is None,
            Some(v) => a.value matches Some(e) && string_value(e) == Some(v) && e is Ast,
        }
    }
}

/// A `style` or `class` attribute (not on a structural template) that the phase replaces.
pub open spec fn removable(op: CreateOp, structural: Set<u32>) -> bool {
    op matches CreateOp::ExtractedAttribute(a) && a.binding_kind == BindingKind::Attribute
        && (a.name@ == "style"@ || a.name@ == "class"@) && !structural.contains(a.target.0)
}

/// The attributes the phase creates for one operation.
pub open spec fn descs_for(op: CreateOp, structural: Set<u32>) -> Seq<AttrDesc> {
    match op {
        CreateOp::ExtractedAttribute(a) => if removable(op, structural) && a.value is Some
            && string_value(a.value->0) is Some {
            let sv = string_value(a.value->0)->0;
            if a.name@ == "style"@ {
                let ps = spec_parse_style_string(sv);
                Seq::new(ps.len(), |i: int| AttrDesc {
                    target: a.target,
                    kind: BindingKind::StyleProperty,
                    name: ps[i].0,
                    value: Some(ps[i].1),
                    security: SecurityContext::Style,
                })
            } else {
                let cs = spec_parse_classes(sv);
                Seq::new(cs.len(), |i: int| AttrDesc {
                    target: a.target,
                    kind: BindingKind::ClassName,
                    name: cs[i],
                    value: None,
                    security: SecurityContext::NoContext,
                })
            }
        } else {
            seq![]
        },
        _ => seq![],
    }
}

/// The attributes the phase creates for the first `n` operations, in order.
pub open spec fn descs_all(ops: Seq<CreateOp>, structural: Set<u32>, n: int) -> Seq<AttrDesc>
    decreases n,
{
    if n <= 0 { seq![] } else { descs_all(ops, structural, n - 1) + descs_for(ops[n - 1], structural) }
}

/// The operations the phase keeps, in order.
pub open spec fn kept_ops(ops: Seq<CreateOp>, structural: Set<u32>) -> Seq<CreateOp>
    decreases ops.len(),
{
    if ops.len() == 0 {
        seq![]
    } else if removable(ops.last(), structural) {
        kept_ops(ops.drop_last(), structural)
    } else {
        kept_ops(ops.drop_last(), structural).push(ops.last())
    }
}

/// Whether `after` is the creation list `before` once the phase has run: the
/// kept operations, then the created attributes.
pub open spec fn styles_parsed(before: Seq<CreateOp>, after: Seq<CreateOp>, structural: Set<u32>) -> bool {
    let kept = kept_ops(before, structural);
    let descs = descs_all(before, structural, before.len() as int);
    &&& after.len() == kept.len() + descs.len()
    &&& after.subrange(0, kept.len() as int) == kept
    &&& forall|j: int| 0 <= j < descs.len() ==> op_is_desc(#[trigger] after[kept.len() + j], descs[j])
}

fn is_named(s: &String, lit: &str) -> (r: bool)
    ensures
        r == (s@ == lit@),
{
    str_eq(s.as_str(), lit)
}

fn style_attr_op(target: XrefId, name: &String, value: &String) -> (op: CreateOp)
    ensures
        op_is_desc(op, AttrDesc { target, kind: BindingKind::StyleProperty, name: name@, value: Some(value@), security: SecurityContext::Style }),
{
    let v = string_of(&chars_of(value.as_str()));
    let n = string_of(&chars_of(name.as_str()));
    CreateOp::ExtractedAttribute(ExtractedAttributeOp {
        target,
        binding_kind: BindingKind::StyleProperty,
        name: n,
        value: Some(IrExpression::Ast(Box::new(AngularExpression::LiteralPrimitive(LiteralValue::String(v))))),
        security_context: SecurityContext::Style,
        namespace: None,
        truthy_expression: false,
        i18n_context: None,
        i18n_message: None,
    })
}

fn class_attr_op(target: XrefId, name: &Vec<char>) -> (op: CreateOp)
    ensures
        op_is_desc(op, AttrDesc { target, kind: BindingKind::ClassName, name: name@, value: None, security: SecurityContext::NoContext }),
{
    CreateOp::ExtractedAttribute(ExtractedAttributeOp {
        target,
        binding_kind: BindingKind::ClassName,
        name: string_of(name),
        value: None,
        security_context: SecurityContext::NoContext,
        namespace: None,
        truthy_expression: false,
        i18n_context: None,
        i18n_message: None,
    })
}

/// Creates the attributes for one operation, appending them to `out`.
fn generate_for(op: &CreateOp, structural: &FxHashSet<u32>, out: &mut Vec<CreateOp>)
    ensures
        final(out)@.len() == old(out)@.len() + descs_for(*op, structural@).len(),
        final(out)@.subrange(0, old(out)@.len() as int) == old(out)@,
        forall|j: int| 0 <= j < descs_for(*op, structural@).len()
            ==> op_is_desc(#[trigger] final(out)@[old(out)@.len() + j], descs_for(*op, structural@)[j]),
{
    proof {
        reveal_strlit("style");
        reveal_strlit("class");
    }
    let ghost o = old(out)@;
    if let CreateOp::ExtractedAttribute(attr) = op {
        if attr.binding_kind == BindingKind::Attribute {
            if let Some(value) = &attr.value {
                if let Some(sv) = extract_string_value(value) {
                    let is_style = is_named(&attr.name, "style");
                    let is_class = is_named(&attr.name, "class");
                    if (is_style || is_class) && !fx_set_contains(structural, attr.target.0) {
                        if is_style {
                            let svs = string_of(&sv);
                            let ghost ps = spec_parse_style_string(sv@);
                            let ghost ds = descs_for(*op, structural@);
                            assert(ds.len() == ps.len());
                            assert(forall|j: int| 0 <= j < ps.len() ==> #[trigger] ds[j] == (AttrDesc {
                                target: attr.target, kind: BindingKind::StyleProperty, name: ps[j].0,
                                value: Some(ps[j].1), security: SecurityContext::Style }));
                            {
                                let parsed = parse_style_string(svs.as_str());
                                let mut k: usize = 0;
                                while k < parsed.len()
                                    invariant
                                        pairs_match(parsed@, ps),
                                        ds == descs_for(*op, structural@),
                                        ds.len() == ps.len(),
                                        forall|j: int| 0 <= j < ps.len() ==> #[trigger] ds[j] == (AttrDesc {
                                            target: attr.target, kind: BindingKind::StyleProperty, name: ps[j].0,
                                            value: Some(ps[j].1), security: SecurityContext::Style }),
                                        k <= parsed@.len(),
                                        out@.len() == o.len() + k,
                                        out@.subrange(0, o.len() as int) == o,
                                        forall|j: int| 0 <= j < k ==> op_is_desc(#[trigger] out@[o.len() + j], descs_for(*op, structural@)[j]),
                                    decreases parsed.len() - k,
                                {
                                    let new_op = style_attr_op(attr.target, &parsed[k].0, &parsed[k].1);
                                    out.push(new_op);
                                    k = k + 1;
                                    proof {
                                        assert(out@.subrange(0, o.len() as int) =~= o);
                                    }
                                }
                                return;
                            }
                        } else {
                            let classes = parse_classes(&sv);
                            let ghost cs = spec_parse_classes(sv@);
                            let ghost ds = descs_for(*op, structural@);
                            assert(ds.len() == cs.len());
                            assert(forall|j: int| 0 <= j < cs.len() ==> #[trigger] ds[j] == (AttrDesc {
                                target: attr.target, kind: BindingKind::ClassName, name: cs[j],
                                value: None, security: SecurityContext::NoContext }));
                            let mut k: usize = 0;
                            while k < classes.len()
                                invariant
                                    classes@.len() == spec_parse_classes(sv@).len(),
                                    cs == spec_parse_classes(sv@),
                                    ds == descs_for(*op, structural@),
                                    ds.len() == cs.len(),
                                    forall|j: int| 0 <= j < cs.len() ==> #[trigger] ds[j] == (AttrDesc {
                                        target: attr.target, kind: BindingKind::ClassName, name: cs[j],
                                        value: None, security: SecurityContext::NoContext }),
                                    forall|i: int| 0 <= i < classes@.len() ==> (#[trigger] classes@[i])@ == spec_parse_classes(sv@)[i],
                                    k <= classes@.len(),
                                    out@.len() == o.len() + k,
                                    out@.subrange(0, o.len() as int) == o,
                                    forall|j: int| 0 <= j < k ==> op_is_desc(#[trigger] out@[o.len() + j], descs_for(*op, structural@)[j]),
                                decreases classes.len() - k,
                            {
                                let new_op = class_attr_op(attr.target, &classes[k]);
                                out.push(new_op);
                                k = k + 1;
                                proof {
                                    assert(out@.subrange(0, o.len() as int) =~= o);
                                }
                            }
                            return;
                        }
                    }
                }
            }
        }
    }
    assert(out@.subrange(0, o.len() as int) =~= o);
}

fn is_removable(op: &CreateOp, structural: &FxHashSet<u32>) -> (r: bool)
    ensures
        r == removable(*op, structural@),
{
    match op {
        CreateOp::ExtractedAttribute(attr) => {
            attr.binding_kind == BindingKind::Attribute
                && (is_named(&attr.name, "style") || is_named(&attr.name, "class"))
                && !fx_set_contains(structural, attr.target.0)
        },
        _ => false,
    }
}

/// Replaces the `style` and `class` attributes of a creation list (except on
/// structural templates) by the attributes parsed from their values.
fn parse_styles_in_create(create: &mut Vec<CreateOp>, structural: &FxHashSet<u32>)
    ensures
        styles_parsed(old(create)@, final(create)@, structural@),
{
    let ghost orig = create@;
    let mut generated: Vec<CreateOp> = Vec::new();
    let n = create.len();
    let mut i: usize = 0;
    while i < n
        invariant
            n == create@.len(),
            create@ == orig,
            i <= n,
            generated@.len() == descs_all(orig, structural@, i as int).len(),
            forall|j: int| 0 <= j < generated@.len()
                ==> op_is_desc(#[trigger] generated@[j], descs_all(orig, structural@, i as int)[j]),
        decreases n - i,
    {
        let ghost g0 = generated@;
        generate_for(&create[i], structural, &mut generated);
        proof {
            let d0 = descs_all(orig, structural@, i as int);
            let d1 = descs_all(orig, structural@, i as int + 1);
            let df = descs_for(orig[i as int], structural@);
            assert(d1 == d0 + df);
            assert forall|j: int| 0 <= j < generated@.len() implies op_is_desc(#[trigger] generated@[j], d1[j]) by {
                if j < g0.len() {
                    assert(generated@.subrange(0, g0.len() as int)[j] == generated@[j]);
                } else {
                    let jj = j - g0.len();
                    assert(generated@[g0.len() + jj] == generated@[j]);
                }
            }
        }
        i = i + 1;
    }
    let mut taken: Vec<CreateOp> = Vec::new();
    std::mem::swap(create, &mut taken);
    let mut pending = reverse_create(taken);
    let mut kept: Vec<CreateOp> = Vec::new();
    while pending.len() > 0
        invariant
            pending@.len() <= orig.len(),
            forall|j: int| 0 <= j < pending@.len() ==> #[trigger] pending@[j] == orig[orig.len() - 1 - j],
            kept@ == kept_ops(orig.subrange(0, orig.len() - pending@.len()), structural@),
        decreases pending.len(),
    {
        let ghost k = orig.len() - pending@.len();
        let op = pending.pop().unwrap();
        proof {
            assert(orig.subrange(0, k + 1).drop_last() =~= orig.subrange(0, k));
            assert(orig.subrange(0, k + 1).last() == op);
        }
        if !is_removable(&op, structural) {
            kept.push(op);
        }
    }
    assert(orig.subrange(0, orig.len() as int) =~= orig);
    let ghost kl = kept@;
    let ghost gl = generated@;
    kept.append(&mut generated);
    proof {
        assert(kept@.subrange(0, kl.len() as int) =~= kl);
        assert forall|j: int| 0 <= j < gl.len() implies op_is_desc(#[trigger] kept@[kl.len() + j], descs_all(orig, structural@, orig.len() as int)[j]) by {
            assert(kept@[kl.len() + j] == gl[j]);
        }
    }
    *create = kept;
}

/// Consumes `v` and returns its operations in reverse order.
fn reverse_create(v: Vec<CreateOp>) -> (r: Vec<CreateOp>)
    ensures
        r@.len() == v@.len(),
        forall|j: int| 0 <= j < v@.len() ==> #[trigger] r@[j] == v@[v@.len() - 1 - j],
{
    let ghost orig = v@;
    let mut v = v;
    let mut r: Vec<CreateOp> = Vec::new();
    while v.len() > 0
        invariant
            v@.len() + r@.len() == orig.len(),
            forall|i: int| 0 <= i < v@.len() ==> #[trigger] v@[i] == orig[i],
            forall|j: int| 0 <= j < r@.len() ==> #[trigger] r@[j] == orig[orig.len() - 1 - j],
        decreases v.len(),
    {
        let x = v.pop().unwrap();
        r.push(x);
    }
    r
}

/// The xref of a structural template (or conditional) operation.
pub open spec fn structural_xref(op: CreateOp) -> Option<u32> {
    match op {
        CreateOp::Template(t) => if t.template_kind == TemplateKind::StructuralDirective { Some(t.xref.0) } else { None },
        CreateOp::Conditional(t) => if t.template_kind == TemplateKind::StructuralDirective { Some(t.xref.0) } else { None },
        CreateOp::ConditionalBranch(t) => if t.template_kind == TemplateKind::StructuralDirective { Some(t.xref.0) } else { None },
        _ => None,
    }
}

/// The xrefs of the structural templates of a creation list.
pub open spec fn structural_in(s: Seq<CreateOp>) -> Set<u32>
    decreases s.len(),
{
    if s.len() == 0 {
        Set::empty()
    } else {
        let p = structural_in(s.drop_last());
        match structural_xref(s.last()) {
            Some(x) => p.insert(x),
            None => p,
        }
    }
}

/// The xrefs of the structural templates of the first `n` views.
pub open spec fn structural_in_views(views: Seq<ViewCompilationUnit>, n: int) -> Set<u32>
    decreases n,
{
    if n <= 0 { Set::empty() } else { structural_in_views(views, n - 1).union(structural_in(views[n - 1].create@)) }
}

/// The xrefs of the structural templates of a whole job.
pub open spec fn job_structural(root: ViewCompilationUnit, views: Seq<ViewCompilationUnit>) -> Set<u32> {
    structural_in(root.create@).union(structural_in_views(views, views.len() as int))
}

fn collect_structural(create: &Vec<CreateOp>, set: &mut FxHashSet<u32>)
    ensures
        final(set)@ == old(set)@.union(structural_in(create@)),
{
    let mut i: usize = 0;
    assert(old(set)@.union(structural_in(create@.subrange(0, 0))) =~= old(set)@);
    while i < create.len()
        invariant
            i <= create@.len(),
            set@ == old(set)@.union(structural_in(create@.subrange(0, i as int))),
        decreases create.len() - i,
    {
        proof {
            assert(create@.subrange(0, i as int + 1).drop_last() =~= create@.subrange(0, i as int));
        }
        let x = match &create[i] {
            CreateOp::Template(t) => if t.template_kind == TemplateKind::StructuralDirective { Some(t.xref.0) } else { None },
            CreateOp::Conditional(t) => if t.template_kind == TemplateKind::StructuralDirective { Some(t.xref.0) } else { None },
            CreateOp::ConditionalBranch(t) => if t.template_kind == TemplateKind::StructuralDirective { Some(t.xref.0) } else { None },
            _ => None,
        };
        if let Some(x) = x {
            fx_set_insert(set, x);
        }
        i = i + 1;
        proof {
            assert(set@ =~= old(set)@.union(structural_in(create@.subrange(0, i as int))));
        }
    }
    assert(create@.subrange(0, create@.len() as int) =~= create@);
}

/// Whether the view `after` is `before` with its extracted style and class
/// attributes parsed (`structural` holds the structural templates of the job).
pub open spec fn view_styles_parsed(before: ViewCompilationUnit, after: ViewCompilationUnit, structural: Set<u32>) -> bool {
    &&& styles_parsed(before.create@, after.create@, structural)
    &&& after.update == before.update
    &&& after.xref == before.xref
    &&& after.decl_count == before.decl_count
    &&& after.functions == before.functions
}

/// Whether the job `after` is `before` with the extracted style and class
/// attributes of every view parsed.
pub open spec fn job_styles_parsed(before: ComponentCompilationJob, after: ComponentCompilationJob) -> bool {
    let structural = job_structural(before.root, before.views@);
    &&& view_styles_parsed(before.root, after.root, structural)
    &&& after.views@.len() == before.views@.len()
    &&& forall|i: int| 0 <= i < before.views@.len() ==> view_styles_parsed(before.views@[i], #[trigger] after.views@[i], structural)
    &&& after.consts == before.consts
    &&& after.diagnostics == before.diagnostics
    &&& after.next_xref == before.next_xref
    &&& after.compatibility_mode == before.compatibility_mode
    &&& after.mode == before.mode
    &&& after.enable_debug_locations == before.enable_debug_locations
    &&& after.relative_template_path == before.relative_template_path
    &&& after.template_source == before.template_source
}

/// Parses extracted `style` and `class` attributes in every view of a template
/// job. Attributes of structural templates (collected over all views) are left
/// as they are, since content projection needs them raw.
pub fn parse_extracted_styles(job: &mut ComponentCompilationJob)
    ensures
        job_styles_parsed(*old(job), *final(job)),
{
    let mut structural = fx_set_new();
    collect_structural(&job.root.create, &mut structural);
    let n = job.views.len();
    let mut i: usize = 0;
    while i < n
        invariant
            n == job.views@.len(),
            i <= n,
            *job == *old(job),
            structural@ == structural_in(job.root.create@).union(structural_in_views(job.views@, i as int)),
        decreases n - i,
    {
        collect_structural(&job.views[i].create, &mut structural);
        i = i + 1;
        proof {
            assert(structural@ =~= structural_in(job.root.create@).union(structural_in_views(job.views@, i as int)));
        }
    }
    let ghost st = structural@;
    assert(st == job_structural(old(job).root, old(job).views@));
    parse_styles_in_create(&mut job.root.create, &structural);
    let mut i: usize = 0;
    while i < n
        invariant
            n == job.views@.len(),
            n == old(job).views@.len(),
            i <= n,
            st == structural@,
            st == job_structural(old(job).root, old(job).views@),
            forall|j: int| 0 <= j < i ==> view_styles_parsed(old(job).views@[j], #[trigger] job.views@[j], st),
            forall|j: int| i <= j < n ==> #[trigger] job.views@[j] == old(job).views@[j],
            view_styles_parsed(old(job).root, job.root, st),
            job.consts == old(job).consts,
            job.diagnostics == old(job).diagnostics,
            job.next_xref == old(job).next_xref,
            job.compatibility_mode == old(job).compatibility_mode,
            job.mode == old(job).mode,
            job.enable_debug_locations == old(job).enable_debug_locations,
            job.relative_template_path == old(job).relative_template_path,
            job.template_source == old(job).template_source,
        decreases n - i,
    {
        parse_styles_in_create(&mut job.views[i].create, &structural);
        i = i + 1;
    }
}

/// Whether the host job `after` is `before` with its extracted style and class
/// attributes parsed (a host job has no structural templates).
pub open spec fn host_job_styles_parsed(before: HostBindingCompilationJob, after: HostBindingCompilationJob) -> bool {
    &&& styles_parsed(before.root.create@, after.root.create@, Set::empty())
    &&& after.root.update == before.root.update
    &&& after.diagnostics == before.diagnostics
    &&& host_frame_kept(before, after)
}

/// Parses extracted `style` and `class` attributes of a host-binding job.
pub fn parse_extracted_styles_for_host(job: &mut HostBindingCompilationJob)
    ensures
        host_job_styles_parsed(*old(job), *final(job)),
{
    let structural = fx_set_new();
    parse_styles_in_create(&mut job.root.create, &structural);
}

} // verus!
