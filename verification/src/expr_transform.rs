//! Post-order rewriting of IR expressions.
//!
//! A rewrite visits the children of an expression first and then applies a
//! node rule to the expression rebuilt from the rewritten children.

use vstd::prelude::*;
use crate::ir::{host_frame_kept, 
    ev, ev_list, lemma_ev_list, AnimationStringOp, ComponentCompilationJob, CreateOp, Expr, ExtractedAttributeOp,
    HostBindingCompilationJob, I18nExpressionOp, IrExpression, ListenerOp, UpdateBindingOp, UpdateOp, UpdateVariableOp, ViewCompilationUnit,
};

verus! {

/// The expression with every child rewritten, then `f` applied to it.
pub open spec fn post_map(e: Expr, f: spec_fn(Expr) -> Expr) -> Expr
    decreases e, 1nat,
{
    let mapped = match e {
        Expr::ResolvedCall { receiver, args } => Expr::ResolvedCall {
            receiver: Box::new(post_map(*receiver, f)),
            args: post_map_list(args, f),
        },
        Expr::ResolvedPropertyRead { receiver, name } => Expr::ResolvedPropertyRead {
            receiver: Box::new(post_map(*receiver, f)),
            name,
        },
        Expr::Binary { operator, lhs, rhs } => Expr::Binary { operator, lhs: Box::new(post_map(*lhs, f)), rhs: Box::new(post_map(*rhs, f)) },
        Expr::Ternary { condition, true_expr, false_expr } => Expr::Ternary {
            condition: Box::new(post_map(*condition, f)),
            true_expr: Box::new(post_map(*true_expr, f)),
            false_expr: Box::new(post_map(*false_expr, f)),
        },
        Expr::Not(x) => Expr::Not(Box::new(post_map(*x, f))),
        Expr::Interpolation { strings, expressions, i18n_placeholders } => Expr::Interpolation {
            strings,
            expressions: post_map_list(expressions, f),
            i18n_placeholders,
        },
        Expr::PipeBinding { target, target_slot, name, args, var_offset } => Expr::PipeBinding {
            target,
            target_slot,
            name,
            args: post_map_list(args, f),
            var_offset,
        },
        Expr::PipeBindingVariadic { target, target_slot, name, args, num_args, var_offset } =>
            Expr::PipeBindingVariadic { target, target_slot, name, args: Box::new(post_map(*args, f)), num_args, var_offset },
        Expr::DerivedLiteralArray { entries, spreads } => Expr::DerivedLiteralArray {
            entries: post_map_list(entries, f),
            spreads,
        },
        Expr::LiteralArray(v) => Expr::LiteralArray(post_map_list(v, f)),
        Expr::ConstCollected(x) => Expr::ConstCollected(Box::new(post_map(*x, f))),
        Expr::StoreLet { target, value } => Expr::StoreLet { target, value: Box::new(post_map(*value, f)) },
        _ => e,
    };
    f(mapped)
}

/// Every expression of the list rewritten.
pub open spec fn post_map_list(s: Seq<Expr>, f: spec_fn(Expr) -> Expr) -> Seq<Expr>
    decreases s, 0nat,
{
    if s.len() == 0 {
        seq![]
    } else {
        post_map_list(s.drop_last(), f).push(post_map(s.last(), f))
    }
}

/// The rewritten list, element by element.
pub proof fn lemma_post_map_list(s: Seq<Expr>, f: spec_fn(Expr) -> Expr)
    ensures
        post_map_list(s, f).len() == s.len(),
        forall|i: int| 0 <= i < s.len() ==> #[trigger] post_map_list(s, f)[i] == post_map(s[i], f),
    decreases s.len(),
{
    if s.len() > 0 {
        lemma_post_map_list(s.drop_last(), f);
        assert forall|i: int| 0 <= i < s.len() implies #[trigger] post_map_list(s, f)[i] == post_map(s[i], f) by {
            if i < s.len() - 1 {
                assert(s.drop_last()[i] == s[i]);
            }
        }
    }
}

/// Whether an expression reads the name `$any` from the lexical scope.
pub open spec fn is_any_read(e: Expr) -> bool {
    e matches Expr::LexicalRead(n) && n@ == "$any"@
}

/// `$any(x)` becomes `x`; anything else is unchanged.
pub open spec fn any_cast_node(e: Expr) -> Expr {
    match e {
        Expr::ResolvedCall { receiver, args } => if is_any_read(*receiver) && args.len() == 1 { args[0] } else { e },
        _ => e,
    }
}

/// The most arguments a pipe takes before its arguments go into an array.
pub const MAX_PIPE_ARGS: usize = 4;

/// A pipe binding with more than four arguments becomes a variadic pipe
/// binding whose arguments are packed into one array literal.
pub open spec fn variadic_node(e: Expr) -> Expr {
    match e {
        Expr::PipeBinding { target, target_slot, name, args, var_offset } => if args.len() <= MAX_PIPE_ARGS {
            e
        } else {
            Expr::PipeBindingVariadic {
                target,
                target_slot,
                name,
                args: Box::new(Expr::DerivedLiteralArray { entries: args, spreads: Seq::new(args.len(), |i: int| false) }),
                num_args: args.len() as u32,
                var_offset,
            }
        },
        _ => e,
    }
}

/// The expression rewrites that phases apply to every expression of an operation.
#[derive(Clone, Copy, Debug, PartialEq, Eq, Structural)]
pub enum ExprRewrite {
    /// Removes `$any(..)` casts.
    RemoveAnyCasts,
    /// Turns pipe bindings with many arguments into variadic ones.
    VariadicPipes,
}

/// The node rule of a rewrite.
pub open spec fn node_rule(t: ExprRewrite) -> spec_fn(Expr) -> Expr {
    match t {
        ExprRewrite::RemoveAnyCasts => |e: Expr| any_cast_node(e),
        ExprRewrite::VariadicPipes => |e: Expr| variadic_node(e),
    }
}

/// The whole rewrite of an expression.
pub open spec fn rewrite(t: ExprRewrite, e: Expr) -> Expr {
    post_map(e, node_rule(t))
}

fn is_any_name(s: &String) -> (r: bool)
    ensures
        r == (s@ == "$any"@),
{
    crate::text::str_eq(s.as_str(), "$any")
}

/// Applies the node rule of a rewrite to one expression.
pub(crate) fn apply_node(e: IrExpression, t: ExprRewrite) -> (r: IrExpression)
    ensures
        ev(r) == node_rule(t)(ev(e)),
{
    match t {
        ExprRewrite::RemoveAnyCasts => {
            assert(node_rule(t)(ev(e)) == any_cast_node(ev(e)));
            if let IrExpression::ResolvedCall { args, .. } = &e {
                proof { lemma_ev_list(args@); }
            }
            let is_any = match &e {
                IrExpression::ResolvedCall { receiver, args } => args.len() == 1 && match &**receiver {
                    IrExpression::LexicalRead(name) => is_any_name(name),
                    _ => false,
                },
                _ => false,
            };
            if is_any {
                match e {
                    IrExpression::ResolvedCall { receiver, args } => {
                        proof { lemma_ev_list(args@); }
                        assert(is_any_read(ev(*receiver)));
                        assert(args@.len() == 1);
                        assert(any_cast_node(ev(e)) == ev(args@[0]));
                        let mut args = args;
                        let a = args.pop().unwrap();
                        assert(ev(a) == any_cast_node(ev(e)));
                        assert(ev(a) == node_rule(t)(ev(e)));
                        a
                    },
                    _ => e,
                }
            } else {
                proof {
                    if e is ResolvedCall {
                        let receiver = e->ResolvedCall_receiver;
                        let args = e->ResolvedCall_args;
                        assert(ev(e) == Expr::ResolvedCall { receiver: Box::new(ev(*receiver)), args: ev_list(args@) });
                        assert(!is_any_read(ev(*receiver)) || args@.len() != 1);
                    }
                }
                assert(any_cast_node(ev(e)) == ev(e));
                assert(ev(e) == node_rule(t)(ev(e)));
                e
            }
        },
        ExprRewrite::VariadicPipes => {
            match e {
                IrExpression::PipeBinding { target, target_slot, name, args, var_offset } => {
                    if args.len() <= MAX_PIPE_ARGS {
                        proof { lemma_ev_list(args@); }
                        IrExpression::PipeBinding { target, target_slot, name, args, var_offset }
                    } else {
                        let num_args = #[verifier::truncate] (args.len() as u32);
                        let mut spreads: Vec<bool> = Vec::new();
                        let mut i: usize = 0;
                        while i < args.len()
                            invariant
                                i <= args@.len(),
                                spreads@ == Seq::new(i as nat, |k: int| false),
                            decreases args.len() - i,
                        {
                            spreads.push(false);
                            i = i + 1;
                            assert(spreads@ =~= Seq::new(i as nat, |k: int| false));
                        }
                        let r = IrExpression::PipeBindingVariadic {
                            target,
                            target_slot,
                            name,
                            args: Box::new(IrExpression::DerivedLiteralArray { entries: args, spreads }),
                            num_args,
                            var_offset,
                        };
                        proof { lemma_ev_list(args@); }
                        let ghost sp = Seq::new(args@.len(), |i: int| false);
                        assert(spreads@ =~= sp);
                        let ghost inner = Expr::DerivedLiteralArray { entries: ev_list(args@), spreads: sp };
                        assert(ev(IrExpression::DerivedLiteralArray { entries: args, spreads }) =~~= inner);
                        assert(node_rule(t)(ev(e)) == variadic_node(ev(e)));
                        assert(variadic_node(ev(e)) =~~= Expr::PipeBindingVariadic {
                            target, target_slot, name, args: Box::new(inner), num_args, var_offset });
                        r
                    }
                },
                _ => e,
            }
        },
    }
}

/// Rewrites every expression of a list (consumed), keeping the order.
fn rewrite_list(v: Vec<IrExpression>, t: ExprRewrite, Ghost(parent): Ghost<IrExpression>) -> (r: Vec<IrExpression>)
    requires
        forall|i: int| 0 <= i < v@.len() ==> decreases_to!(parent => #[trigger] v@[i]),
    ensures
        ev_list(r@) == post_map_list(ev_list(v@), node_rule(t)),
    decreases parent, 0nat,
{
    let ghost orig = v@;
    let mut rev: Vec<IrExpression> = Vec::new();
    let mut v = v;
    while v.len() > 0
        invariant
            v@.len() + rev@.len() == orig.len(),
            forall|i: int| 0 <= i < v@.len() ==> #[trigger] v@[i] == orig[i],
            forall|j: int| 0 <= j < rev@.len() ==> #[trigger] rev@[j] == orig[orig.len() - 1 - j],
        decreases v.len(),
    {
        let x = v.pop().unwrap();
        rev.push(x);
    }
    let mut out: Vec<IrExpression> = Vec::new();
    let ghost f = node_rule(t);
    proof {
        lemma_ev_list(orig);
        lemma_post_map_list(ev_list(orig), f);
    }
    while rev.len() > 0
        invariant
            out@.len() + rev@.len() == orig.len(),
            forall|j: int| 0 <= j < rev@.len() ==> #[trigger] rev@[j] == orig[orig.len() - 1 - j],
            forall|i: int| 0 <= i < orig.len() ==> decreases_to!(parent => #[trigger] orig[i]),
            f == node_rule(t),
            ev_list(orig).len() == orig.len(),
            forall|i: int| 0 <= i < orig.len() ==> #[trigger] ev_list(orig)[i] == ev(orig[i]),
            post_map_list(ev_list(orig), f).len() == orig.len(),
            forall|i: int| 0 <= i < orig.len() ==> #[trigger] post_map_list(ev_list(orig), f)[i] == post_map(ev_list(orig)[i], f),
            forall|i: int| 0 <= i < out@.len() ==> ev(#[trigger] out@[i]) == post_map(ev(orig[i]), f),
        decreases rev.len(),
    {
        let ghost k = out@.len();
        let x = rev.pop().unwrap();
        assert(x == orig[k as int]);
        let y = rewrite_expr(x, t);
        out.push(y);
    }
    proof {
        lemma_ev_list(out@);
        assert(ev_list(out@) =~= post_map_list(ev_list(orig), f));
    }
    out
}

/// Rewrites an expression (consumed): children first, then the node rule.
pub fn rewrite_expr(e: IrExpression, t: ExprRewrite) -> (r: IrExpression)
    ensures
        ev(r) == rewrite(t, ev(e)),
    decreases e, 1nat,
{
    let ghost e0 = e;
    let ghost f = node_rule(t);
    let mapped = match e {
        IrExpression::ResolvedCall { receiver, args } => {
            let r = rewrite_expr(*receiver, t);
            proof {
                assert forall|i: int| 0 <= i < args@.len() implies decreases_to!(e0 => #[trigger] args@[i]) by {
                    assert(decreases_to!(args => args@));
                    assert(decreases_to!(args@ => args@[i]));
                }
                lemma_ev_list(args@);
            }
            let a = rewrite_list(args, t, Ghost(e0));
            IrExpression::ResolvedCall { receiver: Box::new(r), args: a }
        },
        IrExpression::ResolvedPropertyRead { receiver, name } =>
            IrExpression::ResolvedPropertyRead { receiver: Box::new(rewrite_expr(*receiver, t)), name },
        IrExpression::Binary { operator, lhs, rhs } =>
            IrExpression::Binary { operator, lhs: Box::new(rewrite_expr(*lhs, t)), rhs: Box::new(rewrite_expr(*rhs, t)) },
        IrExpression::Ternary { condition, true_expr, false_expr } => IrExpression::Ternary {
            condition: Box::new(rewrite_expr(*condition, t)),
            true_expr: Box::new(rewrite_expr(*true_expr, t)),
            false_expr: Box::new(rewrite_expr(*false_expr, t)),
        },
        IrExpression::Not(x) => IrExpression::Not(Box::new(rewrite_expr(*x, t))),
        IrExpression::Interpolation { strings, expressions, i18n_placeholders } => {
            proof {
                assert forall|i: int| 0 <= i < expressions@.len() implies decreases_to!(e0 => #[trigger] expressions@[i]) by {
                    assert(decreases_to!(expressions => expressions@));
                    assert(decreases_to!(expressions@ => expressions@[i]));
                }
            }
            let x = rewrite_list(expressions, t, Ghost(e0));
            IrExpression::Interpolation { strings, expressions: x, i18n_placeholders }
        },
        IrExpression::PipeBinding { target, target_slot, name, args, var_offset } => {
            proof {
                assert forall|i: int| 0 <= i < args@.len() implies decreases_to!(e0 => #[trigger] args@[i]) by {
                    assert(decreases_to!(args => args@));
                    assert(decreases_to!(args@ => args@[i]));
                }
            }
            let a = rewrite_list(args, t, Ghost(e0));
            IrExpression::PipeBinding { target, target_slot, name, args: a, var_offset }
        },
        IrExpression::PipeBindingVariadic { target, target_slot, name, args, num_args, var_offset } =>
            IrExpression::PipeBindingVariadic {
                target,
                target_slot,
                name,
                args: Box::new(rewrite_expr(*args, t)),
                num_args,
                var_offset,
            },
        IrExpression::DerivedLiteralArray { entries, spreads } => {
            proof {
                assert forall|i: int| 0 <= i < entries@.len() implies decreases_to!(e0 => #[trigger] entries@[i]) by {
                    assert(decreases_to!(entries => entries@));
                    assert(decreases_to!(entries@ => entries@[i]));
                }
            }
            let x = rewrite_list(entries, t, Ghost(e0));
            IrExpression::DerivedLiteralArray { entries: x, spreads }
        },
        IrExpression::LiteralArray(v) => {
            proof {
                assert forall|i: int| 0 <= i < v@.len() implies decreases_to!(e0 => #[trigger] v@[i]) by {
                    assert(decreases_to!(v => v@));
                    assert(decreases_to!(v@ => v@[i]));
                }
            }
            let x = rewrite_list(v, t, Ghost(e0));
            IrExpression::LiteralArray(x)
        },
        IrExpression::ConstCollected(x) => IrExpression::ConstCollected(Box::new(rewrite_expr(*x, t))),
        IrExpression::StoreLet { target, value } =>
            IrExpression::StoreLet { target, value: Box::new(rewrite_expr(*value, t)) },
        other => other,
    };
    proof {
        assert(ev(mapped) =~~= match ev(e0) {
            Expr::ResolvedCall { receiver, args } => Expr::ResolvedCall {
                receiver: Box::new(post_map(*receiver, f)),
                args: post_map_list(args, f),
            },
            Expr::ResolvedPropertyRead { receiver, name } => Expr::ResolvedPropertyRead {
                receiver: Box::new(post_map(*receiver, f)),
                name,
            },
            Expr::Binary { operator, lhs, rhs } => Expr::Binary { operator, lhs: Box::new(post_map(*lhs, f)), rhs: Box::new(post_map(*rhs, f)) },
            Expr::Ternary { condition, true_expr, false_expr } => Expr::Ternary {
                condition: Box::new(post_map(*condition, f)),
                true_expr: Box::new(post_map(*true_expr, f)),
                false_expr: Box::new(post_map(*false_expr, f)),
            },
            Expr::Not(x) => Expr::Not(Box::new(post_map(*x, f))),
            Expr::Interpolation { strings, expressions, i18n_placeholders } => Expr::Interpolation {
                strings,
                expressions: post_map_list(expressions, f),
                i18n_placeholders,
            },
            Expr::PipeBinding { target, target_slot, name, args, var_offset } => Expr::PipeBinding {
                target,
                target_slot,
                name,
                args: post_map_list(args, f),
                var_offset,
            },
            Expr::PipeBindingVariadic { target, target_slot, name, args, num_args, var_offset } =>
                Expr::PipeBindingVariadic { target, target_slot, name, args: Box::new(post_map(*args, f)), num_args, var_offset },
            Expr::DerivedLiteralArray { entries, spreads } => Expr::DerivedLiteralArray {
                entries: post_map_list(entries, f),
                spreads,
            },
            Expr::LiteralArray(v) => Expr::LiteralArray(post_map_list(v, f)),
            Expr::ConstCollected(x) => Expr::ConstCollected(Box::new(post_map(*x, f))),
            Expr::StoreLet { target, value } => Expr::StoreLet { target, value: Box::new(post_map(*value, f)) },
            _ => ev(e0),
        });
    }
    apply_node(mapped, t)
}

/// The expression an update operation binds, if it has one.
pub open spec fn update_op_expr(op: UpdateOp) -> Option<IrExpression> {
    match op {
        UpdateOp::Property(b) | UpdateOp::TwoWayProperty(b) | UpdateOp::DomProperty(b) | UpdateOp::Attribute(b)
        | UpdateOp::StyleProp(b) | UpdateOp::ClassProp(b) | UpdateOp::StyleMap(b) | UpdateOp::ClassMap(b)
        | UpdateOp::Control(b) | UpdateOp::Binding(b) | UpdateOp::InterpolateText(b)
        | UpdateOp::AnimationBinding(b) | UpdateOp::Repeater(b) | UpdateOp::Conditional(b) | UpdateOp::StoreLet(b)
        | UpdateOp::DeferWhen(b) => Some(b.expression),
        UpdateOp::I18nExpression(x) => Some(x.expression),
        UpdateOp::Variable(v) => Some(v.initializer),
        _ => None,
    }
}

/// Whether two update operations are the same but for their bound expression.
pub open spec fn same_but_expr(a: UpdateOp, b: UpdateOp) -> bool {
    match (a, b) {
        (UpdateOp::Property(x), UpdateOp::Property(y)) | (UpdateOp::TwoWayProperty(x), UpdateOp::TwoWayProperty(y))
        | (UpdateOp::DomProperty(x), UpdateOp::DomProperty(y)) | (UpdateOp::Attribute(x), UpdateOp::Attribute(y))
        | (UpdateOp::StyleProp(x), UpdateOp::StyleProp(y)) | (UpdateOp::ClassProp(x), UpdateOp::ClassProp(y))
        | (UpdateOp::StyleMap(x), UpdateOp::StyleMap(y)) | (UpdateOp::ClassMap(x), UpdateOp::ClassMap(y))
        | (UpdateOp::Control(x), UpdateOp::Control(y)) | (UpdateOp::Binding(x), UpdateOp::Binding(y))
        | (UpdateOp::InterpolateText(x), UpdateOp::InterpolateText(y))
        | (UpdateOp::AnimationBinding(x), UpdateOp::AnimationBinding(y)) | (UpdateOp::Repeater(x), UpdateOp::Repeater(y))
        | (UpdateOp::Conditional(x), UpdateOp::Conditional(y)) | (UpdateOp::StoreLet(x), UpdateOp::StoreLet(y))
        | (UpdateOp::DeferWhen(x), UpdateOp::DeferWhen(y)) =>
            x == UpdateBindingOp { expression: x.expression, ..y },
        (UpdateOp::Variable(x), UpdateOp::Variable(y)) => x == UpdateVariableOp { initializer: x.initializer, ..y },
        (UpdateOp::I18nExpression(x), UpdateOp::I18nExpression(y)) => x == I18nExpressionOp { expression: x.expression, ..y },
        _ => a == b,
    }
}

/// Whether `after` is `before` with its bound expression (if any) rewritten by `t`.
pub open spec fn update_op_rewritten(before: UpdateOp, after: UpdateOp, t: ExprRewrite) -> bool {
    &&& same_but_expr(before, after)
    &&& match update_op_expr(before) {
        Some(e) => update_op_expr(after) matches Some(e2) && ev(e2) == rewrite(t, ev(e)),
        None => true,
    }
}

/// The expression a creation operation holds, if any: a listener's handler
/// expression, an animation string's value or an extracted attribute's value.
pub open spec fn create_op_expr(op: CreateOp) -> Option<IrExpression> {
    match op {
        CreateOp::Listener(l) | CreateOp::TwoWayListener(l) | CreateOp::AnimationListener(l) | CreateOp::Animation(l) =>
            l.handler_expression,
        CreateOp::ExtractedAttribute(a) => a.value,
        CreateOp::AnimationString(a) => Some(a.expression),
        _ => None,
    }
}

/// Whether two creation operations are the same but for the expression they hold.
pub open spec fn same_create_but_expr(a: CreateOp, b: CreateOp) -> bool {
    match (a, b) {
        (CreateOp::Listener(x), CreateOp::Listener(y)) | (CreateOp::TwoWayListener(x), CreateOp::TwoWayListener(y))
        | (CreateOp::AnimationListener(x), CreateOp::AnimationListener(y)) | (CreateOp::Animation(x), CreateOp::Animation(y)) =>
            x == ListenerOp { handler_expression: x.handler_expression, ..y }
                && (x.handler_expression is Some <==> y.handler_expression is Some),
        (CreateOp::ExtractedAttribute(x), CreateOp::ExtractedAttribute(y)) =>
            x == ExtractedAttributeOp { value: x.value, ..y } && (x.value is Some <==> y.value is Some),
        (CreateOp::AnimationString(x), CreateOp::AnimationString(y)) => x == AnimationStringOp { expression: x.expression, ..y },
        _ => a == b,
    }
}

/// The handler operations of a listener or animation, where it has them.
pub open spec fn handler_ops_of(op: CreateOp) -> Option<Vec<UpdateOp>> {
    match op {
        CreateOp::Listener(l) | CreateOp::TwoWayListener(l) | CreateOp::AnimationListener(l) | CreateOp::Animation(l) =>
            l.handler_ops,
        _ => None,
    }
}

/// A creation operation with the handler operations of a listener or animation replaced.
pub open spec fn with_handler_ops(op: CreateOp, ops: Option<Vec<UpdateOp>>) -> CreateOp {
    match op {
        CreateOp::Listener(l) => CreateOp::Listener(ListenerOp { handler_ops: ops, ..l }),
        CreateOp::TwoWayListener(l) => CreateOp::TwoWayListener(ListenerOp { handler_ops: ops, ..l }),
        CreateOp::AnimationListener(l) => CreateOp::AnimationListener(ListenerOp { handler_ops: ops, ..l }),
        CreateOp::Animation(l) => CreateOp::Animation(ListenerOp { handler_ops: ops, ..l }),
        _ => op,
    }
}

/// Whether `after` is `before` with its expression (if any) and the
/// expressions of its handler operations (if any) rewritten by `t`.
pub open spec fn create_op_rewritten(before: CreateOp, after: CreateOp, t: ExprRewrite) -> bool {
    &&& same_create_but_expr(before, with_handler_ops(after, handler_ops_of(before)))
    &&& match create_op_expr(before) {
        Some(e) => create_op_expr(after) matches Some(e2) && ev(e2) == rewrite(t, ev(e)),
        None => true,
    }
    &&& match handler_ops_of(before) {
        Some(ops) => handler_ops_of(after) matches Some(ops2) && update_list_rewritten(ops@, ops2@, t),
        None => handler_ops_of(after) is None,
    }
}

fn rewrite_in_place(e: &mut IrExpression, t: ExprRewrite)
    ensures
        ev(*final(e)) == rewrite(t, ev(*old(e))),
{
    let mut taken = IrExpression::Empty;
    std::mem::swap(e, &mut taken);
    *e = rewrite_expr(taken, t);
}

/// Rewrites the bound expression of an update operation.
pub(crate) fn rewrite_update_op(op: &mut UpdateOp, t: ExprRewrite)
    ensures
        update_op_rewritten(*old(op), *final(op), t),
{
    match op {
        UpdateOp::Property(b) => rewrite_in_place(&mut b.expression, t),
        UpdateOp::TwoWayProperty(b) => rewrite_in_place(&mut b.expression, t),
        UpdateOp::DomProperty(b) => rewrite_in_place(&mut b.expression, t),
        UpdateOp::Attribute(b) => rewrite_in_place(&mut b.expression, t),
        UpdateOp::StyleProp(b) => rewrite_in_place(&mut b.expression, t),
        UpdateOp::ClassProp(b) => rewrite_in_place(&mut b.expression, t),
        UpdateOp::StyleMap(b) => rewrite_in_place(&mut b.expression, t),
        UpdateOp::ClassMap(b) => rewrite_in_place(&mut b.expression, t),
        UpdateOp::Control(b) => rewrite_in_place(&mut b.expression, t),
        UpdateOp::Binding(b) => rewrite_in_place(&mut b.expression, t),
        UpdateOp::InterpolateText(b) => rewrite_in_place(&mut b.expression, t),
        UpdateOp::I18nExpression(b) => rewrite_in_place(&mut b.expression, t),
        UpdateOp::AnimationBinding(b) => rewrite_in_place(&mut b.expression, t),
        UpdateOp::Repeater(b) => rewrite_in_place(&mut b.expression, t),
        UpdateOp::Conditional(b) => rewrite_in_place(&mut b.expression, t),
        UpdateOp::StoreLet(b) => rewrite_in_place(&mut b.expression, t),
        UpdateOp::DeferWhen(b) => rewrite_in_place(&mut b.expression, t),
        UpdateOp::Variable(v) => rewrite_in_place(&mut v.initializer, t),
        _ => {},
    }
}

fn rewrite_listener(l: &mut ListenerOp, t: ExprRewrite)
    ensures
        *final(l) == (ListenerOp { handler_expression: final(l).handler_expression, handler_ops: final(l).handler_ops, ..*old(l) }),
        old(l).handler_expression matches Some(e) ==> final(l).handler_expression matches Some(e2) && ev(e2) == rewrite(t, ev(e)),
        old(l).handler_expression is None ==> final(l).handler_expression is None,
        old(l).handler_ops matches Some(ops) ==> final(l).handler_ops matches Some(ops2) && update_list_rewritten(ops@, ops2@, t),
        old(l).handler_ops is None ==> final(l).handler_ops is None,
{
    match &mut l.handler_expression {
        Some(e) => rewrite_in_place(e, t),
        None => {},
    }
    match &mut l.handler_ops {
        Some(ops) => rewrite_update_ops(ops, t),
        None => {},
    }
}

/// Rewrites the expression held by a creation operation, and those of a
/// listener's handler operations.
pub(crate) fn rewrite_create_op(op: &mut CreateOp, t: ExprRewrite)
    ensures
        create_op_rewritten(*old(op), *final(op), t),
{
    match op {
        CreateOp::Listener(l) => rewrite_listener(l, t),
        CreateOp::TwoWayListener(l) => rewrite_listener(l, t),
        CreateOp::AnimationListener(l) => rewrite_listener(l, t),
        CreateOp::Animation(l) => rewrite_listener(l, t),
        CreateOp::AnimationString(a) => rewrite_in_place(&mut a.expression, t),
        CreateOp::ExtractedAttribute(a) => {
            match &mut a.value {
                Some(e) => rewrite_in_place(e, t),
                None => {},
            }
        },
        _ => {},
    }
}

/// Rewrites every update operation of a list.
pub(crate) fn rewrite_update_ops(list: &mut Vec<UpdateOp>, t: ExprRewrite)
    ensures
        final(list)@.len() == old(list)@.len(),
        forall|i: int| 0 <= i < old(list)@.len() ==> update_op_rewritten(#[trigger] old(list)@[i], final(list)@[i], t),
{
    let n = list.len();
    let mut i: usize = 0;
    while i < n
        invariant
            n == list@.len(),
            n == old(list)@.len(),
            i <= n,
            forall|j: int| 0 <= j < i ==> update_op_rewritten(#[trigger] old(list)@[j], list@[j], t),
            forall|j: int| i <= j < n ==> #[trigger] list@[j] == old(list)@[j],
        decreases n - i,
    {
        rewrite_update_op(&mut list[i], t);
        i = i + 1;
    }
}

/// Rewrites every creation operation of a list.
pub(crate) fn rewrite_create_ops(list: &mut Vec<CreateOp>, t: ExprRewrite)
    ensures
        final(list)@.len() == old(list)@.len(),
        forall|i: int| 0 <= i < old(list)@.len() ==> create_op_rewritten(#[trigger] old(list)@[i], final(list)@[i], t),
{
    let n = list.len();
    let mut i: usize = 0;
    while i < n
        invariant
            n == list@.len(),
            n == old(list)@.len(),
            i <= n,
            forall|j: int| 0 <= j < i ==> create_op_rewritten(#[trigger] old(list)@[j], list@[j], t),
            forall|j: int| i <= j < n ==> #[trigger] list@[j] == old(list)@[j],
        decreases n - i,
    {
        rewrite_create_op(&mut list[i], t);
        i = i + 1;
    }
}

/// Whether every update operation of `after` is that of `before` rewritten.
pub open spec fn update_list_rewritten(before: Seq<UpdateOp>, after: Seq<UpdateOp>, t: ExprRewrite) -> bool {
    &&& after.len() == before.len()
    &&& forall|i: int| 0 <= i < before.len() ==> update_op_rewritten(#[trigger] before[i], after[i], t)
}

/// Whether every creation operation of `after` is that of `before` rewritten.
pub open spec fn create_list_rewritten(before: Seq<CreateOp>, after: Seq<CreateOp>, t: ExprRewrite) -> bool {
    &&& after.len() == before.len()
    &&& forall|i: int| 0 <= i < before.len() ==> create_op_rewritten(#[trigger] before[i], after[i], t)
}

/// Whether the view `after` is `before` with its operations rewritten by `t`
/// (creation operations too when `with_create`).
pub open spec fn view_rewritten(before: ViewCompilationUnit, after: ViewCompilationUnit, t: ExprRewrite, with_create: bool) -> bool {
    &&& update_list_rewritten(before.update@, after.update@, t)
    &&& if with_create { create_list_rewritten(before.create@, after.create@, t) } else { after.create == before.create }
    &&& after.xref == before.xref
    &&& after.decl_count == before.decl_count
    &&& after.functions == before.functions
}

/// Whether every view of the job `after` is that of `before` rewritten by `t`.
pub open spec fn job_rewritten(before: ComponentCompilationJob, after: ComponentCompilationJob, t: ExprRewrite, with_create: bool) -> bool {
    &&& view_rewritten(before.root, after.root, t, with_create)
    &&& after.views@.len() == before.views@.len()
    &&& forall|i: int| 0 <= i < before.views@.len() ==> view_rewritten(before.views@[i], #[trigger] after.views@[i], t, with_create)
    &&& after.consts == before.consts
    &&& after.diagnostics == before.diagnostics
    &&& after.next_xref == before.next_xref
    &&& after.compatibility_mode == before.compatibility_mode
    &&& after.mode == before.mode
    &&& after.enable_debug_locations == before.enable_debug_locations
    &&& after.relative_template_path == before.relative_template_path
    &&& after.template_source == before.template_source
}

/// Whether the host job `after` is `before` with every operation's expression rewritten by `t`.
pub open spec fn host_job_rewritten(before: HostBindingCompilationJob, after: HostBindingCompilationJob, t: ExprRewrite) -> bool {
    &&& create_list_rewritten(before.root.create@, after.root.create@, t)
    &&& update_list_rewritten(before.root.update@, after.root.update@, t)
    &&& after.diagnostics == before.diagnostics
    &&& host_frame_kept(before, after)
}

fn rewrite_view(view: &mut ViewCompilationUnit, t: ExprRewrite, with_create: bool)
    ensures
        view_rewritten(*old(view), *final(view), t, with_create),
{
    if with_create {
        rewrite_create_ops(&mut view.create, t);
    }
    rewrite_update_ops(&mut view.update, t);
}

/// Rewrites the operations of every view of a template job.
pub(crate) fn rewrite_job(job: &mut ComponentCompilationJob, t: ExprRewrite, with_create: bool)
    ensures
        job_rewritten(*old(job), *final(job), t, with_create),
{
    rewrite_view(&mut job.root, t, with_create);
    let n = job.views.len();
    let mut i: usize = 0;
    while i < n
        invariant
            n == job.views@.len(),
            n == old(job).views@.len(),
            i <= n,
            view_rewritten(old(job).root, job.root, t, with_create),
            forall|j: int| 0 <= j < i ==> view_rewritten(old(job).views@[j], #[trigger] job.views@[j], t, with_create),
            forall|j: int| i <= j < n ==> #[trigger] job.views@[j] == old(job).views@[j],
            job.consts == old(job).consts,
            job.diagnostics == old(job).diagnostics,
            job.next_xref == old(job).next_xref,
            job.compatibility_mode == old(job).compatibility_mode,
            job.mode == old(job).mode,
            job.enable_debug_locations == old(job).enable_debug_locations,
            job.relative_template_path == old(job).relative_template_path,
            job.template_source == old(job).template_source,
        decreases n - i,
    {
        rewrite_view(&mut job.views[i], t, with_create);
        i = i + 1;
    }
}

} // verus!
