//! Keys of template expressions, as the constant pool uses them to recognise
//! two pure-function bodies as the same.
//!
//! A literal is keyed by its JavaScript source text (strings quoted, numbers in
//! decimal), a read from the component by `read(name)`, any other property
//! read by `prop(receiver,name)` and an interpolation by
//! `interp([strings],[expressions])`.

use vstd::prelude::*;
use crate::ir::{AngularExpression, LiteralValue};
use crate::text::{decimal, push_decimal, push_str};

verus! {

/// The key of a literal value.
pub open spec fn literal_key(v: LiteralValue) -> Seq<char> {
    match v {
        LiteralValue::String(s) => seq!['"'] + s@ + seq!['"'],
        LiteralValue::Number(n) => if n < 0 { seq!['-'] + decimal((-n) as nat) } else { decimal(n as nat) },
        LiteralValue::Boolean(b) => if b { "true"@ } else { "false"@ },
        LiteralValue::Null => "null"@,
        LiteralValue::Undefined => "undefined"@,
    }
}

/// A string quoted for a key.
pub open spec fn quoted(s: Seq<char>) -> Seq<char> {
    seq!['"'] + s + seq!['"']
}

/// The quoted strings of a list, separated by commas.
pub open spec fn quoted_list(s: Seq<String>) -> Seq<char>
    decreases s.len(),
{
    if s.len() == 0 {
        seq![]
    } else if s.len() == 1 {
        quoted(s[0]@)
    } else {
        quoted_list(s.drop_last()) + seq![','] + quoted(s.last()@)
    }
}

/// The key of a template expression.
pub open spec fn spec_expression_key(e: AngularExpression) -> Seq<char>
    decreases e, 1nat,
{
    match e {
        AngularExpression::LiteralPrimitive(v) => literal_key(v),
        AngularExpression::ImplicitReceiver => "implicit"@,
        AngularExpression::PropertyRead { receiver, name } => if *receiver is ImplicitReceiver {
            "read("@ + name@ + seq![')']
        } else {
            "prop("@ + spec_expression_key(*receiver) + seq![','] + name@ + seq![')']
        },
        AngularExpression::Interpolation { strings, expressions } =>
            "interp(["@ + quoted_list(strings@) + "],["@ + key_list(expressions@) + "])"@,
    }
}

/// The keys of a list of expressions, separated by commas.
pub open spec fn key_list(s: Seq<AngularExpression>) -> Seq<char>
    decreases s, 0nat,
{
    if s.len() == 0 {
        seq![]
    } else if s.len() == 1 {
        spec_expression_key(s[0])
    } else {
        key_list(s.drop_last()) + seq![','] + spec_expression_key(s.last())
    }
}

fn push_literal_key(out: &mut String, v: &LiteralValue)
    ensures
        final(out)@ == old(out)@ + literal_key(*v),
{
    match v {
        LiteralValue::String(s) => {
            out.push('"');
            push_str(out, s.as_str());
            out.push('"');
            assert(out@ =~= old(out)@ + literal_key(*v));
        },
        LiteralValue::Number(n) => {
            let n = *n;
            if n < 0 {
                out.push('-');
                let m: u64 = if n == i64::MIN { 0x8000_0000_0000_0000u64 } else { (-n) as u64 };
                assert(m == -n);
                push_decimal(out, m);
            } else {
                push_decimal(out, n as u64);
            }
            assert(out@ =~= old(out)@ + literal_key(*v));
        },
        LiteralValue::Boolean(b) => {
            if *b {
                push_str(out, "true");
            } else {
                push_str(out, "false");
            }
        },
        LiteralValue::Null => push_str(out, "null"),
        LiteralValue::Undefined => push_str(out, "undefined"),
    }
}

fn push_quoted_list(out: &mut String, s: &Vec<String>)
    ensures
        final(out)@ == old(out)@ + quoted_list(s@),
{
    let n = s.len();
    let mut i: usize = 0;
    while i < n
        invariant
            n == s@.len(),
            i <= n,
            out@ == old(out)@ + quoted_list(s@.take(i as int)),
        decreases n - i,
    {
        let ghost before = out@;
        if i > 0 {
            out.push(',');
        }
        out.push('"');
        push_str(out, s[i].as_str());
        out.push('"');
        proof {
            let t = s@.take(i as int + 1);
            assert(t.drop_last() =~= s@.take(i as int));
            assert(t.last() == s@[i as int]);
            if i == 0 {
                assert(out@ =~= old(out)@ + quoted_list(t));
            } else {
                assert(out@ =~= before + seq![','] + quoted(s@[i as int]@));
                assert(out@ =~= old(out)@ + quoted_list(t));
            }
        }
        i = i + 1;
    }
    assert(s@.take(n as int) =~= s@);
}

fn push_key(out: &mut String, e: &AngularExpression)
    ensures
        final(out)@ == old(out)@ + spec_expression_key(*e),
    decreases e, 1nat,
{
    match e {
        AngularExpression::LiteralPrimitive(v) => push_literal_key(out, v),
        AngularExpression::ImplicitReceiver => push_str(out, "implicit"),
        AngularExpression::PropertyRead { receiver, name } => {
            let implicit = match &**receiver {
                AngularExpression::ImplicitReceiver => true,
                _ => false,
            };
            if implicit {
                push_str(out, "read(");
            } else {
                push_str(out, "prop(");
                push_key(out, receiver);
                out.push(',');
            }
            push_str(out, name.as_str());
            out.push(')');
            assert(out@ =~= old(out)@ + spec_expression_key(*e));
        },
        AngularExpression::Interpolation { strings, expressions } => {
            push_str(out, "interp([");
            push_quoted_list(out, strings);
            push_str(out, "],[");
            proof { assert(decreases_to!(*expressions => expressions@)); }
            push_key_list(out, expressions);
            push_str(out, "])");
            assert(out@ =~= old(out)@ + spec_expression_key(*e));
        },
    }
}

fn push_key_list(out: &mut String, s: &Vec<AngularExpression>)
    ensures
        final(out)@ == old(out)@ + key_list(s@),
    decreases s@, 0nat,
{
    let n = s.len();
    let mut i: usize = 0;
    while i < n
        invariant
            n == s@.len(),
            i <= n,
            out@ == old(out)@ + key_list(s@.take(i as int)),
        decreases n - i,
    {
        let ghost before = out@;
        if i > 0 {
            out.push(',');
        }
        proof { assert(decreases_to!(s@ => s@[i as int])); }
        push_key(out, &s[i]);
        proof {
            let t = s@.take(i as int + 1);
            assert(t.drop_last() =~= s@.take(i as int));
            assert(t.last() == s@[i as int]);
            if i == 0 {
                assert(out@ =~= old(out)@ + key_list(t));
            } else {
                assert(out@ =~= before + seq![','] + spec_expression_key(s@[i as int]));
                assert(out@ =~= old(out)@ + key_list(t));
            }
        }
        i = i + 1;
    }
    assert(s@.take(n as int) =~= s@);
}

/// The key of a template expression: the text under which the constant pool
/// recognises two pure-function bodies as one.
pub fn generate_angular_expression_key(expr: &AngularExpression) -> (r: String)
    ensures
        r@ == spec_expression_key(*expr),
{
    let mut r = String::new();
    push_key(&mut r, expr);
    assert(r@ =~= spec_expression_key(*expr));
    r
}

} // verus!
