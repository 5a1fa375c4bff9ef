//! Closure Compiler i18n naming helpers.
//!
//! Variable names for translated messages (`i18n_N` for `$localize`,
//! `MSG_...` for `goog.getMsg`), file-based message suffixes, and the
//! serialization of messages with `{$placeholder}` markers.

use vstd::prelude::*;
use crate::text::{
    ascii_lower, ascii_upper, chars_of, decimal, is_alnum, is_ascii_alnum, is_digit, is_upper,
    lower_all, push_chars, push_decimal, push_str, string_of, to_lower, to_upper, upper_all,
};

verus! {

/// The name of an i18n variable in standard (non-Closure) mode: `i18n_<index>`.
pub open spec fn spec_i18n_var_name(index: nat) -> Seq<char> {
    "i18n_"@ + decimal(index)
}

/// Generates an i18n variable name for the standard (non-Closure) mode.
///
/// Uses a lower-case prefix so that Closure does not treat it as a constant.
pub fn generate_i18n_var_name(index: usize) -> (r: String)
    ensures
        r@ == spec_i18n_var_name(index as nat),
{
    let mut r = String::new();
    push_str(&mut r, "i18n_");
    push_decimal(&mut r, index as u64);
    r
}

/// Every character that is not an ASCII letter or digit replaced by `_`.
pub open spec fn spec_sanitize_identifier(s: Seq<char>) -> Seq<char> {
    Seq::new(s.len(), |i: int| if is_alnum(s[i]) { s[i] } else { '_' })
}

/// Sanitizes a string to be used as an identifier: replaces every character
/// that is not an ASCII letter or digit with an underscore.
fn sanitize_identifier(s: &str) -> (r: String)
    ensures
        r@ == spec_sanitize_identifier(s@),
{
    let chars = chars_of(s);
    let mut out: Vec<char> = Vec::new();
    let mut i: usize = 0;
    while i < chars.len()
        invariant
            chars@ == s@,
            i <= chars@.len(),
            out@ == spec_sanitize_identifier(s@).subrange(0, i as int),
        decreases chars.len() - i,
    {
        let c = chars[i];
        out.push(if is_ascii_alnum(c) { c } else { '_' });
        i = i + 1;
        assert(out@ =~= spec_sanitize_identifier(s@).subrange(0, i as int));
    }
    assert(spec_sanitize_identifier(s@).subrange(0, chars@.len() as int) =~= spec_sanitize_identifier(s@));
    string_of(&out)
}

/// The Closure-compatible message variable name: `MSG_EXTERNAL_<sanitized id>$$<suffix>`
/// with external ids and a message id, `MSG_<suffix>_<index>` otherwise.
pub open spec fn spec_closure_var_name(message_id: Option<Seq<char>>, file_suffix: Seq<char>, index: nat, use_external_ids: bool) -> Seq<char> {
    if use_external_ids && message_id is Some {
        "MSG_EXTERNAL_"@ + spec_sanitize_identifier(message_id->0) + "$$"@ + file_suffix
    } else {
        "MSG_"@ + file_suffix + "_"@ + decimal(index)
    }
}

/// The view of an optional string slice.
pub open spec fn opt_str_view(s: Option<&str>) -> Option<Seq<char>> {
    match s {
        Some(x) => Some(x@),
        None => None,
    }
}

/// Generates a Closure-compatible variable name for `goog.getMsg`.
///
/// When `use_external_ids` is true and there is a message id, generates
/// `MSG_EXTERNAL_{sanitized_id}$${suffix}`; otherwise `MSG_{suffix}_{index}`.
pub fn generate_closure_var_name(message_id: Option<&str>, file_suffix: &str, index: usize, use_external_ids: bool) -> (r: String)
    ensures
        r@ == spec_closure_var_name(opt_str_view(message_id), file_suffix@, index as nat, use_external_ids),
{
    let mut r = String::new();
    if use_external_ids && message_id.is_some() {
        let id = message_id.unwrap();
        let sanitized = sanitize_identifier(id);
        push_str(&mut r, "MSG_EXTERNAL_");
        push_str(&mut r, sanitized.as_str());
        push_str(&mut r, "$$");
        push_str(&mut r, file_suffix);
        proof {
            assert(r@ =~= "MSG_EXTERNAL_"@ + spec_sanitize_identifier(id@) + "$$"@ + file_suffix@);
        }
    } else {
        push_str(&mut r, "MSG_");
        push_str(&mut r, file_suffix);
        push_str(&mut r, "_");
        push_decimal(&mut r, index as u64);
        proof {
            assert(r@ =~= "MSG_"@ + file_suffix@ + "_"@ + decimal(index as nat));
        }
    }
    r
}

/// The file-based suffix: ASCII letters and digits upper-cased, every other
/// character replaced by `_`, and a final `_`.
pub open spec fn spec_file_based_i18n_suffix(path: Seq<char>) -> Seq<char> {
    Seq::new(path.len(), |i: int| if is_alnum(path[i]) { to_upper(path[i]) } else { '_' }).push('_')
}

/// Generates a file-based i18n suffix from a file path.
///
/// Replaces non-alphanumeric characters with underscores, converts to upper
/// case, and appends an underscore.
pub fn generate_file_based_i18n_suffix(file_path: &str) -> (r: String)
    ensures
        r@ == spec_file_based_i18n_suffix(file_path@),
{
    let chars = chars_of(file_path);
    let ghost body = Seq::new(file_path@.len(), |i: int| if is_alnum(file_path@[i]) { to_upper(file_path@[i]) } else { '_' });
    let mut out: Vec<char> = Vec::new();
    let mut i: usize = 0;
    while i < chars.len()
        invariant
            chars@ == file_path@,
            i <= chars@.len(),
            body == Seq::new(file_path@.len(), |i: int| if is_alnum(file_path@[i]) { to_upper(file_path@[i]) } else { '_' }),
            out@ == body.subrange(0, i as int),
        decreases chars.len() - i,
    {
        let c = chars[i];
        out.push(if is_ascii_alnum(c) { ascii_upper(c) } else { '_' });
        i = i + 1;
        assert(out@ =~= body.subrange(0, i as int));
    }
    out.push('_');
    assert(out@ =~= spec_file_based_i18n_suffix(file_path@));
    string_of(&out)
}

/// The public (upper-case) form of a placeholder name: ASCII letters upper-cased,
/// and every character other than `A-Z`, `0-9` and `_` replaced by `_`.
pub open spec fn spec_to_public_name(s: Seq<char>) -> Seq<char> {
    Seq::new(s.len(), |i: int| {
        let u = to_upper(s[i]);
        if is_upper(u) || is_digit(u) || u == '_' { u } else { '_' }
    })
}

/// The pieces of `s` between occurrences of `sep` (at least one piece; empty
/// pieces where separators are adjacent or at an end).
pub open spec fn split_on(s: Seq<char>, sep: char) -> Seq<Seq<char>>
    decreases s.len(),
{
    if s.len() == 0 {
        seq![seq![]]
    } else {
        let parts = split_on(s.drop_last(), sep);
        if s.last() == sep {
            parts.push(seq![])
        } else {
            parts.update(parts.len() - 1, parts.last().push(s.last()))
        }
    }
}

/// A non-empty string of ASCII digits.
pub open spec fn all_digits(s: Seq<char>) -> bool {
    s.len() > 0 && forall|i: int| 0 <= i < s.len() ==> is_digit(#[trigger] s[i])
}

/// The first character upper-cased and the rest lower-cased.
pub open spec fn capitalize(c: Seq<char>) -> Seq<char> {
    if c.len() == 0 { c } else { seq![to_upper(c[0])] + lower_all(c.skip(1)) }
}

/// The capitalized chunks, concatenated.
pub open spec fn join_capitalized(chunks: Seq<Seq<char>>) -> Seq<char>
    decreases chunks.len(),
{
    if chunks.len() == 0 {
        seq![]
    } else {
        join_capitalized(chunks.drop_last()) + capitalize(chunks.last())
    }
}

/// The placeholder name format of i18n messages: the public name, or (in
/// camel case) its `_`-separated chunks joined in camelCase, a trailing
/// numeric chunk kept as a `_N` suffix; a name with no `_` is just lower-cased.
pub open spec fn spec_format_i18n_placeholder_name(name: Seq<char>, use_camel_case: bool) -> Seq<char> {
    let public_name = spec_to_public_name(name);
    if !use_camel_case {
        public_name
    } else {
        let chunks = split_on(public_name, '_');
        if chunks.len() == 1 {
            lower_all(name)
        } else {
            let has_postfix = all_digits(chunks.last());
            let body = if has_postfix { chunks.drop_last() } else { chunks };
            let raw = lower_all(body[0]) + join_capitalized(body.skip(1));
            if has_postfix { raw + seq!['_'] + chunks.last() } else { raw }
        }
    }
}

proof fn lemma_split_nonempty(s: Seq<char>, sep: char)
    ensures
        split_on(s, sep).len() >= 1,
    decreases s.len(),
{
    if s.len() > 0 {
        lemma_split_nonempty(s.drop_last(), sep);
    }
}

fn to_public_name(name: &Vec<char>) -> (r: Vec<char>)
    ensures
        r@ == spec_to_public_name(name@),
{
    let mut out: Vec<char> = Vec::new();
    let mut i: usize = 0;
    while i < name.len()
        invariant
            i <= name@.len(),
            out@ == spec_to_public_name(name@).subrange(0, i as int),
        decreases name.len() - i,
    {
        let u = ascii_upper(name[i]);
        out.push(if ('A' <= u && u <= 'Z') || ('0' <= u && u <= '9') || u == '_' { u } else { '_' });
        i = i + 1;
        assert(out@ =~= spec_to_public_name(name@).subrange(0, i as int));
    }
    assert(spec_to_public_name(name@).subrange(0, name@.len() as int) =~= spec_to_public_name(name@));
    out
}

fn lower_chars(v: &Vec<char>, from: usize) -> (r: Vec<char>)
    requires
        from <= v@.len(),
    ensures
        r@ == lower_all(v@.skip(from as int)),
{
    let mut out: Vec<char> = Vec::new();
    let mut i: usize = from;
    while i < v.len()
        invariant
            from <= i <= v@.len(),
            out@ == lower_all(v@.skip(from as int)).subrange(0, i - from),
        decreases v.len() - i,
    {
        out.push(ascii_lower(v[i]));
        i = i + 1;
        assert(out@ =~= lower_all(v@.skip(from as int)).subrange(0, i - from));
    }
    assert(lower_all(v@.skip(from as int)).subrange(0, v@.len() - from) =~= lower_all(v@.skip(from as int)));
    out
}

/// Splits characters on a separator; each piece comes back as a character vector.
fn split_chars(s: &Vec<char>, sep: char) -> (r: Vec<Vec<char>>)
    ensures
        r@.len() == split_on(s@, sep).len(),
        forall|i: int| 0 <= i < r@.len() ==> (#[trigger] r@[i])@ == split_on(s@, sep)[i],
{
    let mut done: Vec<Vec<char>> = Vec::new();
    let mut cur: Vec<char> = Vec::new();
    let mut i: usize = 0;
    while i < s.len()
        invariant
            i <= s@.len(),
            ({
                let parts = split_on(s@.subrange(0, i as int), sep);
                &&& parts.len() == done@.len() + 1
                &&& forall|j: int| 0 <= j < done@.len() ==> (#[trigger] done@[j])@ == parts[j]
                &&& cur@ == parts.last()
            }),
        decreases s.len() - i,
    {
        let c = s[i];
        proof {
            assert(s@.subrange(0, i as int + 1).drop_last() =~= s@.subrange(0, i as int));
        }
        if c == sep {
            let mut fresh: Vec<char> = Vec::new();
            std::mem::swap(&mut cur, &mut fresh);
            done.push(fresh);
        } else {
            cur.push(c);
        }
        i = i + 1;
    }
    assert(s@.subrange(0, s@.len() as int) =~= s@);
    done.push(cur);
    done
}

fn is_all_digits(c: &Vec<char>) -> (r: bool)
    ensures
        r == all_digits(c@),
{
    if c.len() == 0 {
        return false;
    }
    let mut i: usize = 0;
    while i < c.len()
        invariant
            i <= c@.len(),
            forall|j: int| 0 <= j < i ==> is_digit(#[trigger] c@[j]),
        decreases c.len() - i,
    {
        if !('0' <= c[i] && c[i] <= '9') {
            return false;
        }
        i = i + 1;
    }
    true
}

/// Formats an i18n placeholder name (camelCase when `use_camel_case`).
fn format_i18n_placeholder_name(name: &str, use_camel_case: bool) -> (r: Vec<char>)
    ensures
        r@ == spec_format_i18n_placeholder_name(name@, use_camel_case),
{
    let name_chars = chars_of(name);
    let public_name = to_public_name(&name_chars);
    if !use_camel_case {
        return public_name;
    }
    let chunks = split_chars(&public_name, '_');
    let ghost parts = split_on(public_name@, '_');
    proof { lemma_split_nonempty(public_name@, '_'); }
    if chunks.len() == 1 {
        return lower_chars(&name_chars, 0);
    }
    let has_postfix = is_all_digits(&chunks[chunks.len() - 1]);
    let body_len = if has_postfix { chunks.len() - 1 } else { chunks.len() };
    let ghost body = if has_postfix { parts.drop_last() } else { parts };
    assert(body.len() == body_len);
    let mut raw = lower_chars(&chunks[0], 0);
    assert(chunks@[0]@.skip(0) =~= chunks@[0]@);
    let ghost raw0 = raw@;
    let mut k: usize = 1;
    while k < body_len
        invariant
            2 <= chunks@.len(),
            chunks@.len() == parts.len(),
            forall|i: int| 0 <= i < chunks@.len() ==> (#[trigger] chunks@[i])@ == parts[i],
            body_len == body.len(),
            body_len <= chunks@.len(),
            forall|i: int| 0 <= i < body.len() ==> #[trigger] body[i] == parts[i],
            1 <= k <= body_len,
            raw0 == lower_all(body[0]),
            raw@ == raw0 + join_capitalized(body.skip(1).subrange(0, k - 1)),
        decreases body_len - k,
    {
        let c = &chunks[k];
        let mut piece: Vec<char> = Vec::new();
        if c.len() > 0 {
            piece.push(ascii_upper(c[0]));
            let rest = lower_chars(c, 1);
            let mut rest = rest;
            piece.append(&mut rest);
        }
        proof {
            assert(piece@ =~= capitalize(body[k as int]));
            let pre = body.skip(1).subrange(0, k as int);
            assert(pre.drop_last() =~= body.skip(1).subrange(0, k - 1));
            assert(pre.last() == body[k as int]);
        }
        let mut piece = piece;
        raw.append(&mut piece);
        k = k + 1;
        proof {
            assert(raw@ =~= raw0 + join_capitalized(body.skip(1).subrange(0, k - 1)));
        }
    }
    assert(body.skip(1).subrange(0, body_len - 1) =~= body.skip(1));
    if has_postfix {
        raw.push('_');
        let mut post: Vec<char> = Vec::new();
        let last = &chunks[chunks.len() - 1];
        let mut i: usize = 0;
        while i < last.len()
            invariant
                i <= last@.len(),
                post@ == last@.subrange(0, i as int),
            decreases last.len() - i,
        {
            post.push(last[i]);
            i = i + 1;
            assert(post@ =~= last@.subrange(0, i as int));
        }
        assert(last@.subrange(0, last@.len() as int) =~= last@);
        raw.append(&mut post);
        assert(raw@ =~= spec_format_i18n_placeholder_name(name@, use_camel_case));
    }
    raw
}

/// Every non-overlapping occurrence of the non-empty `pat` in `s`, scanned left
/// to right, replaced by `rep`.
pub open spec fn replace_all(s: Seq<char>, pat: Seq<char>, rep: Seq<char>) -> Seq<char>
    decreases s.len(),
{
    if pat.len() == 0 || s.len() < pat.len() {
        s
    } else if s.subrange(0, pat.len() as int) == pat {
        rep + replace_all(s.skip(pat.len() as int), pat, rep)
    } else {
        seq![s[0]] + replace_all(s.skip(1), pat, rep)
    }
}

fn starts_with_at(s: &Vec<char>, i: usize, pat: &Vec<char>) -> (r: bool)
    requires
        i <= s@.len(),
    ensures
        r == (s@.len() - i >= pat@.len() && s@.subrange(i as int, i + pat@.len()) == pat@),
{
    if s.len() - i < pat.len() {
        return false;
    }
    let mut j: usize = 0;
    while j < pat.len()
        invariant
            i <= s@.len(),
            s@.len() - i >= pat@.len(),
            j <= pat@.len(),
            forall|k: int| 0 <= k < j ==> s@[i + k] == pat@[k],
        decreases pat.len() - j,
    {
        let sl = s.len();
        assert(i + j < sl);
        if s[i + j] != pat[j] {
            assert(s@.subrange(i as int, i + pat@.len())[j as int] != pat@[j as int]);
            return false;
        }
        j = j + 1;
    }
    assert(s@.subrange(i as int, i + pat@.len()) =~= pat@);
    true
}

/// Replaces every non-overlapping occurrence of the non-empty `pat` in `s` by `rep`.
fn replace_chars(s: &Vec<char>, pat: &Vec<char>, rep: &Vec<char>) -> (r: Vec<char>)
    requires
        pat@.len() > 0,
    ensures
        r@ == replace_all(s@, pat@, rep@),
{
    let mut out: Vec<char> = Vec::new();
    let mut i: usize = 0;
    assert(s@.skip(0) =~= s@);
    assert(out@ + replace_all(s@, pat@, rep@) =~= replace_all(s@, pat@, rep@));
    while i < s.len()
        invariant
            pat@.len() > 0,
            i <= s@.len(),
            out@ + replace_all(s@.skip(i as int), pat@, rep@) == replace_all(s@, pat@, rep@),
        decreases s.len() - i,
    {
        let ghost rest = s@.skip(i as int);
        if starts_with_at(s, i, pat) {
            proof {
                assert(rest.subrange(0, pat@.len() as int) =~= s@.subrange(i as int, i + pat@.len()));
                assert(rest.skip(pat@.len() as int) =~= s@.skip(i + pat@.len()));
            }
            let mut r2 = rep.clone();
            out.append(&mut r2);
            i = i + pat.len();
        } else {
            proof {
                if rest.len() >= pat@.len() {
                    assert(rest.subrange(0, pat@.len() as int) =~= s@.subrange(i as int, i + pat@.len()));
                }
                assert(rest.skip(1) =~= s@.skip(i + 1));
            }
            out.push(s[i]);
            i = i + 1;
        }
        proof {
            assert(out@ + replace_all(s@.skip(i as int), pat@, rep@) =~= replace_all(s@, pat@, rep@));
        }
    }
    assert(s@.skip(s@.len() as int) =~= seq![]);
    assert(out@ =~= replace_all(s@, pat@, rep@));
    out
}

/// The marker of a placeholder in an i18n message: `\u{FFFD}name\u{FFFD}`.
pub open spec fn placeholder_marker(name: Seq<char>) -> Seq<char> {
    seq!['\u{FFFD}'] + name + seq!['\u{FFFD}']
}

/// The Closure form of a placeholder: `{$formattedName}`.
pub open spec fn closure_placeholder(name: Seq<char>) -> Seq<char> {
    seq!['{', '$'] + spec_format_i18n_placeholder_name(name, true) + seq!['}']
}

/// The view of a list of `(name, value)` parameter pairs: the names.
pub open spec fn param_names(params: Seq<(String, String)>) -> Seq<Seq<char>> {
    Seq::new(params.len(), |i: int| params[i].0@)
}

/// The message with the markers of the first `n` parameters replaced, in order.
pub open spec fn serialized_for_closure(message: Seq<char>, names: Seq<Seq<char>>, n: int) -> Seq<char>
    decreases n,
{
    if n <= 0 {
        message
    } else {
        let prev = serialized_for_closure(message, names, n - 1);
        replace_all(prev, placeholder_marker(names[n - 1]), closure_placeholder(names[n - 1]))
    }
}

/// Serializes an i18n message for `goog.getMsg`: each parameter's marker
/// `\u{FFFD}name\u{FFFD}` becomes `{$formattedName}` (camelCase).
pub fn serialize_message_for_closure(message: &str, params: &[(String, String)]) -> (r: String)
    ensures
        r@ == serialized_for_closure(message@, param_names(params@), params@.len() as int),
{
    let mut result = chars_of(message);
    let mut i: usize = 0;
    while i < params.len()
        invariant
            i <= params@.len(),
            result@ == serialized_for_closure(message@, param_names(params@), i as int),
        decreases params.len() - i,
    {
        let name = params[i].0.as_str();
        let formatted = format_i18n_placeholder_name(name, true);
        let mut placeholder: Vec<char> = Vec::new();
        placeholder.push('{');
        placeholder.push('$');
        let mut f = formatted;
        placeholder.append(&mut f);
        placeholder.push('}');
        let name_chars = chars_of(name);
        let mut marker: Vec<char> = Vec::new();
        marker.push('\u{FFFD}');
        let mut nc = name_chars;
        marker.append(&mut nc);
        marker.push('\u{FFFD}');
        proof {
            assert(placeholder@ =~= closure_placeholder(param_names(params@)[i as int]));
            assert(marker@ =~= placeholder_marker(param_names(params@)[i as int]));
        }
        result = replace_chars(&result, &marker, &placeholder);
        i = i + 1;
    }
    string_of(&result)
}

} // verus!
