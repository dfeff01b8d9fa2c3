//! Running targets: shell quoting, session keys and the statuses of the
//! targets that the dashboard launched.
use crate::text::{chars_of, push_char};
use vstd::prelude::*;

verus! {

/// Single quotes inside a shell argument written as `'\''`.
pub open spec fn quote_escaped(s: Seq<char>) -> Seq<char>
    decreases s.len(),
{
    if s.len() == 0 {
        Seq::empty()
    } else {
        quote_escaped(s.drop_last()) + if s.last() == '\'' {
            seq!['\'', '\\', '\'', '\'']
        } else {
            seq![s.last()]
        }
    }
}

/// `arg` quoted for a POSIX shell: wrapped in single quotes, each inner single
/// quote closed, escaped and reopened.
pub open spec fn shell_quoted(arg: Seq<char>) -> Seq<char> {
    seq!['\''] + quote_escaped(arg) + seq!['\'']
}

/// Quotes `arg` for a POSIX shell (see `shell_quoted`).
pub fn shell_escape_arg(arg: &str) -> (r: String)
    ensures
        r@ == shell_quoted(arg@),
{
    let v = chars_of(arg);
    let mut r = String::new();
    push_char(&mut r, '\'');
    let mut i: usize = 0;
    while i < v.len()
        invariant
            i <= v.len(),
            v@ == arg@,
            r@ == seq!['\''] + quote_escaped(arg@.subrange(0, i as int)),
        decreases v.len() - i,
    {
        assert(arg@.subrange(0, i + 1).drop_last() =~= arg@.subrange(0, i as int));
        if v[i] == '\'' {
            push_char(&mut r, '\'');
            push_char(&mut r, '\\');
            push_char(&mut r, '\'');
            push_char(&mut r, '\'');
        } else {
            push_char(&mut r, v[i]);
        }
        i += 1;
        assert(r@ =~= seq!['\''] + quote_escaped(arg@.subrange(0, i as int)));
    }
    push_char(&mut r, '\'');
    assert(arg@.subrange(0, v.len() as int) =~= arg@);
    r
}

/// Quotes a path for a POSIX shell, as `shell_escape_arg` does its text.
pub fn shell_escape_path(path: &str) -> (r: String)
    ensures
        r@ == shell_quoted(path@),
{
    shell_escape_arg(path)
}

/// ASCII letters and digits.
pub open spec fn is_ascii_alnum(c: char) -> bool {
    ('a' <= c && c <= 'z') || ('A' <= c && c <= 'Z') || ('0' <= c && c <= '9')
}

/// Every character that is not an ASCII letter or digit replaced by `_`.
pub open spec fn sanitized(s: Seq<char>) -> Seq<char> {
    s.map_values(|c: char| if is_ascii_alnum(c) { c } else { '_' })
}

/// Replaces every character that is not an ASCII letter or digit by `_`.
pub fn sanitize_runtime_key(value: &str) -> (r: String)
    ensures
        r@ == sanitized(value@),
{
    let v = chars_of(value);
    let mut r = String::new();
    let mut i: usize = 0;
    while i < v.len()
        invariant
            i <= v.len(),
            v@ == value@,
            r@ == sanitized(value@.subrange(0, i as int)),
        decreases v.len() - i,
    {
        let c = v[i];
        let k = if ('a' <= c && c <= 'z') || ('A' <= c && c <= 'Z') || ('0' <= c && c <= '9') {
            c
        } else {
            '_'
        };
        push_char(&mut r, k);
        i += 1;
        assert(r@ =~= sanitized(value@.subrange(0, i as int)));
    }
    assert(value@.subrange(0, v.len() as int) =~= value@);
    r
}

/// The key of a running target: project path, kind and name joined by `__`,
/// then sanitized.
pub open spec fn runtime_key(project_path: Seq<char>, kind: Seq<char>, name: Seq<char>) -> Seq<char> {
    sanitized(project_path + seq!['_', '_'] + kind + seq!['_', '_'] + name)
}

/// Identifies a running target of a project (see `runtime_key`).
pub fn target_runtime_key(project_path: &str, target_kind: &str, target_name: &str) -> (r: String)
    ensures
        r@ == runtime_key(project_path@, target_kind@, target_name@),
{
    let mut joined = String::new();
    joined.append(project_path);
    joined.append("__");
    joined.append(target_kind);
    joined.append("__");
    joined.append(target_name);
    proof {
        reveal_strlit("__");
        assert(joined@ =~= project_path@ + seq!['_', '_'] + target_kind@ + seq!['_', '_']
            + target_name@);
    }
    sanitize_runtime_key(joined.as_str())
}

} // verus!
