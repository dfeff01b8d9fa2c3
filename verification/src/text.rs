//! Character-sequence helpers shared by the string logic of the dashboard.
use vstd::prelude::*;
use vstd::string::*;

verus! {

/// The characters of an optional string.
pub open spec fn opt_str(o: Option<String>) -> Option<Seq<char>> {
    match o {
        Some(s) => Some(s@),
        None => None,
    }
}

/// `p` is a prefix of `s`.
pub open spec fn is_prefix(p: Seq<char>, s: Seq<char>) -> bool {
    p.len() <= s.len() && s.subrange(0, p.len() as int) == p
}

/// `p` is a suffix of `s`.
pub open spec fn is_suffix(p: Seq<char>, s: Seq<char>) -> bool {
    p.len() <= s.len() && s.subrange(s.len() - p.len(), s.len() as int) == p
}

/// `p` occurs in `s` starting at index `i`.
pub open spec fn occurs_at(p: Seq<char>, s: Seq<char>, i: int) -> bool {
    0 <= i && i + p.len() <= s.len() && s.subrange(i, i + p.len()) == p
}

/// `p` occurs somewhere in `s`.
pub open spec fn contains_seq(s: Seq<char>, p: Seq<char>) -> bool {
    exists|i: int| occurs_at(p, s, i)
}

/// The characters of `s`, one by one.
pub fn chars_of(s: &str) -> (v: Vec<char>)
    ensures
        v@ == s@,
{
    let n = s.unicode_len();
    let mut v: Vec<char> = Vec::new();
    let mut i: usize = 0;
    while i < n
        invariant
            n == s@.len(),
            i <= n,
            v@ == s@.subrange(0, i as int),
        decreases n - i,
    {
        v.push(s.get_char(i));
        i += 1;
    }
    v
}

/// `String::push` of std: appends one character.
#[verifier::external_body]
pub(crate) fn push_char(s: &mut String, c: char)
    ensures
        final(s)@ == old(s)@.push(c),
{
    s.push(c);
}

/// A `String` holding exactly the characters of `v`.
pub fn string_from_chars(v: &Vec<char>) -> (s: String)
    ensures
        s@ == v@,
{
    let mut s = String::new();
    let mut i: usize = 0;
    while i < v.len()
        invariant
            i <= v.len(),
            s@ == v@.subrange(0, i as int),
        decreases v.len() - i,
    {
        push_char(&mut s, v[i]);
        i += 1;
    }
    s
}

/// Whether `p` occurs in `s` at index `at`.
pub fn occurs_at_exec(s: &Vec<char>, p: &Vec<char>, at: usize) -> (r: bool)
    ensures
        r == occurs_at(p@, s@, at as int),
{
    if at > s.len() || p.len() > s.len() - at {
        return false;
    }
    let mut j: usize = 0;
    while j < p.len()
        invariant
            at + p.len() <= s.len(),
            j <= p.len(),
            forall|k: int| 0 <= k < j ==> s@[at + k] == p@[k],
        decreases p.len() - j,
    {
        if s[at + j] != p[j] {
            assert(s@.subrange(at as int, at + p.len())[j as int] != p@[j as int]);
            return false;
        }
        j += 1;
    }
    assert(s@.subrange(at as int, at + p.len()) =~= p@);
    true
}

/// Whether `p` is a prefix of `s`.
pub fn starts_with(s: &str, p: &str) -> (r: bool)
    ensures
        r == is_prefix(p@, s@),
{
    let sv = chars_of(s);
    let pv = chars_of(p);
    occurs_at_exec(&sv, &pv, 0)
}

/// Whether `p` is a suffix of `s`.
pub fn ends_with(s: &str, p: &str) -> (r: bool)
    ensures
        r == is_suffix(p@, s@),
{
    let sv = chars_of(s);
    let pv = chars_of(p);
    if pv.len() > sv.len() {
        return false;
    }
    occurs_at_exec(&sv, &pv, sv.len() - pv.len())
}

/// Whether `p` occurs anywhere in `s`.
pub fn contains_str(s: &str, p: &str) -> (r: bool)
    ensures
        r == contains_seq(s@, p@),
{
    let sv = chars_of(s);
    let pv = chars_of(p);
    if pv.len() > sv.len() {
        assert forall|i: int| !occurs_at(p@, s@, i) by {}
        return false;
    }
    let limit = sv.len() - pv.len();
    let mut i: usize = 0;
    loop
        invariant
            limit == sv.len() - pv.len(),
            sv@ == s@,
            pv@ == p@,
            i <= limit,
            forall|k: int| 0 <= k < i ==> !occurs_at(p@, s@, k),
        ensures
            forall|k: int| 0 <= k <= limit ==> !occurs_at(p@, s@, k),
        decreases limit - i,
    {
        if occurs_at_exec(&sv, &pv, i) {
            return true;
        }
        if i == limit {
            break;
        }
        i += 1;
    }
    assert forall|k: int| !occurs_at(p@, s@, k) by {}
    false
}

} // verus!
verus! {

/// ASCII lowercase of one character; other characters are unchanged.
pub open spec fn lower_char(c: char) -> char {
    if 'A' <= c && c <= 'Z' {
        ((c as u32) + 32) as char
    } else {
        c
    }
}

/// ASCII lowercase of a character sequence (`str::to_ascii_lowercase`).
pub open spec fn ascii_lower(s: Seq<char>) -> Seq<char> {
    s.map_values(|c: char| lower_char(c))
}

pub fn lower_char_exec(c: char) -> (r: char)
    ensures
        r == lower_char(c),
{
    if 'A' <= c && c <= 'Z' {
        let b: u8 = c as u8;
        let r = (b + 32) as char;
        assert(r == ((c as u32) + 32) as char);
        r
    } else {
        c
    }
}

} // verus!
verus! {

/// `s` with every trailing copy of `suf` removed (`str::trim_end_matches`).
pub open spec fn trim_end_all(s: Seq<char>, suf: Seq<char>) -> Seq<char>
    decreases s.len(),
{
    if suf.len() > 0 && is_suffix(suf, s) {
        trim_end_all(s.subrange(0, s.len() - suf.len()), suf)
    } else {
        s
    }
}

/// `s` with every leading copy of `pre` removed (`str::trim_start_matches`).
pub open spec fn trim_start_all(s: Seq<char>, pre: Seq<char>) -> Seq<char>
    decreases s.len(),
{
    if pre.len() > 0 && is_prefix(pre, s) {
        trim_start_all(s.subrange(pre.len() as int, s.len() as int), pre)
    } else {
        s
    }
}

/// Joining a path onto a directory as `Path::join` does on Unix: an absolute
/// `name` replaces `dir`; otherwise a `/` separates them unless `dir` is empty
/// or already ends in one.
pub open spec fn path_join(dir: Seq<char>, name: Seq<char>) -> Seq<char> {
    if name.len() > 0 && name[0] == '/' {
        name
    } else if dir.len() == 0 || dir.last() == '/' {
        dir + name
    } else {
        dir + seq!['/'] + name
    }
}

/// The ASCII digit for `d < 10`.
pub open spec fn digit_char(d: nat) -> char {
    ((d + 48) as u32) as char
}

/// Decimal digits of `n`, without leading zeros (`u64::to_string`).
pub open spec fn decimal(n: nat) -> Seq<char>
    decreases n,
{
    if n < 10 {
        seq![digit_char(n)]
    } else {
        decimal(n / 10).push(digit_char(n % 10))
    }
}

/// Characters equal one by one.
pub fn str_eq(a: &str, b: &str) -> (r: bool)
    ensures
        r == (a@ == b@),
{
    let av = chars_of(a);
    let bv = chars_of(b);
    if av.len() != bv.len() {
        return false;
    }
    let r = occurs_at_exec(&av, &bv, 0);
    assert(r ==> av@ =~= av@.subrange(0, bv@.len() as int));
    assert(av@.subrange(0, bv@.len() as int) =~= av@);
    r
}

/// End index of `trim_end_all(v[..end], suf)`.
pub fn trim_end_len(v: &Vec<char>, end: usize, suf: &Vec<char>) -> (r: usize)
    requires
        end <= v.len(),
    ensures
        r <= end,
        v@.subrange(0, r as int) == trim_end_all(v@.subrange(0, end as int), suf@),
    decreases end,
{
    if suf.len() > 0 && suf.len() <= end && occurs_at_exec(v, suf, end - suf.len()) {
        proof {
            let s = v@.subrange(0, end as int);
            assert(s.subrange(s.len() - suf@.len(), s.len() as int) =~= v@.subrange(
                end - suf@.len(),
                end as int,
            ));
            assert(s.subrange(0, s.len() - suf@.len()) =~= v@.subrange(0, end - suf@.len()));
        }
        trim_end_len(v, end - suf.len(), suf)
    } else {
        proof {
            let s = v@.subrange(0, end as int);
            if suf@.len() > 0 && is_suffix(suf@, s) {
                assert(s.subrange(s.len() - suf@.len(), s.len() as int) =~= v@.subrange(
                    end - suf@.len(),
                    end as int,
                ));
            }
        }
        end
    }
}

/// Start index of `trim_start_all(v[start..], pre)`.
pub fn trim_start_index(v: &Vec<char>, start: usize, pre: &Vec<char>) -> (r: usize)
    requires
        start <= v.len(),
    ensures
        start <= r <= v.len(),
        v@.subrange(r as int, v.len() as int) == trim_start_all(
            v@.subrange(start as int, v.len() as int),
            pre@,
        ),
    decreases v.len() - start,
{
    if pre.len() > 0 && occurs_at_exec(v, pre, start) {
        proof {
            let s = v@.subrange(start as int, v.len() as int);
            assert(s.subrange(0, pre@.len() as int) =~= v@.subrange(
                start as int,
                start + pre@.len(),
            ));
            assert(s.subrange(pre@.len() as int, s.len() as int) =~= v@.subrange(
                start + pre@.len(),
                v.len() as int,
            ));
        }
        trim_start_index(v, start + pre.len(), pre)
    } else {
        proof {
            let s = v@.subrange(start as int, v.len() as int);
            if pre@.len() > 0 && is_prefix(pre@, s) {
                assert(s.subrange(0, pre@.len() as int) =~= v@.subrange(
                    start as int,
                    start + pre@.len(),
                ));
            }
        }
        start
    }
}

/// The characters `v[from..to]` as a `String`.
pub fn string_from_range(v: &Vec<char>, from: usize, to: usize) -> (s: String)
    requires
        from <= to <= v.len(),
    ensures
        s@ == v@.subrange(from as int, to as int),
{
    let mut s = String::new();
    let mut i: usize = from;
    while i < to
        invariant
            from <= i <= to,
            to <= v.len(),
            s@ == v@.subrange(from as int, i as int),
        decreases to - i,
    {
        push_char(&mut s, v[i]);
        i += 1;
        assert(s@ =~= v@.subrange(from as int, i as int));
    }
    s
}

/// Appends the characters of `v` to `s`.
pub fn push_chars(s: &mut String, v: &Vec<char>)
    ensures
        final(s)@ == old(s)@ + v@,
{
    let mut i: usize = 0;
    while i < v.len()
        invariant
            i <= v.len(),
            s@ == old(s)@ + v@.subrange(0, i as int),
        decreases v.len() - i,
    {
        push_char(s, v[i]);
        i += 1;
        assert(s@ =~= old(s)@ + v@.subrange(0, i as int));
    }
    assert(v@.subrange(0, v.len() as int) =~= v@);
}

/// `path_join` on strings.
pub fn path_join_exec(dir: &str, name: &str) -> (r: String)
    ensures
        r@ == path_join(dir@, name@),
{
    let nv = chars_of(name);
    if nv.len() > 0 && nv[0] == '/' {
        return string_from_chars(&nv);
    }
    let dv = chars_of(dir);
    let mut r = string_from_chars(&dv);
    if !(dv.len() == 0 || dv[dv.len() - 1] == '/') {
        push_char(&mut r, '/');
    }
    push_chars(&mut r, &nv);
    r
}

/// The ASCII digit for `d < 10`.
pub fn digit_char_exec(d: u64) -> (c: char)
    requires
        d < 10,
    ensures
        c == digit_char(d as nat),
{
    let b: u8 = d as u8;
    (b + 48) as char
}

/// Decimal digits of `n`.
pub fn decimal_exec(n: u64) -> (v: Vec<char>)
    ensures
        v@ == decimal(n as nat),
    decreases n,
{
    if n < 10 {
        let mut v = Vec::new();
        v.push(digit_char_exec(n));
        proof {
            assert(v@ =~= seq![digit_char(n as nat)]);
        }
        v
    } else {
        let mut v = decimal_exec(n / 10);
        v.push(digit_char_exec(n % 10));
        v
    }
}

/// ASCII lowercase of a string.
pub fn ascii_lowercase(s: &str) -> (r: String)
    ensures
        r@ == ascii_lower(s@),
{
    let v = chars_of(s);
    let mut r = String::new();
    let mut i: usize = 0;
    while i < v.len()
        invariant
            i <= v.len(),
            v@ == s@,
            r@ == ascii_lower(s@.subrange(0, i as int)),
        decreases v.len() - i,
    {
        push_char(&mut r, lower_char_exec(v[i]));
        i += 1;
        assert(ascii_lower(s@.subrange(0, i as int)) =~= ascii_lower(
            s@.subrange(0, i - 1),
        ).push(lower_char(s@[i - 1])));
    }
    assert(s@.subrange(0, v.len() as int) =~= s@);
    r
}

} // verus!
