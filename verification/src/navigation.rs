//! Search queries scoped to columns: `%name`-style tokens pick the column
//! that the words after them are matched against.
use crate::collections::views;
use crate::text::{chars_of, is_prefix, string_from_chars};
use vstd::prelude::*;
use vstd::string::*;

verus! {

/// Unicode `White_Space` characters (`char::is_whitespace`).
pub open spec fn is_ws(c: char) -> bool {
    let u = c as u32;
    (9 <= u && u <= 13) || u == 32 || u == 0x85 || u == 0xA0 || u == 0x1680 || (0x2000 <= u
        && u <= 0x200A) || u == 0x2028 || u == 0x2029 || u == 0x202F || u == 0x205F || u
        == 0x3000
}

fn is_ws_exec(c: char) -> (r: bool)
    ensures
        r == is_ws(c),
{
    let u = c as u32;
    (9 <= u && u <= 13) || u == 32 || u == 0x85 || u == 0xA0 || u == 0x1680 || (0x2000 <= u
        && u <= 0x200A) || u == 0x2028 || u == 0x2029 || u == 0x202F || u == 0x205F || u
        == 0x3000
}

/// Reading `s` left to right: the words finished so far and the word in
/// progress.
pub open spec fn word_scan(s: Seq<char>) -> (Seq<Seq<char>>, Seq<char>)
    decreases s.len(),
{
    if s.len() == 0 {
        (Seq::empty(), Seq::empty())
    } else {
        let prev = word_scan(s.drop_last());
        let c = s.last();
        if is_ws(c) {
            if prev.1.len() > 0 {
                (prev.0.push(prev.1), Seq::empty())
            } else {
                prev
            }
        } else {
            (prev.0, prev.1.push(c))
        }
    }
}

/// The maximal runs of non-whitespace characters of `s`
/// (`str::split_whitespace`).
pub open spec fn words(s: Seq<char>) -> Seq<Seq<char>> {
    let scan = word_scan(s);
    if scan.1.len() > 0 {
        scan.0.push(scan.1)
    } else {
        scan.0
    }
}

/// The one column whose name starts with `prefix`; `None` for an empty
/// prefix or when no column or several columns match.
pub open spec fn column_match(prefix: Seq<char>, cols: Seq<Seq<char>>) -> Option<int> {
    if prefix.len() > 0 && exists|i: int|
        0 <= i < cols.len() && is_prefix(prefix, cols[i]) && forall|j: int|
            0 <= j < cols.len() && j != i ==> !is_prefix(prefix, #[trigger] cols[j]) {
        Some(
            choose|i: int|
                0 <= i < cols.len() && is_prefix(prefix, cols[i]) && forall|j: int|
                    0 <= j < cols.len() && j != i ==> !is_prefix(prefix, #[trigger] cols[j]),
        )
    } else {
        None
    }
}

/// Names of a slice of columns.
pub open spec fn column_names(columns: Seq<&str>) -> Seq<Seq<char>> {
    columns.map_values(|c: &str| c@)
}

/// The column selected by a `%prefix` token (see `column_match`).
pub fn matching_column(prefix: &str, columns: &[&str]) -> (r: Option<usize>)
    ensures
        r matches Some(i) ==> column_match(prefix@, column_names(columns@)) == Some(i as int),
        r is None ==> column_match(prefix@, column_names(columns@)) is None,
{
    let ghost cols = column_names(columns@);
    let p = chars_of(prefix);
    if p.len() == 0 {
        return None;
    }
    let mut first: Option<usize> = None;
    let mut count: usize = 0;
    let mut i: usize = 0;
    while i < columns.len()
        invariant
            i <= columns@.len(),
            cols == column_names(columns@),
            p@ == prefix@,
            count <= i,
            count == 0 <==> first is None,
            count == 0 ==> forall|j: int| 0 <= j < i ==> !is_prefix(prefix@, #[trigger] cols[j]),
            first matches Some(f) ==> f < i && is_prefix(prefix@, cols[f as int]) && forall|j: int|
                0 <= j < f ==> !is_prefix(prefix@, #[trigger] cols[j]),
            count == 1 ==> (first matches Some(f) && forall|j: int|
                0 <= j < i && j != f ==> !is_prefix(prefix@, #[trigger] cols[j])),
            count >= 2 ==> (first matches Some(f) && exists|j: int|
                0 <= j < i && j != f && is_prefix(prefix@, #[trigger] cols[j])),
        decreases columns@.len() - i,
    {
        let c = chars_of(columns[i]);
        assert(cols[i as int] == columns@[i as int]@);
        let m = crate::text::occurs_at_exec(&c, &p, 0);
        if m {
            if count == 0 {
                first = Some(i);
            }
            if count < 2 {
                count += 1;
            }
        }
        i += 1;
    }
    if count == 1 {
        let f = first.unwrap();
        proof {
            let f = f as int;
            assert(0 <= f < cols.len() && is_prefix(prefix@, cols[f]) && forall|j: int|
                0 <= j < cols.len() && j != f ==> !is_prefix(prefix@, #[trigger] cols[j]));
            let g = choose|g: int|
                0 <= g < cols.len() && is_prefix(prefix@, cols[g]) && forall|j: int|
                    0 <= j < cols.len() && j != g ==> !is_prefix(prefix@, #[trigger] cols[j]);
            if g != f {
                assert(!is_prefix(prefix@, cols[f]));
            }
        }
        Some(f)
    } else {
        proof {
            if count >= 2 {
                let f = first->0 as int;
                let j = choose|j: int| 0 <= j < i && j != f && is_prefix(prefix@, #[trigger] cols[j]);
                assert forall|g: int|
                    0 <= g < cols.len() && is_prefix(prefix@, cols[g]) implies exists|k: int|
                    0 <= k < cols.len() && k != g && is_prefix(prefix@, #[trigger] cols[k]) by {
                    if g == f {
                        assert(is_prefix(prefix@, cols[j]));
                    } else {
                        assert(is_prefix(prefix@, cols[f]));
                    }
                }
            }
        }
        None
    }
}

/// One token of a scoped query: a `%prefix` token naming exactly one column
/// makes later words go to that column; any other token is appended, after
/// a space, to the words of the active column.
pub open spec fn scope_step(st: (Seq<Seq<char>>, int), token: Seq<char>, cols: Seq<Seq<char>>) -> (
    Seq<Seq<char>>,
    int,
) {
    if token.len() > 0 && token[0] == '%' && column_match(token.drop_first(), cols) is Some {
        (st.0, column_match(token.drop_first(), cols)->0 + 1)
    } else {
        let q = st.0[st.1];
        let nq = if q.len() > 0 {
            q + seq![' '] + token
        } else {
            token
        };
        (st.0.update(st.1, nq), st.1)
    }
}

/// Queries per column and the active column after the given tokens; slot 0
/// collects the words for all columns, slot `i + 1` those for column `i`.
pub open spec fn scope_fold(tokens: Seq<Seq<char>>, cols: Seq<Seq<char>>) -> (Seq<Seq<char>>, int)
    decreases tokens.len(),
{
    if tokens.len() == 0 {
        (Seq::new(cols.len() + 1, |i: int| Seq::<char>::empty()), 0)
    } else {
        scope_step(scope_fold(tokens.drop_last(), cols), tokens.last(), cols)
    }
}

/// The query words for all columns (slot 0) and for each column.
pub open spec fn scoped(query: Seq<char>, cols: Seq<Seq<char>>) -> Seq<Seq<char>> {
    scope_fold(words(query), cols).0
}

proof fn lemma_scope_shape(tokens: Seq<Seq<char>>, cols: Seq<Seq<char>>)
    ensures
        scope_fold(tokens, cols).0.len() == cols.len() + 1,
        0 <= scope_fold(tokens, cols).1 <= cols.len(),
    decreases tokens.len(),
{
    if tokens.len() > 0 {
        lemma_scope_shape(tokens.drop_last(), cols);
    }
}

/// A word as `words` gives it: not empty, and no whitespace in it.
pub open spec fn clean_word(w: Seq<char>) -> bool {
    w.len() > 0 && forall|k: int| 0 <= k < w.len() ==> !is_ws(#[trigger] w[k])
}

/// A `%prefix` token that names exactly one column.
pub open spec fn is_column_token(token: Seq<char>, cols: Seq<Seq<char>>) -> bool {
    token.len() > 0 && token[0] == '%' && column_match(token.drop_first(), cols) is Some
}

/// The query slot the words after `tokens` go to: 0 (all columns) until a
/// column token, then that column's slot `i + 1`.
pub open spec fn slot_after(tokens: Seq<Seq<char>>, cols: Seq<Seq<char>>) -> int
    decreases tokens.len(),
{
    if tokens.len() == 0 {
        0
    } else if is_column_token(tokens.last(), cols) {
        column_match(tokens.last().drop_first(), cols)->0 + 1
    } else {
        slot_after(tokens.drop_last(), cols)
    }
}

/// The words of `tokens` that go to slot `c`, in order: those that are no
/// column token and come while slot `c` is the active one.
pub open spec fn slot_words(tokens: Seq<Seq<char>>, cols: Seq<Seq<char>>, c: int) -> Seq<Seq<char>>
    decreases tokens.len(),
{
    if tokens.len() == 0 {
        Seq::empty()
    } else if !is_column_token(tokens.last(), cols) && slot_after(tokens.drop_last(), cols) == c {
        slot_words(tokens.drop_last(), cols, c).push(tokens.last())
    } else {
        slot_words(tokens.drop_last(), cols, c)
    }
}

proof fn lemma_scan_clean(s: Seq<char>)
    ensures
        forall|i: int| 0 <= i < word_scan(s).0.len() ==> clean_word(#[trigger] word_scan(s).0[i]),
        forall|k: int| 0 <= k < word_scan(s).1.len() ==> !is_ws(#[trigger] word_scan(s).1[k]),
    decreases s.len(),
{
    if s.len() > 0 {
        lemma_scan_clean(s.drop_last());
        let prev = word_scan(s.drop_last());
        if !is_ws(s.last()) {
            assert forall|k: int| 0 <= k < word_scan(s).1.len() implies !is_ws(#[trigger] word_scan(s).1[k]) by {
                if k < prev.1.len() {
                    assert(word_scan(s).1[k] == prev.1[k]);
                }
            }
        } else if prev.1.len() > 0 {
            assert forall|i: int| 0 <= i < word_scan(s).0.len() implies clean_word(#[trigger] word_scan(s).0[i]) by {
                if i < prev.0.len() {
                    assert(word_scan(s).0[i] == prev.0[i]);
                }
            }
        }
    }
}

proof fn lemma_words_clean(s: Seq<char>)
    ensures
        forall|i: int| 0 <= i < words(s).len() ==> clean_word(#[trigger] words(s)[i]),
{
    lemma_scan_clean(s);
    let scan = word_scan(s);
    assert forall|i: int| 0 <= i < words(s).len() implies clean_word(#[trigger] words(s)[i]) by {
        if i < scan.0.len() {
            assert(words(s)[i] == scan.0[i]);
        } else {
            assert(words(s)[i] == scan.1);
        }
    }
}

proof fn lemma_scan_append_word(s: Seq<char>, t: Seq<char>)
    requires
        forall|k: int| 0 <= k < t.len() ==> !is_ws(#[trigger] t[k]),
    ensures
        word_scan(s + t) == (word_scan(s).0, word_scan(s).1 + t),
    decreases t.len(),
{
    if t.len() == 0 {
        assert(s + t =~= s);
        assert(word_scan(s).1 + t =~= word_scan(s).1);
    } else {
        let u = t.drop_last();
        lemma_scan_append_word(s, u);
        assert((s + t).drop_last() =~= s + u);
        assert((s + t).last() == t[t.len() - 1]);
        assert(word_scan(s).1 + t =~= (word_scan(s).1 + u).push(t.last()));
    }
}

/// Joining a word onto a slot's query as `scope_step` does adds it as one
/// more word.
proof fn lemma_join_word(q: Seq<char>, t: Seq<char>)
    requires
        q.len() == 0 || !is_ws(q.last()),
        clean_word(t),
    ensures
        ({
            let nq = if q.len() > 0 { q + seq![' '] + t } else { t };
            &&& words(nq) == words(q).push(t)
            &&& !is_ws(nq.last())
            &&& nq.len() > 0
        }),
{
    if q.len() == 0 {
        lemma_scan_append_word(Seq::empty(), t);
        assert(Seq::<char>::empty() + t =~= t);
        assert(word_scan(Seq::<char>::empty()) == (Seq::<Seq<char>>::empty(), Seq::<char>::empty()));
        assert(Seq::<char>::empty() + t =~= t);
        assert(words(q) =~= Seq::<Seq<char>>::empty());
        assert(t[t.len() - 1] == t.last());
    } else {
        let scan = word_scan(q);
        assert(q.drop_last().push(q.last()) =~= q);
        assert(scan.1.len() > 0);
        let qs = q.push(' ');
        assert(qs.drop_last() =~= q);
        assert(is_ws(' '));
        assert(word_scan(qs) == (scan.0.push(scan.1), Seq::<char>::empty()));
        lemma_scan_append_word(qs, t);
        assert(q + seq![' '] + t =~= qs + t);
        assert(Seq::<char>::empty() + t =~= t);
        assert((q + seq![' '] + t).last() == t[t.len() - 1]);
    }
}

proof fn lemma_fold_slots(tokens: Seq<Seq<char>>, cols: Seq<Seq<char>>)
    requires
        forall|i: int| 0 <= i < tokens.len() ==> clean_word(#[trigger] tokens[i]),
    ensures
        scope_fold(tokens, cols).1 == slot_after(tokens, cols),
        forall|c: int|
            0 <= c <= cols.len() ==> words(#[trigger] scope_fold(tokens, cols).0[c]) == slot_words(tokens, cols, c)
                && (scope_fold(tokens, cols).0[c].len() == 0 || !is_ws(scope_fold(tokens, cols).0[c].last())),
    decreases tokens.len(),
{
    lemma_scope_shape(tokens, cols);
    if tokens.len() == 0 {
        assert forall|c: int| 0 <= c <= cols.len() implies words(#[trigger] scope_fold(tokens, cols).0[c])
            == slot_words(tokens, cols, c) && (scope_fold(tokens, cols).0[c].len() == 0 || !is_ws(
            scope_fold(tokens, cols).0[c].last(),
        )) by {
            assert(scope_fold(tokens, cols).0[c] == Seq::<char>::empty());
            assert(word_scan(Seq::<char>::empty()) == (Seq::<Seq<char>>::empty(), Seq::<char>::empty()));
            assert(words(Seq::<char>::empty()) =~= Seq::<Seq<char>>::empty());
        }
    } else {
        let prev = tokens.drop_last();
        let tok = tokens.last();
        assert forall|i: int| 0 <= i < prev.len() implies clean_word(#[trigger] prev[i]) by {
            assert(prev[i] == tokens[i]);
        }
        lemma_fold_slots(prev, cols);
        lemma_scope_shape(prev, cols);
        let st = scope_fold(prev, cols);
        assert(clean_word(tokens[tokens.len() - 1]));
        if !is_column_token(tok, cols) {
            let a = st.1;
            lemma_join_word(st.0[a], tok);
            assert forall|c: int| 0 <= c <= cols.len() implies words(#[trigger] scope_fold(tokens, cols).0[c])
                == slot_words(tokens, cols, c) && (scope_fold(tokens, cols).0[c].len() == 0 || !is_ws(
                scope_fold(tokens, cols).0[c].last(),
            )) by {
                if c != a {
                    assert(scope_fold(tokens, cols).0[c] == st.0[c]);
                }
            }
        } else {
            assert forall|c: int| 0 <= c <= cols.len() implies words(#[trigger] scope_fold(tokens, cols).0[c])
                == slot_words(tokens, cols, c) && (scope_fold(tokens, cols).0[c].len() == 0 || !is_ws(
                scope_fold(tokens, cols).0[c].last(),
            )) by {
                assert(scope_fold(tokens, cols).0[c] == st.0[c]);
            }
        }
    }
}

/// Scoping a query hands each slot exactly its words: the words of slot `c`
/// of the result (0 for all columns, `i + 1` for column `i`) are the words
/// of the query that go to it (see `slot_words`), in order, and each word of
/// the query is kept whole.
pub proof fn law_scoped_slots_hold_their_words(query: Seq<char>, cols: Seq<Seq<char>>)
    ensures
        scoped(query, cols).len() == cols.len() + 1,
        forall|c: int| 0 <= c <= cols.len() ==> words(#[trigger] scoped(query, cols)[c]) == slot_words(words(query), cols, c),
{
    lemma_words_clean(query);
    lemma_scope_shape(words(query), cols);
    lemma_fold_slots(words(query), cols);
}

fn apply_token(queries: &mut Vec<String>, active: &mut usize, token: &Vec<char>, columns: &[&str])
    requires
        *old(active) < old(queries).len(),
        old(queries).len() == columns@.len() + 1,
    ensures
        (views(final(queries)@), *final(active) as int) == scope_step(
            (views(old(queries)@), *old(active) as int),
            token@,
            column_names(columns@),
        ),
        *final(active) < final(queries).len(),
        final(queries).len() == old(queries).len(),
{
    let ghost cols = column_names(columns@);
    if token.len() > 0 && token[0] == '%' {
        let mut rest: Vec<char> = Vec::new();
        let mut i: usize = 1;
        while i < token.len()
            invariant
                1 <= i <= token.len(),
                rest@ == token@.subrange(1, i as int),
            decreases token.len() - i,
        {
            rest.push(token[i]);
            i += 1;
            assert(rest@ =~= token@.subrange(1, i as int));
        }
        assert(rest@ =~= token@.drop_first());
        let rest_s = string_from_chars(&rest);
        if let Some(c) = matching_column(rest_s.as_str(), columns) {
            proof {
                let cm = column_match(token@.drop_first(), cols)->0;
                assert(0 <= cm < cols.len());
            }
            *active = c + 1;
            return;
        }
    }
    proof {
        if token@.len() > 0 && token@[0] == '%' {
            assert(column_match(token@.drop_first(), cols) is None);
        }
    }
    let word = string_from_chars(token);
    let mut q = queries[*active].clone();
    let ghost old_q = views(old(queries)@)[*active as int];
    assert(q@ == old_q);
    if !q.as_str().is_empty() {
        q.append(" ");
        q.append(word.as_str());
        proof {
            reveal_strlit(" ");
            assert(" "@ =~= seq![' ']);
            assert(q@ =~= old_q + seq![' '] + token@);
        }
    } else {
        q = word;
    }
    queries.set(*active, q);
    proof {
        assert(views(queries@) =~= views(old(queries)@).update(*active as int, q@));
    }
}

/// Splits a search query into the words for all columns (slot 0) and for
/// each named column (slot `i + 1`); see `scoped`.
pub fn scoped_queries(query: &str, columns: &[&str]) -> (r: Vec<String>)
    requires
        columns@.len() < usize::MAX,
    ensures
        views(r@) == scoped(query@, column_names(columns@)),
        r@.len() == columns@.len() + 1,
{
    let ghost cols = column_names(columns@);
    let n = columns.len() + 1;
    let mut queries: Vec<String> = Vec::new();
    while queries.len() < n
        invariant
            queries.len() <= n,
            n == columns@.len() + 1,
            forall|k: int| 0 <= k < queries.len() ==> (#[trigger] queries@[k])@ == Seq::<char>::empty(),
        decreases n - queries.len(),
    {
        queries.push(String::new());
    }
    assert(views(queries@) =~= scope_fold(Seq::<Seq<char>>::empty(), cols).0);
    let mut active: usize = 0;
    let v = chars_of(query);
    let mut cur: Vec<char> = Vec::new();
    let mut i: usize = 0;
    while i < v.len()
        invariant
            i <= v.len(),
            v@ == query@,
            cols == column_names(columns@),
            queries.len() == n,
            n == columns@.len() + 1,
            active < n,
            (views(queries@), active as int) == scope_fold(word_scan(query@.take(i as int)).0, cols),
            cur@ == word_scan(query@.take(i as int)).1,
        decreases v.len() - i,
    {
        let c = v[i];
        assert(query@.take(i + 1).drop_last() =~= query@.take(i as int));
        if is_ws_exec(c) {
            if cur.len() > 0 {
                apply_token(&mut queries, &mut active, &cur, columns);
                cur = Vec::new();
                proof {
                    let ws = word_scan(query@.take(i as int)).0;
                    assert(ws.push(word_scan(query@.take(i as int)).1).drop_last() =~= ws);
                }
            }
        } else {
            cur.push(c);
        }
        i += 1;
    }
    assert(query@.take(v.len() as int) =~= query@);
    if cur.len() > 0 {
        apply_token(&mut queries, &mut active, &cur, columns);
        proof {
            let ws = word_scan(query@).0;
            assert(ws.push(word_scan(query@).1).drop_last() =~= ws);
        }
    }
    queries
}

/// `s` without leading whitespace.
pub open spec fn trim_left(s: Seq<char>) -> Seq<char>
    decreases s.len(),
{
    if s.len() > 0 && is_ws(s[0]) {
        trim_left(s.drop_first())
    } else {
        s
    }
}

/// `s` without trailing whitespace.
pub open spec fn trim_right(s: Seq<char>) -> Seq<char>
    decreases s.len(),
{
    if s.len() > 0 && is_ws(s.last()) {
        trim_right(s.drop_last())
    } else {
        s
    }
}

/// `s` without whitespace at either end (`str::trim`).
pub open spec fn trimmed(s: Seq<char>) -> Seq<char> {
    trim_right(trim_left(s))
}

fn trim_left_index(v: &Vec<char>, i: usize) -> (r: usize)
    requires
        i <= v.len(),
    ensures
        i <= r <= v.len(),
        v@.subrange(r as int, v.len() as int) == trim_left(v@.subrange(i as int, v.len() as int)),
    decreases v.len() - i,
{
    if i < v.len() && is_ws_exec(v[i]) {
        assert(v@.subrange(i as int, v.len() as int).drop_first() =~= v@.subrange(i + 1, v.len() as int));
        trim_left_index(v, i + 1)
    } else {
        i
    }
}

fn trim_right_end(v: &Vec<char>, start: usize, end: usize) -> (r: usize)
    requires
        start <= end <= v.len(),
    ensures
        start <= r <= end,
        v@.subrange(start as int, r as int) == trim_right(v@.subrange(start as int, end as int)),
    decreases end - start,
{
    if end > start && is_ws_exec(v[end - 1]) {
        assert(v@.subrange(start as int, end as int).drop_last() =~= v@.subrange(start as int, end - 1));
        trim_right_end(v, start, end - 1)
    } else {
        end
    }
}

/// `value` without whitespace at either end.
pub fn trim(value: &str) -> (r: String)
    ensures
        r@ == trimmed(value@),
{
    let v = chars_of(value);
    let a = trim_left_index(&v, 0);
    assert(v@.subrange(0, v.len() as int) =~= v@);
    let b = trim_right_end(&v, a, v.len());
    crate::text::string_from_range(&v, a, b)
}

} // verus!
