//! Properties that hold across calls or for every input: what undoing a
//! toggle gives back, where a scrolled list puts its cursor, which
//! characters keys and URLs are made of, and that every listing order is a
//! sorted rearrangement of what it orders.
use crate::app::project_ops::bookmark_toggled;
use crate::app::background::asked;
use crate::app::sessions::{failures_marked, finished_list, refreshed_statuses, status_refreshed, statuses_kept, SessionReport};
use crate::app::{request_views, App, BackgroundRequest, RequestKind, TargetStatus};
use crate::collections::{PathMap, PathSet};
use crate::format::{scroll_start, truncated};
use crate::projects::{insert_listed, listed_before, listed_order, opened_at, seq_less, Project};
use crate::providers::{github_url_of, url_encoded, url_unreserved};
use crate::runtime::{is_ascii_alnum, runtime_key, sanitized};
use crate::reports::{insert_stat, stat_before, stat_order};
use crate::targets::{insert_target, target_before, target_order};
use crate::app::TargetView;
use crate::collections::views;
use crate::scan::{child_paths, is_child_dir, lemma_child_path_entry, scan_step, DirSummary, ProjectScan, ScanEntry};
use crate::app::{ci_filtered, ci_refiltered};
use crate::app::running::{joined, run_command};
use crate::projects::is_git_url;
use crate::providers::CiRun;
use crate::runtime::shell_quoted;
use crate::targets::target_kind_of;
use crate::text::{ascii_lower, contains_seq, is_prefix, is_suffix};
use vstd::prelude::*;

verus! {

/// Toggling the selected project's bookmark twice gives the bookmarks back.
pub proof fn law_bookmark_toggle_twice(a: App, b: App, c: App)
    requires
        bookmark_toggled(a, b),
        bookmark_toggled(b, c),
    ensures
        c.bookmarked_projects.entries@ == a.bookmarked_projects.entries@,
{
    match a.current_project_path() {
        None => {},
        Some(p) => {
            assert(b.current_project_path() == Some(p));
            if a.bookmarked_projects.entries@.contains(p) {
                assert(c.bookmarked_projects.entries@ =~= a.bookmarked_projects.entries@);
            } else {
                assert(c.bookmarked_projects.entries@ =~= a.bookmarked_projects.entries@);
            }
        },
    }
}

/// A scrolled list shows its cursor: the first row shown is at most the
/// cursor, the cursor is among the `rows` rows shown, and no row past the
/// list's end is shown unless the list is shorter than the screen.
pub proof fn law_scroll_shows_cursor(len: nat, cursor: int, rows: nat)
    requires
        0 <= cursor < len,
        rows > 0,
    ensures
        scroll_start(len, cursor, rows) <= cursor < scroll_start(len, cursor, rows) + rows,
        scroll_start(len, cursor, rows) + rows <= len || scroll_start(len, cursor, rows) == 0,
{
}

/// A runtime key is as long as the text it keys and made of ASCII letters,
/// digits and underscores only.
pub proof fn law_runtime_key_is_safe(path: Seq<char>, kind: Seq<char>, name: Seq<char>)
    ensures
        runtime_key(path, kind, name).len() == path.len() + kind.len() + name.len() + 4,
        forall|i: int|
            0 <= i < runtime_key(path, kind, name).len() ==> is_ascii_alnum(
                #[trigger] runtime_key(path, kind, name)[i],
            ) || runtime_key(path, kind, name)[i] == '_',
{
}

/// A cut value never exceeds its width (of at least one column), and a
/// value that fits is left as it is.
pub proof fn law_truncation_fits(value: Seq<char>, max: nat)
    ensures
        max >= 1 ==> truncated(value, max).len() <= max,
        value.len() <= max ==> truncated(value, max) == value,
{
}

/// A character that URL encoding emits.
pub open spec fn url_safe_char(c: char) -> bool {
    ||| ('A' <= c && c <= 'Z')
    ||| ('a' <= c && c <= 'z')
    ||| ('0' <= c && c <= '9')
    ||| c == '-' || c == '_' || c == '.' || c == '~' || c == '%'
}

/// URL encoding emits unreserved characters and `%` escapes only, at least
/// one character for each byte.
pub proof fn law_url_encoding_is_safe(bytes: Seq<u8>)
    ensures
        url_encoded(bytes).len() >= bytes.len(),
        forall|i: int| 0 <= i < url_encoded(bytes).len() ==> url_safe_char(#[trigger] url_encoded(bytes)[i]),
    decreases bytes.len(),
{
    if bytes.len() > 0 {
        law_url_encoding_is_safe(bytes.drop_last());
        let b = bytes.last();
        let prev = url_encoded(bytes.drop_last());
        let tail = if url_unreserved(b) {
            seq![(b as u32) as char]
        } else {
            seq!['%', crate::providers::hex_digit(b / 16), crate::providers::hex_digit(b % 16)]
        };
        assert(url_encoded(bytes) == prev + tail);
        assert forall|i: int| 0 <= i < url_encoded(bytes).len() implies url_safe_char(#[trigger] url_encoded(bytes)[i]) by {
            if i < prev.len() {
                assert(url_encoded(bytes)[i] == prev[i]);
            } else {
                assert(url_encoded(bytes)[i] == tail[i - prev.len()]);
            }
        }
    }
}

/// `seq_less` never holds of a sequence and itself.
pub proof fn lemma_seq_less_irreflexive(a: Seq<char>)
    ensures
        !seq_less(a, a),
    decreases a.len(),
{
    if a.len() > 0 {
        assert(a.drop_first() == a.drop_first());
        lemma_seq_less_irreflexive(a.drop_first());
    }
}

/// `seq_less` is transitive.
pub proof fn lemma_seq_less_transitive(a: Seq<char>, b: Seq<char>, c: Seq<char>)
    requires
        seq_less(a, b),
        seq_less(b, c),
    ensures
        seq_less(a, c),
    decreases a.len(),
{
    if a.len() > 0 && b.len() > 0 && c.len() > 0 && a[0] == b[0] && b[0] == c[0] {
        lemma_seq_less_transitive(a.drop_first(), b.drop_first(), c.drop_first());
    }
}

/// Of two different sequences, one is `seq_less` than the other.
pub proof fn lemma_seq_less_total(a: Seq<char>, b: Seq<char>)
    ensures
        a == b || seq_less(a, b) || seq_less(b, a),
    decreases a.len(),
{
    if a.len() > 0 && b.len() > 0 && a[0] == b[0] {
        lemma_seq_less_total(a.drop_first(), b.drop_first());
        if a.drop_first() == b.drop_first() {
            assert(a =~= seq![a[0]] + a.drop_first());
            assert(b =~= seq![b[0]] + b.drop_first());
        }
    } else if a.len() > 0 && b.len() > 0 {
        let x = a[0] as u32;
        let y = b[0] as u32;
        assert(x != y) by {
            if x == y {
                vstd::utf8::char_u32_cast(a[0], x);
                vstd::utf8::char_u32_cast(b[0], y);
                assert(a[0] == b[0]);
            }
        }
    } else if a.len() == 0 && b.len() == 0 {
        assert(a =~= b);
    }
}

/// Path, name and kind of a target, compared in turn.
pub open spec fn target_key(t: TargetView) -> (Seq<char>, Seq<char>, Seq<char>) {
    (t.path, t.name, t.kind)
}

proof fn lemma_target_before_asymmetric(a: TargetView, b: TargetView)
    ensures
        target_before(a, b) ==> !target_before(b, a),
{
    if target_before(a, b) && target_before(b, a) {
        lemma_seq_less_irreflexive(a.path);
        lemma_seq_less_irreflexive(a.name);
        lemma_seq_less_irreflexive(a.kind);
        if seq_less(a.path, b.path) && seq_less(b.path, a.path) {
            lemma_seq_less_transitive(a.path, b.path, a.path);
        } else if seq_less(a.name, b.name) && seq_less(b.name, a.name) {
            lemma_seq_less_transitive(a.name, b.name, a.name);
        } else if seq_less(a.kind, b.kind) && seq_less(b.kind, a.kind) {
            lemma_seq_less_transitive(a.kind, b.kind, a.kind);
        }
    }
}

proof fn lemma_target_not_before_transitive(a: TargetView, b: TargetView, c: TargetView)
    requires
        !target_before(a, b),
        !target_before(b, c),
    ensures
        !target_before(a, c),
{
    lemma_seq_less_total(a.path, b.path);
    lemma_seq_less_total(b.path, c.path);
    lemma_seq_less_total(a.name, b.name);
    lemma_seq_less_total(b.name, c.name);
    lemma_seq_less_total(a.kind, b.kind);
    lemma_seq_less_total(b.kind, c.kind);
    if target_before(a, c) {
        if seq_less(a.path, c.path) {
            if seq_less(b.path, a.path) {
                lemma_seq_less_transitive(b.path, a.path, c.path);
            } else if b.path == a.path {
            } else {
                lemma_seq_less_transitive(a.path, b.path, c.path);
            }
            if seq_less(c.path, b.path) {
                lemma_seq_less_transitive(a.path, c.path, b.path);
            }
        } else {
            assert(a.path == c.path);
            if seq_less(b.path, a.path) {
            } else if seq_less(a.path, b.path) {
            } else {
                assert(a.path == b.path);
                if seq_less(a.name, c.name) {
                    if seq_less(b.name, a.name) {
                        lemma_seq_less_transitive(b.name, a.name, c.name);
                    } else if a.name != b.name {
                        lemma_seq_less_transitive(a.name, b.name, c.name);
                    }
                } else {
                    assert(a.name == c.name);
                    if a.name == b.name {
                        if seq_less(b.kind, a.kind) {
                            lemma_seq_less_transitive(b.kind, a.kind, c.kind);
                        } else if a.kind != b.kind {
                            lemma_seq_less_transitive(a.kind, b.kind, c.kind);
                        }
                    }
                }
            }
        }
    }
}

/// No target of `s` is listed before one that comes earlier.
pub open spec fn targets_sorted(s: Seq<TargetView>) -> bool {
    forall|i: int, j: int| 0 <= i < j < s.len() ==> !target_before(#[trigger] s[j], #[trigger] s[i])
}

proof fn lemma_insert_target_sorted(s: Seq<TargetView>, x: TargetView)
    requires
        targets_sorted(s),
    ensures
        targets_sorted(insert_target(s, x)),
        insert_target(s, x).to_multiset() == s.to_multiset().insert(x),
    decreases s.len(),
{
    broadcast use vstd::seq_lib::group_to_multiset_ensures;

    if s.len() == 0 {
        assert(seq![x] =~= Seq::<TargetView>::empty().push(x));
    } else {
        let last = s.last();
        let d = s.drop_last();
        assert(s =~= d.push(last));
        assert(targets_sorted(d)) by {
            assert forall|i: int, j: int| 0 <= i < j < d.len() implies !target_before(#[trigger] d[j], #[trigger] d[i]) by {
                assert(d[i] == s[i] && d[j] == s[j]);
            }
        }
        if target_before(x, last) {
            lemma_insert_target_sorted(d, x);
            let r = insert_target(d, x);
            lemma_target_before_asymmetric(x, last);
            assert forall|k: int| 0 <= k < r.len() implies !target_before(last, #[trigger] r[k]) by {
                assert(r.to_multiset().count(r[k]) > 0);
                assert(r.to_multiset() == d.to_multiset().insert(x));
                if r[k] != x {
                    assert(d.to_multiset().count(r[k]) > 0);
                    assert(d.contains(r[k]));
                    let m = choose|m: int| 0 <= m < d.len() && d[m] == r[k];
                    assert(s[m] == d[m]);
                    assert(s[s.len() - 1] == last);
                }
            }
            let out = r.push(last);
            assert forall|i: int, j: int| 0 <= i < j < out.len() implies !target_before(#[trigger] out[j], #[trigger] out[i]) by {
                if j == out.len() - 1 {
                    assert(out[j] == last);
                    assert(out[i] == r[i]);
                } else {
                    assert(out[i] == r[i] && out[j] == r[j]);
                }
            }
            assert(insert_target(s, x) == out);
        } else {
            let out = s.push(x);
            assert forall|i: int, j: int| 0 <= i < j < out.len() implies !target_before(#[trigger] out[j], #[trigger] out[i]) by {
                if j == out.len() - 1 {
                    assert(out[j] == x);
                    assert(out[i] == s[i]);
                    if i < s.len() - 1 {
                        assert(!target_before(s[s.len() - 1], s[i]));
                        lemma_target_not_before_transitive(x, last, s[i]);
                    }
                } else {
                    assert(out[i] == s[i] && out[j] == s[j]);
                }
            }
        }
    }
}

/// The listing order of targets is sorted by path, name and kind, and holds
/// exactly the targets it was given.
pub proof fn law_target_order_sorted(s: Seq<TargetView>)
    ensures
        targets_sorted(target_order(s)),
        target_order(s).to_multiset() == s.to_multiset(),
    decreases s.len(),
{
    broadcast use vstd::seq_lib::group_to_multiset_ensures;

    if s.len() > 0 {
        law_target_order_sorted(s.drop_last());
        lemma_insert_target_sorted(target_order(s.drop_last()), s.last());
        assert(s =~= s.drop_last().push(s.last()));
    }
}

/// No language of `s` is listed before one that comes earlier.
pub open spec fn stats_sorted(s: Seq<(Seq<char>, u64, u64, u64)>) -> bool {
    forall|i: int, j: int| 0 <= i < j < s.len() ==> !stat_before(#[trigger] s[j], #[trigger] s[i])
}

proof fn lemma_insert_stat_sorted(s: Seq<(Seq<char>, u64, u64, u64)>, x: (Seq<char>, u64, u64, u64))
    requires
        stats_sorted(s),
    ensures
        stats_sorted(insert_stat(s, x)),
        insert_stat(s, x).to_multiset() == s.to_multiset().insert(x),
    decreases s.len(),
{
    broadcast use vstd::seq_lib::group_to_multiset_ensures;

    if s.len() == 0 {
        assert(seq![x] =~= Seq::<(Seq<char>, u64, u64, u64)>::empty().push(x));
    } else {
        let last = s.last();
        let d = s.drop_last();
        assert(s =~= d.push(last));
        assert(stats_sorted(d)) by {
            assert forall|i: int, j: int| 0 <= i < j < d.len() implies !stat_before(#[trigger] d[j], #[trigger] d[i]) by {
                assert(d[i] == s[i] && d[j] == s[j]);
            }
        }
        if stat_before(x, last) {
            lemma_insert_stat_sorted(d, x);
            let r = insert_stat(d, x);
            lemma_stat_before_asymmetric(x, last);
            assert forall|k: int| 0 <= k < r.len() implies !stat_before(last, #[trigger] r[k]) by {
                assert(r.to_multiset().count(r[k]) > 0);
                assert(r.to_multiset() == d.to_multiset().insert(x));
                if r[k] != x {
                    assert(d.to_multiset().count(r[k]) > 0);
                    assert(d.contains(r[k]));
                    let m = choose|m: int| 0 <= m < d.len() && d[m] == r[k];
                    assert(s[m] == d[m]);
                    assert(s[s.len() - 1] == last);
                }
            }
            let out = r.push(last);
            assert forall|i: int, j: int| 0 <= i < j < out.len() implies !stat_before(#[trigger] out[j], #[trigger] out[i]) by {
                if j == out.len() - 1 {
                    assert(out[j] == last);
                    assert(out[i] == r[i]);
                } else {
                    assert(out[i] == r[i] && out[j] == r[j]);
                }
            }
            assert(insert_stat(s, x) == out);
        } else {
            let out = s.push(x);
            assert forall|i: int, j: int| 0 <= i < j < out.len() implies !stat_before(#[trigger] out[j], #[trigger] out[i]) by {
                if j == out.len() - 1 {
                    assert(out[j] == x);
                    assert(out[i] == s[i]);
                    if i < s.len() - 1 {
                        assert(!stat_before(s[s.len() - 1], s[i]));
                        lemma_stat_not_before_transitive(x, last, s[i]);
                    }
                } else {
                    assert(out[i] == s[i] && out[j] == s[j]);
                }
            }
        }
    }
}

/// The listing order of languages has most code first, then goes by name,
/// and holds exactly the languages it was given.
pub proof fn law_stat_order_sorted(s: Seq<(Seq<char>, u64, u64, u64)>)
    ensures
        stats_sorted(stat_order(s)),
        stat_order(s).to_multiset() == s.to_multiset(),
    decreases s.len(),
{
    broadcast use vstd::seq_lib::group_to_multiset_ensures;

    if s.len() > 0 {
        law_stat_order_sorted(s.drop_last());
        lemma_insert_stat_sorted(stat_order(s.drop_last()), s.last());
        assert(s =~= s.drop_last().push(s.last()));
    }
}


proof fn lemma_stat_before_asymmetric(a: (Seq<char>, u64, u64, u64), b: (Seq<char>, u64, u64, u64))
    ensures
        stat_before(a, b) ==> !stat_before(b, a),
{
    if stat_before(a, b) && stat_before(b, a) && a.1 == b.1 {
        lemma_seq_less_transitive(a.0, b.0, a.0);
        lemma_seq_less_irreflexive(a.0);
    }
}

proof fn lemma_stat_not_before_transitive(
    a: (Seq<char>, u64, u64, u64),
    b: (Seq<char>, u64, u64, u64),
    c: (Seq<char>, u64, u64, u64),
)
    requires
        !stat_before(a, b),
        !stat_before(b, c),
    ensures
        !stat_before(a, c),
{
    lemma_seq_less_total(a.0, b.0);
    lemma_seq_less_total(b.0, c.0);
    if stat_before(a, c) && a.1 == c.1 && a.1 == b.1 {
        if seq_less(b.0, a.0) {
            lemma_seq_less_transitive(b.0, a.0, c.0);
        } else if a.0 != b.0 {
            lemma_seq_less_transitive(a.0, b.0, c.0);
        }
    }
}

/// The rank of when a project was last opened: later first, never last.
pub open spec fn opened_rank(o: Option<u64>) -> int {
    match o {
        Some(t) => -(t as int),
        None => 1,
    }
}

proof fn lemma_listed_before_by_rank(a: Project, b: Project, recent: Map<Seq<char>, u64>)
    ensures
        listed_before(a, b, recent) == {
            let ra = opened_rank(opened_at(recent, a));
            let rb = opened_rank(opened_at(recent, b));
            if ra != rb {
                ra < rb
            } else if opened_at(recent, a) is None && a.has_git_dir != b.has_git_dir {
                a.has_git_dir
            } else {
                seq_less(a.name@, b.name@)
            }
        },
{
    let oa = opened_at(recent, a);
    let ob = opened_at(recent, b);
    if oa != ob {
        match (oa, ob) {
            (Some(x), Some(y)) => {
                assert(x != y);
            },
            _ => {},
        }
    } else {
        assert(opened_rank(oa) == opened_rank(ob));
    }
}

proof fn lemma_listed_before_asymmetric(a: Project, b: Project, recent: Map<Seq<char>, u64>)
    ensures
        listed_before(a, b, recent) ==> !listed_before(b, a, recent),
{
    lemma_listed_before_by_rank(a, b, recent);
    lemma_listed_before_by_rank(b, a, recent);
    if listed_before(a, b, recent) && listed_before(b, a, recent) {
        lemma_seq_less_transitive(a.name@, b.name@, a.name@);
        lemma_seq_less_irreflexive(a.name@);
    }
}

proof fn lemma_listed_not_before_transitive(a: Project, b: Project, c: Project, recent: Map<Seq<char>, u64>)
    requires
        !listed_before(a, b, recent),
        !listed_before(b, c, recent),
    ensures
        !listed_before(a, c, recent),
{
    lemma_listed_before_by_rank(a, b, recent);
    lemma_listed_before_by_rank(b, c, recent);
    lemma_listed_before_by_rank(a, c, recent);
    lemma_seq_less_total(a.name@, b.name@);
    lemma_seq_less_total(b.name@, c.name@);
    let ra = opened_rank(opened_at(recent, a));
    let rb = opened_rank(opened_at(recent, b));
    let rc = opened_rank(opened_at(recent, c));
    if listed_before(a, c, recent) && ra == rb && rb == rc {
        if ra == 1 {
            assert(opened_at(recent, a) is None && opened_at(recent, b) is None && opened_at(recent, c) is None);
        }
        if seq_less(b.name@, a.name@) {
            lemma_seq_less_transitive(b.name@, a.name@, c.name@);
        } else if a.name@ != b.name@ {
            lemma_seq_less_transitive(a.name@, b.name@, c.name@);
        }
    }
    if listed_before(a, c, recent) && ra == rb && rb == rc && ra != 1 {
        assert(opened_at(recent, a) is Some);
    }
}
/// No project of `s` is listed before one that comes earlier.
pub open spec fn projects_sorted(s: Seq<Project>, recent: Map<Seq<char>, u64>) -> bool {
    forall|i: int, j: int| 0 <= i < j < s.len() ==> !listed_before(#[trigger] s[j], #[trigger] s[i], recent)
}

proof fn lemma_insert_listed_sorted(s: Seq<Project>, x: Project, recent: Map<Seq<char>, u64>)
    requires
        projects_sorted(s, recent),
    ensures
        projects_sorted(insert_listed(s, x, recent), recent),
        insert_listed(s, x, recent).to_multiset() == s.to_multiset().insert(x),
    decreases s.len(),
{
    broadcast use vstd::seq_lib::group_to_multiset_ensures;

    if s.len() == 0 {
        assert(seq![x] =~= Seq::<Project>::empty().push(x));
    } else {
        let last = s.last();
        let d = s.drop_last();
        assert(s =~= d.push(last));
        assert(projects_sorted(d, recent)) by {
            assert forall|i: int, j: int| 0 <= i < j < d.len() implies !listed_before(#[trigger] d[j], #[trigger] d[i], recent) by {
                assert(d[i] == s[i] && d[j] == s[j]);
            }
        }
        if listed_before(x, last, recent) {
            lemma_insert_listed_sorted(d, x, recent);
            let r = insert_listed(d, x, recent);
            lemma_listed_before_asymmetric(x, last, recent);
            assert forall|k: int| 0 <= k < r.len() implies !listed_before(last, #[trigger] r[k], recent) by {
                assert(r.to_multiset().count(r[k]) > 0);
                assert(r.to_multiset() == d.to_multiset().insert(x));
                if r[k] != x {
                    assert(d.to_multiset().count(r[k]) > 0);
                    assert(d.contains(r[k]));
                    let m = choose|m: int| 0 <= m < d.len() && d[m] == r[k];
                    assert(s[m] == d[m]);
                    assert(s[s.len() - 1] == last);
                }
            }
            let out = r.push(last);
            assert forall|i: int, j: int| 0 <= i < j < out.len() implies !listed_before(#[trigger] out[j], #[trigger] out[i], recent) by {
                if j == out.len() - 1 {
                    assert(out[j] == last);
                    assert(out[i] == r[i]);
                } else {
                    assert(out[i] == r[i] && out[j] == r[j]);
                }
            }
            assert(insert_listed(s, x, recent) == out);
        } else {
            let out = s.push(x);
            assert forall|i: int, j: int| 0 <= i < j < out.len() implies !listed_before(#[trigger] out[j], #[trigger] out[i], recent) by {
                if j == out.len() - 1 {
                    assert(out[j] == x);
                    assert(out[i] == s[i]);
                    if i < s.len() - 1 {
                        assert(!listed_before(s[s.len() - 1], s[i], recent));
                        lemma_listed_not_before_transitive(x, last, s[i], recent);
                    }
                } else {
                    assert(out[i] == s[i] && out[j] == s[j]);
                }
            }
        }
    }
}

/// The listing order of projects (see `listed_before`) is sorted and holds
/// exactly the projects it was given.
pub proof fn law_listing_order_sorted(s: Seq<Project>, recent: Map<Seq<char>, u64>)
    ensures
        projects_sorted(listed_order(s, recent), recent),
        listed_order(s, recent).to_multiset() == s.to_multiset(),
    decreases s.len(),
{
    broadcast use vstd::seq_lib::group_to_multiset_ensures;

    if s.len() > 0 {
        law_listing_order_sorted(s.drop_last(), recent);
        lemma_insert_listed_sorted(listed_order(s.drop_last(), recent), s.last(), recent);
        assert(s =~= s.drop_last().push(s.last()));
    }
}


/// `a` and `b` rank alike in the listing order: opened at the same time (or
/// neither opened, and then both or neither a git repository), with the
/// same name. Neither is listed before the other.
pub open spec fn same_rank(a: Project, b: Project, recent: Map<Seq<char>, u64>) -> bool {
    &&& opened_at(recent, a) == opened_at(recent, b)
    &&& opened_at(recent, a) is None ==> a.has_git_dir == b.has_git_dir
    &&& a.name@ == b.name@
}

proof fn lemma_same_rank_not_before(a: Project, b: Project, recent: Map<Seq<char>, u64>)
    requires
        same_rank(a, b, recent),
    ensures
        !listed_before(a, b, recent),
{
    lemma_seq_less_irreflexive(a.name@);
}

proof fn lemma_filter_push(s: Seq<Project>, x: Project, pred: spec_fn(Project) -> bool)
    ensures
        s.push(x).filter(pred) == if pred(x) {
            s.filter(pred).push(x)
        } else {
            s.filter(pred)
        },
{
    reveal_with_fuel(Seq::filter, 1);
    assert(s.push(x).drop_last() =~= s);
}

proof fn lemma_insert_listed_filter(t: Seq<Project>, x: Project, y: Project, recent: Map<Seq<char>, u64>)
    ensures
        insert_listed(t, x, recent).filter(|p: Project| same_rank(p, y, recent)) == if same_rank(x, y, recent) {
            t.filter(|p: Project| same_rank(p, y, recent)).push(x)
        } else {
            t.filter(|p: Project| same_rank(p, y, recent))
        },
    decreases t.len(),
{
    let pred = |p: Project| same_rank(p, y, recent);
    if t.len() == 0 {
        lemma_filter_push(t, x, pred);
        assert(seq![x] =~= t.push(x));
    } else if listed_before(x, t.last(), recent) {
        let rest = t.drop_last();
        lemma_insert_listed_filter(rest, x, y, recent);
        lemma_filter_push(insert_listed(rest, x, recent), t.last(), pred);
        lemma_filter_push(rest, t.last(), pred);
        assert(rest.push(t.last()) =~= t);
        if pred(x) && pred(t.last()) {
            lemma_same_rank_not_before(x, t.last(), recent);
        }
    } else {
        lemma_filter_push(t, x, pred);
    }
}

/// Sorting keeps projects of the same rank in the order they had: for every
/// project `y`, those ranking alike with it come out of `listed_order` in
/// the order they went in.
pub proof fn law_listing_order_is_stable(s: Seq<Project>, y: Project, recent: Map<Seq<char>, u64>)
    ensures
        listed_order(s, recent).filter(|p: Project| same_rank(p, y, recent)) == s.filter(
            |p: Project| same_rank(p, y, recent),
        ),
    decreases s.len(),
{
    let pred = |p: Project| same_rank(p, y, recent);
    if s.len() == 0 {
        reveal_with_fuel(Seq::filter, 1);
    } else {
        law_listing_order_is_stable(s.drop_last(), y, recent);
        lemma_insert_listed_filter(listed_order(s.drop_last(), recent), s.last(), y, recent);
        lemma_filter_push(s.drop_last(), s.last(), pred);
        assert(s.drop_last().push(s.last()) =~= s);
    }
}

/// Asking for the same work on the same path again, before an answer came,
/// queues nothing more.
pub proof fn law_asking_twice_queues_once<V>(
    cache: PathMap<V>,
    l0: PathSet,
    l1: PathSet,
    l2: PathSet,
    r0: Seq<BackgroundRequest>,
    r1: Seq<BackgroundRequest>,
    r2: Seq<BackgroundRequest>,
    kind: RequestKind,
    path: Seq<char>,
)
    requires
        asked(cache, l0, l1, r0, r1, kind, path),
        asked(cache, l1, l2, r1, r2, kind, path),
    ensures
        l2@ == l1@,
        request_views(r2) == request_views(r1),
{
}

proof fn lemma_kept_keys(ss: Seq<TargetStatus>, fin: Seq<Seq<char>>)
    ensures
        forall|i: int| 0 <= i < statuses_kept(ss, fin).len() ==> !fin.contains(#[trigger] statuses_kept(ss, fin)[i].key@),
    decreases ss.len(),
{
    if ss.len() > 0 {
        lemma_kept_keys(ss.drop_last(), fin);
        let prev = statuses_kept(ss.drop_last(), fin);
        if !fin.contains(ss.last().key@) {
            assert forall|i: int| 0 <= i < statuses_kept(ss, fin).len() implies !fin.contains(#[trigger] statuses_kept(ss, fin)[i].key@) by {
                if i < prev.len() {
                    assert(statuses_kept(ss, fin)[i] == prev[i]);
                }
            }
        }
    }
}

/// After a tick, no launched target whose session finished is listed.
pub proof fn law_finished_targets_are_dropped(ss: Seq<TargetStatus>, reports: Seq<SessionReport>, clock_ms: u64)
    ensures
        forall|i: int|
            0 <= i < refreshed_statuses(ss, reports, clock_ms).len() ==> !finished_list(reports).contains(
                #[trigger] refreshed_statuses(ss, reports, clock_ms)[i].key@,
            ),
{
    let finished = finished_list(reports);
    lemma_kept_keys(
        failures_marked(ss, reports).map_values(|s: TargetStatus| status_refreshed(s, reports, finished, clock_ms)),
        finished,
    );
}

/// A GitHub repository gives the same address whether its remote is
/// written in SSH or HTTPS form.
pub proof fn law_remote_forms_agree(rest: Seq<char>)
    ensures
        github_url_of("git@github.com:"@ + rest) == github_url_of("https://github.com/"@ + rest),
        github_url_of("https://github.com/"@ + rest) is Some,
{
    reveal_strlit("git@github.com:");
    reveal_strlit("https://github.com/");
    let ssh = "git@github.com:"@;
    let https = "https://github.com/"@;
    assert((ssh + rest).subrange(0, ssh.len() as int) =~= ssh);
    assert((ssh + rest).subrange(ssh.len() as int, (ssh + rest).len() as int) =~= rest);
    assert((https + rest).subrange(0, https.len() as int) =~= https);
    assert((https + rest).subrange(https.len() as int, (https + rest).len() as int) =~= rest);
    assert((https + rest).subrange(0, ssh.len() as int)[0] == 'h');
}

/// The directory `p` is where a walk from `root` may go before step `i`:
/// the root, or a directory entry to look into (neither `.git` nor a
/// skipped one) listed by an earlier step that was no workspace root.
pub open spec fn walk_reaches(
    root: Seq<char>,
    listings: Seq<Option<DirSummary>>,
    workspaces: Seq<bool>,
    entries: Seq<Seq<ScanEntry>>,
    i: int,
    p: Seq<char>,
) -> bool {
    ||| p == root
    ||| exists|j: int, k: int|
        0 <= j < i && !workspaces[j] && listings[j] is Some && 0 <= k < entries[j].len() && is_child_dir(
            #[trigger] entries[j][k],
        ) && entries[j][k].path@ == p
}

proof fn lemma_walk_step(
    root: Seq<char>,
    scans: Seq<ProjectScan>,
    dirs: Seq<Seq<char>>,
    listings: Seq<Option<DirSummary>>,
    workspaces: Seq<bool>,
    entries: Seq<Seq<ScanEntry>>,
    i: int,
    next: int,
)
    requires
        0 <= i < dirs.len(),
        next == i + 1,
        scans.len() == dirs.len() + 1,
        listings.len() == dirs.len(),
        workspaces.len() == dirs.len(),
        entries.len() == dirs.len(),
        scan_step(scans[i], scans[next], dirs[i], listings[i], workspaces[i]),
        listings[i] matches Some(l) ==> views(l.children@) == child_paths(entries[i]),
        forall|p: Seq<char>|
            views(scans[i].pending@).contains(p) ==> walk_reaches(root, listings, workspaces, entries, i, p),
        forall|k: int|
            0 <= k < scans[i].projects@.len() ==> walk_reaches(
                root,
                listings,
                workspaces,
                entries,
                i,
                #[trigger] scans[i].projects@[k].path@,
            ),
    ensures
        forall|p: Seq<char>|
            views(scans[next].pending@).contains(p) ==> walk_reaches(root, listings, workspaces, entries, next, p),
        forall|k: int|
            0 <= k < scans[next].projects@.len() ==> walk_reaches(
                root,
                listings,
                workspaces,
                entries,
                next,
                #[trigger] scans[next].projects@[k].path@,
            ),
{
    let pend = views(scans[i].pending@);
    assert forall|p: Seq<char>| walk_reaches(root, listings, workspaces, entries, i, p) implies walk_reaches(
        root,
        listings,
        workspaces,
        entries,
        next,
        p,
    ) by {
        if p != root {
            let (j, k) = choose|j: int, k: int|
                0 <= j < i && !workspaces[j] && listings[j] is Some && 0 <= k < entries[j].len()
                    && is_child_dir(#[trigger] entries[j][k]) && entries[j][k].path@ == p;
            assert(is_child_dir(entries[j][k]));
        }
    }
    assert(pend.contains(dirs[i])) by {
        assert(pend[pend.len() - 1] == dirs[i]);
    }
    assert forall|p: Seq<char>| views(scans[next].pending@).contains(p) implies walk_reaches(
        root,
        listings,
        workspaces,
        entries,
        next,
        p,
    ) by {
        let post = views(scans[next].pending@);
        let n = choose|n: int| 0 <= n < post.len() && post[n] == p;
        if n < pend.len() - 1 {
            assert(pend.drop_last()[n] == p);
            assert(pend[n] == p);
            assert(pend.contains(p));
        } else {
            let l = listings[i]->0;
            let rv = views(l.children@).reverse();
            assert(listings[i] is Some && !workspaces[i]);
            let m = n - (pend.len() - 1);
            assert(rv[m] == p);
            let c = views(l.children@);
            assert(c[c.len() - 1 - m] == p);
            assert(child_paths(entries[i]).contains(p));
            lemma_child_path_entry(entries[i], p);
            let k = choose|k: int| 0 <= k < entries[i].len() && is_child_dir(#[trigger] entries[i][k]) && entries[i][k].path@ == p;
            assert(is_child_dir(entries[i][k]));
        }
    }
    assert forall|k: int| 0 <= k < scans[next].projects@.len() implies walk_reaches(
        root,
        listings,
        workspaces,
        entries,
        next,
        #[trigger] scans[next].projects@[k].path@,
    ) by {
        if k < scans[i].projects@.len() {
            assert(scans[next].projects@[k] == scans[i].projects@[k]);
        } else {
            assert(scans[next].projects@[k].path@ == dirs[i]);
        }
    }
}

/// A walk from a scan of `root`, each step looking into the directory that
/// came next (see `scan_step` and `lemma_next_and_record_step`), where each
/// listing summarizes its directory's entries (see `summarize_listing`):
/// every directory still to look into, and every project found, is the
/// root or a directory entry listed by an earlier step. That entry is no
/// `.git` or skipped build directory, and its step was no workspace root,
/// so nothing below a workspace root is looked into.
pub proof fn law_walk_stays_in_listed_children(
    root: Seq<char>,
    scans: Seq<ProjectScan>,
    dirs: Seq<Seq<char>>,
    listings: Seq<Option<DirSummary>>,
    workspaces: Seq<bool>,
    entries: Seq<Seq<ScanEntry>>,
)
    requires
        scans.len() == dirs.len() + 1,
        listings.len() == dirs.len(),
        workspaces.len() == dirs.len(),
        entries.len() == dirs.len(),
        views(scans[0].pending@) == seq![root],
        scans[0].projects@.len() == 0,
        forall|i: int| 0 <= i < dirs.len() ==> #[trigger] scan_step(scans[i], scans[i + 1], dirs[i], listings[i], workspaces[i]),
        forall|i: int| 0 <= i < dirs.len() ==> (#[trigger] listings[i] matches Some(l) ==> views(l.children@) == child_paths(entries[i])),
    ensures
        forall|i: int, p: Seq<char>|
            0 <= i < scans.len() && #[trigger] views(scans[i].pending@).contains(p) ==> walk_reaches(
                root,
                listings,
                workspaces,
                entries,
                i,
                p,
            ),
        forall|i: int, k: int|
            0 <= i < scans.len() && 0 <= k < scans[i].projects@.len() ==> walk_reaches(
                root,
                listings,
                workspaces,
                entries,
                i,
                #[trigger] scans[i].projects@[k].path@,
            ),
{
    assert forall|i: int, p: Seq<char>|
        0 <= i < scans.len() && #[trigger] views(scans[i].pending@).contains(p) implies walk_reaches(
        root,
        listings,
        workspaces,
        entries,
        i,
        p,
    ) by {
        lemma_walk_upto(root, scans, dirs, listings, workspaces, entries, i);
    }
    assert forall|i: int, k: int| 0 <= i < scans.len() && 0 <= k < scans[i].projects@.len() implies walk_reaches(
        root,
        listings,
        workspaces,
        entries,
        i,
        #[trigger] scans[i].projects@[k].path@,
    ) by {
        lemma_walk_upto(root, scans, dirs, listings, workspaces, entries, i);
    }
}

proof fn lemma_walk_upto(
    root: Seq<char>,
    scans: Seq<ProjectScan>,
    dirs: Seq<Seq<char>>,
    listings: Seq<Option<DirSummary>>,
    workspaces: Seq<bool>,
    entries: Seq<Seq<ScanEntry>>,
    i: int,
)
    requires
        0 <= i < scans.len(),
        scans.len() == dirs.len() + 1,
        listings.len() == dirs.len(),
        workspaces.len() == dirs.len(),
        entries.len() == dirs.len(),
        views(scans[0].pending@) == seq![root],
        scans[0].projects@.len() == 0,
        forall|i: int| 0 <= i < dirs.len() ==> #[trigger] scan_step(scans[i], scans[i + 1], dirs[i], listings[i], workspaces[i]),
        forall|i: int| 0 <= i < dirs.len() ==> (#[trigger] listings[i] matches Some(l) ==> views(l.children@) == child_paths(entries[i])),
    ensures
        forall|p: Seq<char>|
            views(scans[i].pending@).contains(p) ==> walk_reaches(root, listings, workspaces, entries, i, p),
        forall|k: int|
            0 <= k < scans[i].projects@.len() ==> walk_reaches(
                root,
                listings,
                workspaces,
                entries,
                i,
                #[trigger] scans[i].projects@[k].path@,
            ),
    decreases i,
{
    if i == 0 {
        assert forall|p: Seq<char>| views(scans[0].pending@).contains(p) implies walk_reaches(
            root,
            listings,
            workspaces,
            entries,
            0,
            p,
        ) by {
            let n = choose|n: int| 0 <= n < views(scans[0].pending@).len() && views(scans[0].pending@)[n] == p;
            assert(seq![root][n] == p);
        }
    } else {
        lemma_walk_upto(root, scans, dirs, listings, workspaces, entries, i - 1);
        assert(scan_step(scans[i - 1], scans[i - 1 + 1], dirs[i - 1], listings[i - 1], workspaces[i - 1]));
        assert(listings[i - 1] matches Some(l) ==> views(l.children@) == child_paths(entries[i - 1]));
        lemma_walk_step(root, scans, dirs, listings, workspaces, entries, i - 1, i);
    }
}

/// The run `run` is one a lower-case CI query `q` asks for: `q` is empty or
/// occurs in its lower-cased branch, title, status or creation time.
pub open spec fn run_wanted(run: CiRun, q: Seq<char>) -> bool {
    ||| q.len() == 0
    ||| contains_seq(ascii_lower(run.branch@), q)
    ||| contains_seq(ascii_lower(run.title@), q)
    ||| contains_seq(ascii_lower(run.status@), q)
    ||| contains_seq(ascii_lower(run.created_at@), q)
}

/// The CI filter keeps, in their order, exactly the runs the query asks
/// for: index `i` is kept iff the query is empty or occurs in the run's
/// branch, title, status or creation time (all lower-cased), and the kept
/// indices rise. (Indices are `usize`, so the runs fit in memory.)
pub proof fn law_ci_filter_keeps_wanted_runs(runs: Seq<CiRun>, q: Seq<char>)
    requires
        runs.len() <= usize::MAX,
    ensures
        forall|i: int| 0 <= i < runs.len() ==> (ci_filtered(runs, q).contains(i as usize) <==> run_wanted(#[trigger] runs[i], q)),
        forall|j: int| 0 <= j < ci_filtered(runs, q).len() ==> #[trigger] ci_filtered(runs, q)[j] < runs.len(),
        forall|j: int, k: int| 0 <= j < k < ci_filtered(runs, q).len() ==> #[trigger] ci_filtered(runs, q)[j] < #[trigger] ci_filtered(runs, q)[k],
    decreases runs.len(),
{
    if runs.len() > 0 {
        let rest = runs.drop_last();
        law_ci_filter_keeps_wanted_runs(rest, q);
        let f = ci_filtered(rest, q);
        let n = runs.len() - 1;
        let r = ci_filtered(runs, q);
        let wanted = run_wanted(runs.last(), q);
        assert(wanted == crate::app::ci_run_matches(runs.last(), q));
        if wanted {
            assert(r == f.push(n as usize));
        } else {
            assert(r == f);
        }
        assert forall|i: int| 0 <= i < runs.len() implies (r.contains(i as usize) <==> run_wanted(
            #[trigger] runs[i],
            q,
        )) by {
            if i < n {
                assert(runs[i] == rest[i]);
                if r.contains(i as usize) {
                    let j = choose|j: int| 0 <= j < r.len() && r[j] == i as usize;
                    if j < f.len() {
                        assert(f[j] == i as usize);
                        assert(f.contains(i as usize));
                    }
                }
                if f.contains(i as usize) {
                    let j = choose|j: int| 0 <= j < f.len() && f[j] == i as usize;
                    assert(r[j] == i as usize);
                }
            } else {
                if wanted {
                    assert(r[f.len() as int] == n as usize);
                } else if r.contains(i as usize) {
                    let j = choose|j: int| 0 <= j < f.len() && f[j] == i as usize;
                    assert(f[j] < rest.len());
                }
            }
        }
        assert forall|j: int, k: int| 0 <= j < k < r.len() implies #[trigger] r[j] < #[trigger] r[k] by {
            if wanted && k == f.len() {
                assert(f[j] < rest.len());
            } else {
                assert(r[j] == f[j] && r[k] == f[k]);
            }
        }
        assert forall|j: int| 0 <= j < r.len() implies #[trigger] r[j] < runs.len() by {
            if !(wanted && j == f.len()) {
                assert(r[j] == f[j]);
            }
        }
    }
}

/// After the CI filter ran on a dashboard showing CI runs, a run is listed
/// iff the lower-cased query asks for it (see `run_wanted`).
pub proof fn law_ci_query_lists_wanted_runs(pre: App, post: App, i: int)
    requires
        ci_refiltered(pre, post),
        pre.ci_runs_shown() matches Some(ci) && 0 <= i < ci.runs@.len() && ci.runs@.len() <= usize::MAX,
    ensures
        post.filtered_ci_runs@.contains(i as usize) <==> run_wanted(
            pre.ci_runs_shown()->0.runs@[i],
            ascii_lower(pre.ci_query@),
        ),
{
    law_ci_filter_keeps_wanted_runs(pre.ci_runs_shown()->0.runs@, ascii_lower(pre.ci_query@));
}

/// The kind a target is listed under is one of its kinds: the first of
/// `bin`, `example`, `test` and `bench` that it has; a target with none of
/// them is not listed.
pub proof fn law_target_kind_is_first_runnable_kind(kinds: Seq<Seq<char>>)
    ensures
        target_kind_of(kinds) matches Some(k) ==> kinds.contains(k),
        target_kind_of(kinds) is None <==> !(kinds.contains("bin"@) || kinds.contains("example"@) || kinds.contains(
            "test"@,
        ) || kinds.contains("bench"@)),
        kinds.contains("bin"@) ==> target_kind_of(kinds) == Some("bin"@),
        !kinds.contains("bin"@) && kinds.contains("example"@) ==> target_kind_of(kinds) == Some("example"@),
        !kinds.contains("bin"@) && !kinds.contains("example"@) && kinds.contains("test"@) ==> target_kind_of(kinds)
            == Some("test"@),
        !kinds.contains("bin"@) && !kinds.contains("example"@) && !kinds.contains("test"@) && kinds.contains(
            "bench"@,
        ) ==> target_kind_of(kinds) == Some("bench"@),
{
}

/// The cargo subcommand that runs a target of `kind`: `run` for binaries
/// and examples, the kind itself for tests and benches.
pub open spec fn cargo_verb(kind: Seq<char>) -> Seq<char> {
    if kind == "bin"@ || kind == "example"@ {
        "run"@
    } else {
        kind
    }
}

/// A target of kind `bin`, `example`, `test` or `bench` has a run command,
/// no other: cargo's subcommand for its kind, for its package, with the
/// flag named after its kind (`--example` for an example) followed by its
/// name; the required features, if any, come last, joined by commas.
pub proof fn law_run_command_names_kind_and_target(t: TargetView)
    ensures
        run_command(t) is Some <==> (t.kind == "bin"@ || t.kind == "example"@ || t.kind == "test"@ || t.kind
            == "bench"@),
        run_command(t) matches Some(c) ==> {
            let head = "cargo --color always "@ + cargo_verb(t.kind) + " -p "@ + shell_quoted(t.package_name) + " --"@
                + t.kind + " "@ + shell_quoted(t.name);
            &&& is_prefix(head, c)
            &&& t.required_features.len() == 0 ==> c == head
            &&& t.required_features.len() > 0 ==> c == head + " --features "@ + shell_quoted(
                joined(t.required_features, ","@),
            )
        },
{
    reveal_strlit("bin");
    reveal_strlit("example");
    reveal_strlit("test");
    reveal_strlit("bench");
    reveal_strlit("run");
    reveal_strlit("cargo --color always run");
    reveal_strlit("cargo --color always test");
    reveal_strlit("cargo --color always bench");
    reveal_strlit("cargo --color always ");
    reveal_strlit(" -p ");
    reveal_strlit(" --");
    reveal_strlit(" ");
    reveal_strlit(" --bin ");
    reveal_strlit(" --example ");
    reveal_strlit(" --test ");
    reveal_strlit(" --bench ");
    reveal_strlit(" --features ");
    if let Some(c) = run_command(t) {
        let package_flag = " -p "@ + shell_quoted(t.package_name);
        let feature_flags = if t.required_features.len() == 0 {
            Seq::empty()
        } else {
            " --features "@ + shell_quoted(joined(t.required_features, ","@))
        };
        let name = shell_quoted(t.name);
        let head = "cargo --color always "@ + cargo_verb(t.kind) + " -p "@ + shell_quoted(t.package_name) + " --"@
            + t.kind + " "@ + name;
        assert(c =~= head + feature_flags);
        assert(c.subrange(0, head.len() as int) =~= head);
        if t.required_features.len() == 0 {
            assert(c =~= head);
        }
    }
}

/// Text is taken as a repository to clone exactly when it starts with
/// `git@`, `http://` or `https://`, ends with `.git` or mentions
/// `github.com/`.
pub proof fn law_git_url_forms(value: Seq<char>)
    ensures
        is_git_url(value) <==> (is_prefix("git@"@, value) || is_prefix("http://"@, value) || is_prefix(
            "https://"@,
            value,
        ) || is_suffix(".git"@, value) || contains_seq(value, "github.com/"@)),
        is_prefix("https://"@, value) ==> is_git_url(value),
        is_prefix("http://"@, value) ==> is_git_url(value),
        is_prefix("git@"@, value) ==> is_git_url(value),
        is_suffix(".git"@, value) ==> is_git_url(value),
{
}

} // verus!
