//! Projects found under the projects root: what counts as one, how a new one
//! is named, and in which order the dashboard lists them.
use crate::persistence::RecentProjects;
use crate::text::{
    chars_of, contains_seq, contains_str, ends_with, is_prefix, is_suffix, path_join,
    path_join_exec, starts_with, str_eq, string_from_range, trim_end_all, trim_end_len,
    trim_start_all, trim_start_index,
};
use vstd::prelude::*;
use vstd::string::*;

verus! {

/// A directory that holds a git repository or a Cargo manifest.
#[derive(Debug)]
pub struct Project {
    pub name: String,
    pub path: String,
    pub has_git_dir: bool,
    pub is_workspace: bool,
}

impl Clone for Project {
    fn clone(&self) -> (r: Self)
        ensures
            r == *self,
    {
        Project {
            name: self.name.clone(),
            path: self.path.clone(),
            has_git_dir: self.has_git_dir,
            is_workspace: self.is_workspace,
        }
    }
}

/// Text that the add-project dialog treats as a repository to clone.
pub open spec fn is_git_url(value: Seq<char>) -> bool {
    is_prefix("git@"@, value) || is_prefix("http://"@, value) || is_prefix("https://"@, value)
        || is_suffix(".git"@, value) || contains_seq(value, "github.com/"@)
}

/// Whether `value` names a repository to clone rather than a new crate.
pub fn looks_like_git_url(value: &str) -> (r: bool)
    ensures
        r == is_git_url(value@),
{
    starts_with(value, "git@") || starts_with(value, "http://") || starts_with(value, "https://")
        || ends_with(value, ".git") || contains_str(value, "github.com/")
}

/// Path separators of git URLs: `/` and the `:` of `host:path`.
pub open spec fn is_url_separator(c: char) -> bool {
    c == '/' || c == ':'
}

/// The text after the last separator (all of `s` when there is none).
pub open spec fn last_segment(s: Seq<char>) -> Seq<char>
    decreases s.len(),
{
    if s.len() == 0 {
        s
    } else if is_url_separator(s.last()) {
        Seq::empty()
    } else {
        last_segment(s.drop_last()).push(s.last())
    }
}

/// Directory name that `git clone value` creates: the last path segment of
/// the URL without trailing slashes and `.git` suffixes.
pub open spec fn clone_dir_name(value: Seq<char>) -> Seq<char> {
    trim_end_all(last_segment(trim_end_all(value, seq!['/'])), ".git"@)
}

/// Where a clone of `value` lands under `projects_root`; `None` when the URL
/// names no directory.
pub open spec fn cloned_path(projects_root: Seq<char>, value: Seq<char>) -> Option<Seq<char>> {
    let repo = clone_dir_name(value);
    if repo.len() == 0 {
        None
    } else {
        Some(path_join(projects_root, repo))
    }
}

/// No URL separator occurs in `s`.
pub open spec fn no_separator(s: Seq<char>) -> bool {
    forall|k: int| 0 <= k < s.len() ==> !is_url_separator(#[trigger] s[k])
}

proof fn lemma_trim_slashes(x: Seq<char>, n: nat)
    requires
        x.len() > 0,
        x.last() != '/',
    ensures
        trim_end_all(x + Seq::new(n, |i: int| '/'), seq!['/']) == x,
    decreases n,
{
    let y = x + Seq::new(n, |i: int| '/');
    if n == 0 {
        assert(y =~= x);
        assert(!is_suffix(seq!['/'], x)) by {
            assert(x.subrange(x.len() - 1, x.len() as int)[0] == x.last());
        }
    } else {
        assert(is_suffix(seq!['/'], y)) by {
            assert(y.subrange(y.len() - 1, y.len() as int) =~= seq!['/']);
        }
        assert(y.subrange(0, y.len() - 1) =~= x + Seq::new((n - 1) as nat, |i: int| '/'));
        lemma_trim_slashes(x, (n - 1) as nat);
    }
}

proof fn lemma_last_segment_after(prefix: Seq<char>, sep: char, body: Seq<char>)
    requires
        is_url_separator(sep),
        no_separator(body),
    ensures
        last_segment(prefix + seq![sep] + body) == body,
    decreases body.len(),
{
    let v = prefix + seq![sep] + body;
    if body.len() == 0 {
        assert(v =~= prefix.push(sep));
        assert(v.last() == sep);
    } else {
        let b = body.drop_last();
        assert(v.drop_last() =~= prefix + seq![sep] + b);
        assert(v.last() == body[body.len() - 1]);
        lemma_last_segment_after(prefix, sep, b);
        assert(b.push(body.last()) =~= body);
    }
}

/// Cloning a URL that ends in a repository name lands in a directory of that
/// name: for a name with no separator that does not end in `.git`, after any
/// prefix and a `/` or `:`, optionally followed by `.git` and by trailing
/// slashes, the clone directory is the name, under the projects root.
pub proof fn law_clone_lands_in_repo_name(
    root: Seq<char>,
    prefix: Seq<char>,
    sep: char,
    name: Seq<char>,
    git_suffix: bool,
    slashes: nat,
)
    requires
        is_url_separator(sep),
        name.len() > 0,
        no_separator(name),
        !is_suffix(".git"@, name),
    ensures
        ({
            let v = prefix + seq![sep] + name + (if git_suffix { ".git"@ } else { Seq::empty() }) + Seq::new(
                slashes,
                |i: int| '/',
            );
            &&& clone_dir_name(v) == name
            &&& cloned_path(root, v) == Some(path_join(root, name))
        }),
{
    reveal_strlit(".git");
    let g = if git_suffix { ".git"@ } else { Seq::<char>::empty() };
    let body = name + g;
    let x = prefix + seq![sep] + body;
    let v = prefix + seq![sep] + name + g + Seq::new(slashes, |i: int| '/');
    assert(v =~= x + Seq::new(slashes, |i: int| '/'));
    assert(x.last() != '/') by {
        if git_suffix {
            assert(x.last() == 't');
        } else {
            assert(x.last() == name[name.len() - 1]);
        }
    }
    lemma_trim_slashes(x, slashes);
    assert(no_separator(body)) by {
        assert forall|k: int| 0 <= k < body.len() implies !is_url_separator(#[trigger] body[k]) by {
            if k >= name.len() {
                assert(body[k] == g[k - name.len()]);
            } else {
                assert(body[k] == name[k]);
            }
        }
    }
    assert(x =~= prefix + seq![sep] + body);
    lemma_last_segment_after(prefix, sep, body);
    assert(trim_end_all(name, ".git"@) == name);
    if git_suffix {
        assert(is_suffix(".git"@, body)) by {
            assert(body.subrange(body.len() - 4, body.len() as int) =~= ".git"@);
        }
        assert(body.subrange(0, body.len() - 4) =~= name);
        assert(trim_end_all(body, ".git"@) == trim_end_all(name, ".git"@));
    } else {
        assert(body =~= name);
    }
    assert(trim_end_all(v, seq!['/']) == x);
    assert(last_segment(x) == body);
    assert(clone_dir_name(v) == trim_end_all(body, ".git"@));
}

/// Start of the last segment of `v[..end]`.
fn segment_start(v: &Vec<char>, end: usize) -> (r: usize)
    requires
        end <= v.len(),
    ensures
        r <= end,
        v@.subrange(r as int, end as int) == last_segment(v@.subrange(0, end as int)),
    decreases end,
{
    if end == 0 {
        return 0;
    }
    let c = v[end - 1];
    proof {
        let s = v@.subrange(0, end as int);
        assert(s.drop_last() =~= v@.subrange(0, end - 1));
    }
    if c == '/' || c == ':' {
        assert(v@.subrange(end as int, end as int) =~= Seq::<char>::empty());
        end
    } else {
        let r = segment_start(v, end - 1);
        assert(v@.subrange(r as int, end as int) =~= v@.subrange(r as int, end - 1).push(c));
        r
    }
}

/// Path of the directory that cloning `value` into `projects_root` creates.
pub fn cloned_project_path(projects_root: &str, value: &str) -> (r: Option<String>)
    ensures
        r matches Some(p) ==> cloned_path(projects_root@, value@) == Some(p@),
        r is None ==> cloned_path(projects_root@, value@) is None,
{
    let v = chars_of(value);
    let mut slash: Vec<char> = Vec::new();
    slash.push('/');
    assert(slash@ =~= seq!['/']);
    let end = trim_end_len(&v, v.len(), &slash);
    assert(v@.subrange(0, v.len() as int) =~= v@);
    let start = segment_start(&v, end);
    assert(v@.subrange(0, end as int).subrange(0, end as int) =~= v@.subrange(0, end as int));
    let mut seg: Vec<char> = Vec::new();
    let mut i = start;
    while i < end
        invariant
            start <= i <= end,
            end <= v.len(),
            seg@ == v@.subrange(start as int, i as int),
        decreases end - i,
    {
        seg.push(v[i]);
        i += 1;
        assert(seg@ =~= v@.subrange(start as int, i as int));
    }
    let git = chars_of(".git");
    let repo_end = trim_end_len(&seg, seg.len(), &git);
    assert(seg@.subrange(0, seg.len() as int) =~= seg@);
    if repo_end == 0 {
        return None;
    }
    let repo = string_from_range(&seg, 0, repo_end);
    Some(path_join_exec(projects_root, repo.as_str()))
}

/// Directory names that project discovery never descends into.
pub open spec fn is_skipped_scan_dir(name: Seq<char>) -> bool {
    name == "target"@ || name == "node_modules"@ || name == ".direnv"@ || name == ".devenv"@
        || name == ".jj"@ || name == ".venv"@ || name == "venv"@ || name == "dist"@ || name
        == "build"@ || name == ".next"@ || name == ".turbo"@
}

/// Whether discovery skips a child directory of this name.
pub fn should_skip_project_scan_dir(name: &str) -> (r: bool)
    ensures
        r == is_skipped_scan_dir(name@),
{
    str_eq(name, "target") || str_eq(name, "node_modules") || str_eq(name, ".direnv") || str_eq(
        name,
        ".devenv",
    ) || str_eq(name, ".jj") || str_eq(name, ".venv") || str_eq(name, "venv") || str_eq(
        name,
        "dist",
    ) || str_eq(name, "build") || str_eq(name, ".next") || str_eq(name, ".turbo")
}

/// `path` with a leading `~` resolved against `home` when there is one: the
/// text after all leading `~/` is joined onto `home`.
pub open spec fn tilde_expanded(path: Seq<char>, home: Option<Seq<char>>) -> Seq<char> {
    if (path == seq!['~'] || is_prefix("~/"@, path)) && home is Some {
        path_join(home->0, trim_start_all(path, "~/"@))
    } else {
        path
    }
}

/// Resolves a leading `~` of `path` against the home directory `home`.
pub fn expand_tilde(path: &str, home: Option<&str>) -> (r: String)
    ensures
        r@ == tilde_expanded(path@, match home {
            Some(h) => Some(h@),
            None => None,
        }),
{
    let is_tilde = str_eq(path, "~") || starts_with(path, "~/");
    proof {
        reveal_strlit("~");
        assert("~"@ =~= seq!['~']);
    }
    match home {
        Some(h) if is_tilde => {
            let v = chars_of(path);
            let pre = chars_of("~/");
            let start = trim_start_index(&v, 0, &pre);
            assert(v@.subrange(0, v.len() as int) =~= v@);
            let rest = string_from_range(&v, start, v.len());
            path_join_exec(h, rest.as_str())
        },
        _ => String::from_str(path),
    }
}

/// The projects root: `projects_dir` (from `PROJECTS_DIR`) or `~/code`, with
/// `~` resolved.
pub open spec fn projects_root_of(projects_dir: Option<Seq<char>>, home: Option<Seq<char>>) -> Seq<
    char,
> {
    match projects_dir {
        Some(d) => tilde_expanded(d, home),
        None => tilde_expanded("~/code"@, home),
    }
}

/// Directory scanned for projects, from the `PROJECTS_DIR` and `HOME` values.
pub fn projects_root(projects_dir: Option<&str>, home: Option<&str>) -> (r: String)
    ensures
        r@ == projects_root_of(
            match projects_dir {
                Some(d) => Some(d@),
                None => None,
            },
            match home {
                Some(h) => Some(h@),
                None => None,
            },
        ),
{
    match projects_dir {
        Some(d) => expand_tilde(d, home),
        None => expand_tilde("~/code", home),
    }
}

/// Lexicographic order of character sequences (byte order of their UTF-8).
pub open spec fn seq_less(a: Seq<char>, b: Seq<char>) -> bool
    decreases a.len(),
{
    if a.len() == 0 {
        b.len() > 0
    } else if b.len() == 0 {
        false
    } else if a[0] != b[0] {
        (a[0] as u32) < (b[0] as u32)
    } else {
        seq_less(a.drop_first(), b.drop_first())
    }
}

fn less_from(a: &Vec<char>, b: &Vec<char>, i: usize) -> (r: bool)
    requires
        i <= a.len(),
        i <= b.len(),
    ensures
        r == seq_less(a@.skip(i as int), b@.skip(i as int)),
    decreases a.len() - i,
{
    if i == a.len() {
        return i < b.len();
    }
    if i == b.len() {
        return false;
    }
    assert(a@.skip(i as int)[0] == a@[i as int]);
    assert(b@.skip(i as int)[0] == b@[i as int]);
    if a[i] != b[i] {
        return (a[i] as u32) < (b[i] as u32);
    }
    assert(a@.skip(i as int).drop_first() =~= a@.skip(i + 1));
    assert(b@.skip(i as int).drop_first() =~= b@.skip(i + 1));
    less_from(a, b, i + 1)
}

/// Lexicographic comparison of two strings.
pub fn str_less(a: &str, b: &str) -> (r: bool)
    ensures
        r == seq_less(a@, b@),
{
    let av = chars_of(a);
    let bv = chars_of(b);
    assert(av@.skip(0) =~= av@);
    assert(bv@.skip(0) =~= bv@);
    less_from(&av, &bv, 0)
}

/// When the project at `p` was last opened, if known.
pub open spec fn opened_at(recent: Map<Seq<char>, u64>, p: Project) -> Option<u64> {
    if recent.contains_key(p.path@) {
        Some(recent[p.path@])
    } else {
        None
    }
}

/// Whether `a` is listed before `b`: more recently opened first (opened
/// before never opened); among never opened ones git repositories first;
/// then by name.
pub open spec fn listed_before(a: Project, b: Project, recent: Map<Seq<char>, u64>) -> bool {
    let ra = opened_at(recent, a);
    let rb = opened_at(recent, b);
    if ra != rb {
        match (ra, rb) {
            (Some(x), Some(y)) => x > y,
            (Some(_), None) => true,
            _ => false,
        }
    } else if ra is None && a.has_git_dir != b.has_git_dir {
        a.has_git_dir
    } else {
        seq_less(a.name@, b.name@)
    }
}

/// `x` placed into the listed order `s` after every project not listed
/// after it.
pub open spec fn insert_listed(s: Seq<Project>, x: Project, recent: Map<Seq<char>, u64>) -> Seq<
    Project,
>
    decreases s.len(),
{
    if s.len() == 0 {
        seq![x]
    } else if listed_before(x, s.last(), recent) {
        insert_listed(s.drop_last(), x, recent).push(s.last())
    } else {
        s.push(x)
    }
}

/// The projects in listing order; equal ones keep their relative order.
pub open spec fn listed_order(s: Seq<Project>, recent: Map<Seq<char>, u64>) -> Seq<Project>
    decreases s.len(),
{
    if s.len() == 0 {
        s
    } else {
        insert_listed(listed_order(s.drop_last(), recent), s.last(), recent)
    }
}

proof fn lemma_insert_listed_at(s: Seq<Project>, x: Project, recent: Map<Seq<char>, u64>, p: int)
    requires
        0 <= p <= s.len(),
        forall|k: int| p <= k < s.len() ==> listed_before(x, #[trigger] s[k], recent),
        p == 0 || !listed_before(x, s[p - 1], recent),
    ensures
        insert_listed(s, x, recent) == s.insert(p, x),
    decreases s.len(),
{
    if s.len() == 0 {
        assert(s.insert(p, x) =~= seq![x]);
    } else if p == s.len() {
        assert(s.insert(p, x) =~= s.push(x));
    } else {
        assert(listed_before(x, s[s.len() - 1], recent));
        let d = s.drop_last();
        assert forall|k: int| p <= k < d.len() implies listed_before(x, #[trigger] d[k], recent) by {
            assert(d[k] == s[k]);
        }
        if p > 0 {
            assert(d[p - 1] == s[p - 1]);
        }
        lemma_insert_listed_at(d, x, recent, p);
        assert(d.insert(p, x).push(s.last()) =~= s.insert(p, x));
    }
}

fn listed_before_exec(a: &Project, b: &Project, recent: &RecentProjects) -> (r: bool)
    ensures
        r == listed_before(*a, *b, recent.entries@),
{
    let ra = match recent.entries.get(a.path.as_str()) {
        Some(t) => Some(*t),
        None => None,
    };
    let rb = match recent.entries.get(b.path.as_str()) {
        Some(t) => Some(*t),
        None => None,
    };
    match (ra, rb) {
        (Some(x), Some(y)) if x != y => x > y,
        (Some(_), None) => true,
        (None, Some(_)) => false,
        (None, None) if a.has_git_dir != b.has_git_dir => a.has_git_dir,
        _ => str_less(a.name.as_str(), b.name.as_str()),
    }
}

/// Puts `projects` in listing order (see `listed_before`), keeping the
/// relative order of projects that compare equal.
pub fn sort_projects(projects: &mut Vec<Project>, recent_projects: &RecentProjects)
    ensures
        final(projects)@ == listed_order(old(projects)@, recent_projects.entries@),
{
    let ghost recent = recent_projects.entries@;
    let mut out: Vec<Project> = Vec::new();
    let mut i: usize = 0;
    assert(projects@.take(0) =~= Seq::<Project>::empty());
    while i < projects.len()
        invariant
            i <= projects.len(),
            recent == recent_projects.entries@,
            out@ == listed_order(projects@.take(i as int), recent),
        decreases projects.len() - i,
    {
        let x = projects[i].clone();
        let mut p = out.len();
        while p > 0 && listed_before_exec(&x, &out[p - 1], recent_projects)
            invariant
                p <= out.len(),
                recent == recent_projects.entries@,
                forall|k: int| p <= k < out.len() ==> listed_before(x, #[trigger] out@[k], recent),
            decreases p,
        {
            p -= 1;
        }
        proof {
            lemma_insert_listed_at(out@, x, recent, p as int);
            assert(projects@.take(i + 1).drop_last() =~= projects@.take(i as int));
        }
        out.insert(p, x);
        i += 1;
    }
    assert(projects@.take(projects.len() as int) =~= projects@);
    *projects = out;
}

} // verus!
