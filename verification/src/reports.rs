//! What cargo, git, the GitHub CLI and tokei report about a project, turned
//! into what the dashboard shows.
use crate::navigation::{trim, trimmed};
use crate::projects::{seq_less, str_less};
use crate::providers::{
    github_url_of, normalize_github_remote, shell_url_encode, url_encoded, CiRun, CiRunsData,
    LanguageStat, LanguagesData, ProjectMetadataSummary,
};
use crate::text::{opt_str, str_eq};
use vstd::prelude::*;
use vstd::string::*;
use vstd::utf8::encode_utf8;

verus! {

/// What cargo reports of a project's root package.
#[derive(Debug)]
pub struct PackageInfo {
    pub name: String,
    pub version: String,
    pub description: Option<String>,
}

/// `Some`'s text, or `default`.
pub open spec fn text_or(o: Option<Seq<char>>, default: Seq<char>) -> Seq<char> {
    match o {
        Some(t) => t,
        None => default,
    }
}

/// The facts shown for a project: the package's name (else the directory's
/// name), its version, its description when not blank, the git branch and
/// status; unknown ones shown as `—`.
pub open spec fn summary_of(
    dir_name: Option<Seq<char>>,
    package: Option<PackageInfo>,
    branch: Option<Seq<char>>,
    git_status: Seq<char>,
) -> (Seq<char>, Seq<char>, Seq<char>, Seq<char>, Seq<char>) {
    (
        match package {
            Some(p) => p.name@,
            None => text_or(dir_name, "\u{2014}"@),
        },
        match package {
            Some(p) => p.version@,
            None => "\u{2014}"@,
        },
        match package {
            Some(p) => match p.description {
                Some(d) => if trimmed(d@).len() > 0 {
                    d@
                } else {
                    "No description."@
                },
                None => "No description."@,
            },
            None => "No description."@,
        },
        text_or(branch, "\u{2014}"@),
        git_status,
    )
}

/// The facts shown for a project (see `summary_of`): `dir_name` is the last
/// component of its path, `package` what cargo reports of its root package,
/// `branch` its git branch and `git_status` the git status label.
pub fn summarize_metadata(
    dir_name: Option<String>,
    package: Option<PackageInfo>,
    branch: Option<String>,
    git_status: String,
) -> (r: ProjectMetadataSummary)
    ensures
        (r.package_name@, r.package_version@, r.description@, r.git_branch@, r.git_status@) == summary_of(
            opt_str(dir_name),
            package,
            opt_str(branch),
            git_status@,
        ),
{
    let ghost pkg = package;
    let (package_name, package_version, description) = match package {
        Some(p) => {
            let description = match p.description {
                Some(d) => if trim(d.as_str()).as_str().is_empty() {
                    String::from_str("No description.")
                } else {
                    d
                },
                None => String::from_str("No description."),
            };
            (p.name, p.version, description)
        },
        None => (
            match dir_name {
                Some(d) => d,
                None => String::from_str("\u{2014}"),
            },
            String::from_str("\u{2014}"),
            String::from_str("No description."),
        ),
    };
    let git_branch = match branch {
        Some(b) => b,
        None => String::from_str("\u{2014}"),
    };
    ProjectMetadataSummary { package_name, package_version, description, git_branch, git_status }
}

/// The branch that `git branch --show-current` printed, trimmed; none when
/// the command failed or printed nothing but whitespace.
pub fn branch_from_output(stdout: Option<String>) -> (r: Option<String>)
    ensures
        opt_str(r) == match stdout {
            Some(s) => if trimmed(s@).len() > 0 {
                Some(trimmed(s@))
            } else {
                None
            },
            None => None,
        },
{
    match stdout {
        Some(s) => {
            let t = trim(s.as_str());
            if t.as_str().is_empty() {
                None
            } else {
                Some(t)
            }
        },
        None => None,
    }
}

/// The git status label from what `git status --porcelain` printed:
/// `UNTRACKED` when the command failed, `CLEAN` when it printed nothing but
/// whitespace, else `DIRTY`.
pub fn git_status_label(stdout: Option<String>) -> (r: String)
    ensures
        r@ == match stdout {
            None => "UNTRACKED"@,
            Some(s) => if trimmed(s@).len() == 0 {
                "CLEAN"@
            } else {
                "DIRTY"@
            },
        },
{
    match stdout {
        None => String::from_str("UNTRACKED"),
        Some(s) => if trim(s.as_str()).as_str().is_empty() {
            String::from_str("CLEAN")
        } else {
            String::from_str("DIRTY")
        },
    }
}

/// The GitHub API path that lists a repository's recent workflow runs on a
/// branch.
#[derive(Debug)]
pub struct CiRequest {
    /// `owner/repo`.
    pub owner_repo: String,
    pub api_path: String,
}

/// `owner/repo` of a GitHub remote (see `github_url_of`).
pub open spec fn owner_repo_of(remote: Seq<char>) -> Option<Seq<char>> {
    match github_url_of(trimmed(remote)) {
        Some(url) => Some(url.subrange(19, url.len() as int)),
        None => None,
    }
}

/// The API path of the last 25 runs of `owner_repo`, on `branch` when known
/// (its UTF-8 bytes percent-encoded).
pub open spec fn runs_path_of(owner_repo: Seq<char>, branch: Option<Seq<char>>) -> Seq<char> {
    "repos/"@ + owner_repo + "/actions/runs?per_page=25"@ + match branch {
        Some(b) => "&branch="@ + url_encoded(encode_utf8(b)),
        None => Seq::empty(),
    }
}

/// What to ask GitHub for the CI runs of a project whose `origin` remote
/// printed `remote` and whose branch is `branch`: none unless the remote is
/// on GitHub.
pub fn ci_request(remote: Option<String>, branch: Option<String>) -> (r: Option<CiRequest>)
    ensures
        match remote {
            None => r is None,
            Some(rm) => match owner_repo_of(rm@) {
                None => r is None,
                Some(o) => r matches Some(c) && c.owner_repo@ == o && c.api_path@ == runs_path_of(
                    o,
                    opt_str(branch),
                ),
            },
        },
{
    let rm = match remote {
        Some(rm) => rm,
        None => return None,
    };
    let url = match normalize_github_remote(trim(rm.as_str()).as_str()) {
        Some(u) => u,
        None => return None,
    };
    proof {
        reveal_strlit("https://github.com/");
        assert(url@.len() >= 19);
    }
    let owner_repo = String::from_str(url.as_str().substring_char(19, url.as_str().unicode_len()));
    let mut api_path = String::from_str("repos/");
    api_path.append(owner_repo.as_str());
    api_path.append("/actions/runs?per_page=25");
    match branch {
        Some(b) => {
            api_path.append("&branch=");
            api_path.append(shell_url_encode(b.as_str()).as_str());
        },
        None => {},
    }
    Some(CiRequest { owner_repo, api_path })
}

/// A workflow run as the GitHub API reports it.
#[derive(Debug)]
pub struct GhRun {
    pub html_url: String,
    pub display_title: Option<String>,
    pub head_branch: Option<String>,
    pub created_at: String,
    pub conclusion: Option<String>,
    pub status: String,
}

/// A run as shown: its conclusion once it has one, else its status; the
/// branch and title `—` when missing.
pub open spec fn ci_run_of(g: GhRun, run: CiRun) -> bool {
    &&& run.status@ == text_or(opt_str(g.conclusion), g.status@)
    &&& run.branch@ == text_or(opt_str(g.head_branch), "\u{2014}"@)
    &&& run.title@ == text_or(opt_str(g.display_title), "\u{2014}"@)
    &&& run.created_at@ == g.created_at@
    &&& run.url@ == g.html_url@
}

/// The runs of `owner_repo` as shown (see `ci_run_of`), in the order
/// reported.
pub fn ci_runs_from(owner_repo: String, runs: Vec<GhRun>) -> (r: CiRunsData)
    ensures
        r.repo@ == owner_repo@,
        r.runs@.len() == runs@.len(),
        forall|k: int| 0 <= k < runs@.len() ==> ci_run_of(runs@[k], #[trigger] r.runs@[k]),
{
    let ghost all = runs@;
    let mut rest = runs;
    let mut out: Vec<CiRun> = Vec::new();
    let total = rest.len();
    let mut k: usize = 0;
    while rest.len() > 0
        invariant
            all.len() == total,
            k <= total,
            rest@ == all.skip(k as int),
            out@.len() == k,
            forall|j: int| 0 <= j < k ==> ci_run_of(all[j], #[trigger] out@[j]),
        decreases rest@.len(),
    {
        let g = rest.remove(0);
        assert(g == all[k as int]);
        let status = match g.conclusion {
            Some(c) => c,
            None => g.status,
        };
        let branch = match g.head_branch {
            Some(b) => b,
            None => String::from_str("\u{2014}"),
        };
        let title = match g.display_title {
            Some(t) => t,
            None => String::from_str("\u{2014}"),
        };
        out.push(CiRun { status, branch, title, created_at: g.created_at, url: g.html_url });
        assert(rest@ =~= all.skip(k + 1));
        k += 1;
    }
    CiRunsData { repo: owner_repo, runs: out }
}

/// One entry of tokei's JSON report: a language and, when given as whole
/// numbers, its line counts.
#[derive(Debug)]
pub struct LanguageEntry {
    pub name: String,
    pub blanks: Option<u64>,
    pub code: Option<u64>,
    pub comments: Option<u64>,
}

/// An entry is shown: it is not the total, has all three counts, and some
/// code.
pub open spec fn entry_kept(e: LanguageEntry) -> bool {
    &&& e.name@ != "Total"@
    &&& e.blanks is Some
    &&& e.comments is Some
    &&& e.code matches Some(c) && c > 0
}

/// The language stats of the kept entries, in report order.
pub open spec fn kept_stats(es: Seq<LanguageEntry>) -> Seq<(Seq<char>, u64, u64, u64)>
    decreases es.len(),
{
    if es.len() == 0 {
        Seq::empty()
    } else if entry_kept(es.last()) {
        kept_stats(es.drop_last()).push(
            (es.last().name@, es.last().code->0, es.last().blanks->0, es.last().comments->0),
        )
    } else {
        kept_stats(es.drop_last())
    }
}

/// Name, code, blank and comment lines of a stat.
pub open spec fn stat_view(s: LanguageStat) -> (Seq<char>, u64, u64, u64) {
    (s.name@, s.code, s.blanks, s.comments)
}

/// `a` is listed before `b`: more code first, then by name.
pub open spec fn stat_before(a: (Seq<char>, u64, u64, u64), b: (Seq<char>, u64, u64, u64)) -> bool {
    a.1 > b.1 || (a.1 == b.1 && seq_less(a.0, b.0))
}

/// `x` placed into the ordered `s` after every stat not listed after it.
pub open spec fn insert_stat(s: Seq<(Seq<char>, u64, u64, u64)>, x: (Seq<char>, u64, u64, u64)) -> Seq<
    (Seq<char>, u64, u64, u64),
>
    decreases s.len(),
{
    if s.len() == 0 {
        seq![x]
    } else if stat_before(x, s.last()) {
        insert_stat(s.drop_last(), x).push(s.last())
    } else {
        s.push(x)
    }
}

/// The stats in listing order; equal ones keep their relative order.
pub open spec fn stat_order(s: Seq<(Seq<char>, u64, u64, u64)>) -> Seq<(Seq<char>, u64, u64, u64)>
    decreases s.len(),
{
    if s.len() == 0 {
        s
    } else {
        insert_stat(stat_order(s.drop_last()), s.last())
    }
}

proof fn lemma_insert_stat_at(s: Seq<(Seq<char>, u64, u64, u64)>, x: (Seq<char>, u64, u64, u64), p: int)
    requires
        0 <= p <= s.len(),
        forall|k: int| p <= k < s.len() ==> stat_before(x, #[trigger] s[k]),
        p == 0 || !stat_before(x, s[p - 1]),
    ensures
        insert_stat(s, x) == s.insert(p, x),
    decreases s.len(),
{
    if s.len() == 0 {
        assert(s.insert(p, x) =~= seq![x]);
    } else if p == s.len() {
        assert(s.insert(p, x) =~= s.push(x));
    } else {
        assert(stat_before(x, s[s.len() - 1]));
        let d = s.drop_last();
        assert forall|k: int| p <= k < d.len() implies stat_before(x, #[trigger] d[k]) by {
            assert(d[k] == s[k]);
        }
        if p > 0 {
            assert(d[p - 1] == s[p - 1]);
        }
        lemma_insert_stat_at(d, x, p);
        assert(d.insert(p, x).push(s.last()) =~= s.insert(p, x));
    }
}

/// The language stats of a tokei report: the kept entries (see
/// `entry_kept`) with most code first and then by name; none when no entry
/// is kept.
pub fn languages_from(entries: Vec<LanguageEntry>) -> (r: Option<LanguagesData>)
    ensures
        match r {
            None => kept_stats(entries@).len() == 0,
            Some(d) => kept_stats(entries@).len() > 0 && d.languages@.map_values(|s: LanguageStat| stat_view(s))
                == stat_order(kept_stats(entries@)),
        },
{
    let ghost all = entries@;
    let mut out: Vec<LanguageStat> = Vec::new();
    let mut i: usize = 0;
    assert(all.take(0) =~= Seq::<LanguageEntry>::empty());
    while i < entries.len()
        invariant
            i <= entries@.len(),
            all == entries@,
            out@.map_values(|s: LanguageStat| stat_view(s)) == stat_order(kept_stats(all.take(i as int))),
        decreases entries@.len() - i,
    {
        proof {
            assert(all.take(i + 1).drop_last() =~= all.take(i as int));
        }
        let e = &entries[i];
        let keep = !str_eq(e.name.as_str(), "Total") && e.blanks.is_some() && e.comments.is_some() && match e.code {
            Some(c) => c > 0,
            None => false,
        };
        proof {
            reveal_strlit("Total");
            assert(keep == entry_kept(all[i as int]));
        }
        if keep {
            let x = LanguageStat {
                name: e.name.clone(),
                code: e.code.unwrap(),
                blanks: e.blanks.unwrap(),
                comments: e.comments.unwrap(),
            };
            let ghost xv = stat_view(x);
            let ghost before = out@.map_values(|s: LanguageStat| stat_view(s));
            let mut p = out.len();
            while p > 0 && (x.code > out[p - 1].code || (x.code == out[p - 1].code && str_less(
                x.name.as_str(),
                out[p - 1].name.as_str(),
            )))
                invariant
                    p <= out@.len(),
                    xv == stat_view(x),
                    before == out@.map_values(|s: LanguageStat| stat_view(s)),
                    forall|k: int| p <= k < out@.len() ==> stat_before(xv, #[trigger] before[k]),
                decreases p,
            {
                assert(before[p - 1] == stat_view(out@[p - 1]));
                p -= 1;
            }
            proof {
                if p > 0 {
                    assert(before[p - 1] == stat_view(out@[p - 1]));
                }
                lemma_insert_stat_at(before, xv, p as int);
            }
            out.insert(p, x);
            proof {
                assert(out@.map_values(|s: LanguageStat| stat_view(s)) =~= before.insert(p as int, xv));
                let t = all.take(i + 1);
                assert(t.last() == all[i as int]);
                assert(kept_stats(t) == kept_stats(all.take(i as int)).push(xv));
                assert(kept_stats(t).drop_last() =~= kept_stats(all.take(i as int)));
            }
        } else {
            proof {
                let t = all.take(i + 1);
                assert(t.last() == all[i as int]);
                assert(kept_stats(t) == kept_stats(all.take(i as int)));
            }
        }
        i += 1;
    }
    assert(all.take(all.len() as int) =~= all);
    if out.len() == 0 {
        proof {
            lemma_order_len(kept_stats(all));
        }
        None
    } else {
        proof {
            lemma_order_len(kept_stats(all));
        }
        Some(LanguagesData { languages: out })
    }
}

proof fn lemma_insert_stat_len(s: Seq<(Seq<char>, u64, u64, u64)>, x: (Seq<char>, u64, u64, u64))
    ensures
        insert_stat(s, x).len() == s.len() + 1,
    decreases s.len(),
{
    if s.len() > 0 && stat_before(x, s.last()) {
        lemma_insert_stat_len(s.drop_last(), x);
    }
}

proof fn lemma_order_len(s: Seq<(Seq<char>, u64, u64, u64)>)
    ensures
        stat_order(s).len() == s.len(),
    decreases s.len(),
{
    if s.len() > 0 {
        lemma_order_len(s.drop_last());
        lemma_insert_stat_len(stat_order(s.drop_last()), s.last());
    }
}

} // verus!
