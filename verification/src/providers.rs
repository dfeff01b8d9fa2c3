//! Project metadata, CI runs and language statistics as the dashboard shows
//! them, and the text rules for GitHub remotes and URL query values.
use crate::text::{chars_of, is_prefix, occurs_at_exec, push_char, string_from_range, trim_end_all, trim_end_len};
use vstd::prelude::*;
use vstd::string::*;

verus! {

/// Package and git facts shown for the selected project.
#[derive(Debug)]
pub struct ProjectMetadataSummary {
    pub package_name: String,
    pub package_version: String,
    pub description: String,
    pub git_branch: String,
    pub git_status: String,
}

impl Default for ProjectMetadataSummary {
    fn default() -> (r: Self)
        ensures
            r.package_name@.len() == 0,
            r.package_version@.len() == 0,
            r.description@.len() == 0,
            r.git_branch@.len() == 0,
            r.git_status@.len() == 0,
    {
        ProjectMetadataSummary {
            package_name: String::new(),
            package_version: String::new(),
            description: String::new(),
            git_branch: String::new(),
            git_status: String::new(),
        }
    }
}

impl Clone for ProjectMetadataSummary {
    fn clone(&self) -> (r: Self)
        ensures
            r == *self,
    {
        ProjectMetadataSummary {
            package_name: self.package_name.clone(),
            package_version: self.package_version.clone(),
            description: self.description.clone(),
            git_branch: self.git_branch.clone(),
            git_status: self.git_status.clone(),
        }
    }
}

/// One GitHub Actions run.
#[derive(Debug)]
pub struct CiRun {
    pub status: String,
    pub branch: String,
    pub title: String,
    pub created_at: String,
    pub url: String,
}

impl Clone for CiRun {
    fn clone(&self) -> (r: Self)
        ensures
            r == *self,
    {
        CiRun {
            status: self.status.clone(),
            branch: self.branch.clone(),
            title: self.title.clone(),
            created_at: self.created_at.clone(),
            url: self.url.clone(),
        }
    }
}

/// The recent runs of a repository.
#[derive(Debug)]
pub struct CiRunsData {
    pub repo: String,
    pub runs: Vec<CiRun>,
}

/// Line counts of one language.
#[derive(Debug)]
pub struct LanguageStat {
    pub name: String,
    pub code: u64,
    pub blanks: u64,
    pub comments: u64,
}

/// Language statistics of a project, most code first.
#[derive(Debug)]
pub struct LanguagesData {
    pub languages: Vec<LanguageStat>,
}

/// The `https://github.com/...` address of a GitHub remote given in SSH or
/// HTTPS form, without trailing `.git`; `None` for other hosts.
pub open spec fn github_url_of(remote: Seq<char>) -> Option<Seq<char>> {
    let ssh = "git@github.com:"@;
    let https = "https://github.com/"@;
    if is_prefix(ssh, remote) {
        Some(https + trim_end_all(remote.subrange(ssh.len() as int, remote.len() as int), ".git"@))
    } else if is_prefix(https, remote) {
        Some(
            https + trim_end_all(remote.subrange(https.len() as int, remote.len() as int), ".git"@),
        )
    } else {
        None
    }
}

fn github_url_after(v: &Vec<char>, start: usize) -> (r: String)
    requires
        start <= v.len(),
    ensures
        r@ == "https://github.com/"@ + trim_end_all(v@.subrange(start as int, v.len() as int), ".git"@),
{
    let suffix = chars_of(".git");
    let rest_v = v.clone();
    assert(rest_v@ =~= v@);
    let tail: Vec<char> = {
        let mut t: Vec<char> = Vec::new();
        let mut i = start;
        while i < v.len()
            invariant
                start <= i <= v.len(),
                t@ == v@.subrange(start as int, i as int),
            decreases v.len() - i,
        {
            t.push(v[i]);
            i += 1;
            assert(t@ =~= v@.subrange(start as int, i as int));
        }
        t
    };
    let end = trim_end_len(&tail, tail.len(), &suffix);
    assert(tail@.subrange(0, tail.len() as int) =~= tail@);
    let mut r = String::from_str("https://github.com/");
    let kept = string_from_range(&tail, 0, end);
    r.append(kept.as_str());
    r
}

/// GitHub web address of a git remote (see `github_url_of`).
pub fn normalize_github_remote(remote: &str) -> (r: Option<String>)
    ensures
        r matches Some(u) ==> github_url_of(remote@) == Some(u@),
        r is None ==> github_url_of(remote@) is None,
{
    let v = chars_of(remote);
    let ssh = chars_of("git@github.com:");
    let https = chars_of("https://github.com/");
    if occurs_at_exec(&v, &ssh, 0) {
        return Some(github_url_after(&v, ssh.len()));
    }
    if occurs_at_exec(&v, &https, 0) {
        return Some(github_url_after(&v, https.len()));
    }
    None
}

/// Bytes left as they are in a URL query value.
pub open spec fn url_unreserved(b: u8) -> bool {
    (65 <= b <= 90) || (97 <= b <= 122) || (48 <= b <= 57) || b == 45 || b == 95 || b == 46
        || b == 126
}

/// Upper-case hexadecimal digit of `d < 16`.
pub open spec fn hex_digit(d: u8) -> char {
    if d < 10 {
        ((d + 48) as u32) as char
    } else {
        ((d + 55) as u32) as char
    }
}

/// Percent-encoding of a byte sequence: unreserved bytes stay, every other
/// byte becomes `%XX` with upper-case hex digits.
pub open spec fn url_encoded(bytes: Seq<u8>) -> Seq<char>
    decreases bytes.len(),
{
    if bytes.len() == 0 {
        Seq::empty()
    } else {
        let b = bytes.last();
        url_encoded(bytes.drop_last()) + if url_unreserved(b) {
            seq![(b as u32) as char]
        } else {
            seq!['%', hex_digit(b / 16), hex_digit(b % 16)]
        }
    }
}

fn hex_digit_exec(d: u8) -> (c: char)
    requires
        d < 16,
    ensures
        c == hex_digit(d),
{
    if d < 10 {
        (d + 48) as char
    } else {
        (d + 55) as char
    }
}

/// Percent-encodes the UTF-8 bytes of `value` for a URL query.
pub fn shell_url_encode(value: &str) -> (r: String)
    ensures
        r@ == url_encoded(value.spec_bytes()),
{
    let bytes = value.as_bytes();
    let mut r = String::new();
    let mut i: usize = 0;
    while i < bytes.len()
        invariant
            i <= bytes@.len(),
            bytes@ == value.spec_bytes(),
            r@ == url_encoded(bytes@.subrange(0, i as int)),
        decreases bytes@.len() - i,
    {
        let b = bytes[i];
        assert(bytes@.subrange(0, i + 1).drop_last() =~= bytes@.subrange(0, i as int));
        if (65 <= b && b <= 90) || (97 <= b && b <= 122) || (48 <= b && b <= 57) || b == 45
            || b == 95 || b == 46 || b == 126 {
            push_char(&mut r, b as char);
        } else {
            push_char(&mut r, '%');
            push_char(&mut r, hex_digit_exec(b / 16));
            push_char(&mut r, hex_digit_exec(b % 16));
        }
        i += 1;
    }
    assert(bytes@.subrange(0, bytes@.len() as int) =~= bytes@);
    r
}

} // verus!
