//! A project's runnable targets: the binaries, examples, tests and benches
//! that cargo reports, with the descriptions their manifests give them,
//! ordered by path, name and kind.
use crate::app::{target_views, Target, TargetView};
use crate::collections::views;
use crate::navigation::{trim, trimmed};
use crate::projects::{seq_less, str_less};
use crate::text::{opt_str, str_eq};
use vstd::prelude::*;
use vstd::string::*;

verus! {

/// A TOML value, as far as target descriptions read it.
#[derive(Debug)]
pub enum TomlValue {
    Str(String),
    Array(Vec<TomlValue>),
    /// A table's entries, in the parser's order.
    Table(Vec<(String, TomlValue)>),
    /// Numbers, booleans and dates.
    Other,
}

/// `toml::Value` of toml, opaque here.
#[verifier::external_type_specification]
#[verifier::external_body]
pub struct ExTomlValue(toml::Value);

/// The value of `text` parsed as TOML, if it parses.
pub uninterp spec fn parsed_toml(text: Seq<char>) -> Option<TomlValue>;

/// `toml::from_str::<toml::Value>` of toml: the document `text` parsed into a
/// TOML value, with strings, arrays and tables kept and other values marked
/// as such; none when it does not parse. The parse is named by
/// `parsed_toml`; nothing more is stated of it.
#[verifier::external_body]
fn parse_toml(text: &str) -> (r: Option<TomlValue>)
    ensures
        r == parsed_toml(text@),
{
    toml::from_str::<toml::Value>(text).ok().map(|v| plain_toml(&v))
}

/// The variants of a `toml::Value`, one for one (see `TomlValue`).
#[verifier::external_body]
fn plain_toml(v: &toml::Value) -> (r: TomlValue) {
    match v {
        toml::Value::String(s) => TomlValue::Str(s.clone()),
        toml::Value::Array(a) => TomlValue::Array(a.iter().map(plain_toml).collect()),
        toml::Value::Table(t) => TomlValue::Table(t.iter().map(|(k, v)| (k.clone(), plain_toml(v))).collect()),
        _ => TomlValue::Other,
    }
}

/// A description that a manifest gives the target of `kind` named `name`.
#[derive(Debug)]
pub struct TargetDescription {
    pub kind: String,
    pub name: String,
    pub description: Option<String>,
}

/// The value of the first entry with this key.
pub open spec fn entry_value(entries: Seq<(String, TomlValue)>, key: Seq<char>) -> Option<TomlValue>
    decreases entries.len(),
{
    if entries.len() == 0 {
        None
    } else if entries[0].0@ == key {
        Some(entries[0].1)
    } else {
        entry_value(entries.drop_first(), key)
    }
}

/// The value under `key` of a table.
pub open spec fn value_get(v: Option<TomlValue>, key: Seq<char>) -> Option<TomlValue> {
    match v {
        Some(TomlValue::Table(t)) => entry_value(t@, key),
        _ => None,
    }
}

/// The text of a string value.
pub open spec fn value_str(v: Option<TomlValue>) -> Option<Seq<char>> {
    match v {
        Some(TomlValue::Str(s)) => Some(s@),
        _ => None,
    }
}

/// A description trimmed, none when blank.
pub open spec fn cleaned(d: Option<Seq<char>>) -> Option<Seq<char>> {
    match d {
        Some(s) => if trimmed(s).len() > 0 {
            Some(trimmed(s))
        } else {
            None
        },
        None => None,
    }
}

/// Kind, name and description of a description.
pub open spec fn description_view(d: TargetDescription) -> (Seq<char>, Seq<char>, Option<Seq<char>>) {
    (d.kind@, d.name@, opt_str(d.description))
}

/// The descriptions of the targets listed as `[[kind]]` items: each table
/// with a string `name`, its `description` cleaned (possibly none).
pub open spec fn item_descriptions(items: Seq<TomlValue>, kind: Seq<char>) -> Seq<(Seq<char>, Seq<char>, Option<Seq<char>>)>
    decreases items.len(),
{
    if items.len() == 0 {
        Seq::empty()
    } else {
        let rest = item_descriptions(items.drop_last(), kind);
        let item = items.last();
        match item {
            TomlValue::Table(t) => match value_str(entry_value(t@, "name"@)) {
                Some(name) => rest.push((kind, name, cleaned(value_str(entry_value(t@, "description"@))))),
                None => rest,
            },
            _ => rest,
        }
    }
}

/// The descriptions under `package.metadata.<kind>`: each entry whose
/// `description` is not blank.
pub open spec fn metadata_descriptions(entries: Seq<(String, TomlValue)>, kind: Seq<char>) -> Seq<
    (Seq<char>, Seq<char>, Option<Seq<char>>),
>
    decreases entries.len(),
{
    if entries.len() == 0 {
        Seq::empty()
    } else {
        let rest = metadata_descriptions(entries.drop_last(), kind);
        let e = entries.last();
        match cleaned(value_str(value_get(Some(e.1), "description"@))) {
            Some(d) => rest.push((kind, e.0@, Some(d))),
            None => rest,
        }
    }
}

/// The descriptions of one kind: the `[[kind]]` items, then the package
/// metadata.
pub open spec fn kind_descriptions(root: TomlValue, kind: Seq<char>) -> Seq<(Seq<char>, Seq<char>, Option<Seq<char>>)> {
    (match value_get(Some(root), kind) {
        Some(TomlValue::Array(items)) => item_descriptions(items@, kind),
        _ => Seq::empty(),
    }) + (match value_get(value_get(value_get(Some(root), "package"@), "metadata"@), kind) {
        Some(TomlValue::Table(t)) => metadata_descriptions(t@, kind),
        _ => Seq::empty(),
    })
}

/// The descriptions a manifest gives, for binaries, examples, tests and
/// benches in turn; a later one for the same target wins.
pub open spec fn manifest_descriptions(root: TomlValue) -> Seq<(Seq<char>, Seq<char>, Option<Seq<char>>)> {
    kind_descriptions(root, "bin"@) + kind_descriptions(root, "example"@) + kind_descriptions(root, "test"@)
        + kind_descriptions(root, "bench"@)
}

fn lookup<'a>(entries: &'a Vec<(String, TomlValue)>, key: &str) -> (r: Option<&'a TomlValue>)
    ensures
        match r {
            Some(v) => entry_value(entries@, key@) == Some(*v),
            None => entry_value(entries@, key@) is None,
        },
{
    let mut i: usize = 0;
    assert(entries@.skip(0) =~= entries@);
    while i < entries.len()
        invariant
            i <= entries@.len(),
            entry_value(entries@, key@) == entry_value(entries@.skip(i as int), key@),
        decreases entries@.len() - i,
    {
        proof {
            assert(entries@.skip(i as int)[0] == entries@[i as int]);
            assert(entries@.skip(i as int).drop_first() =~= entries@.skip(i + 1));
        }
        if str_eq(entries[i].0.as_str(), key) {
            return Some(&entries[i].1);
        }
        i += 1;
    }
    None
}

fn get_in<'a>(v: Option<&'a TomlValue>, key: &str) -> (r: Option<&'a TomlValue>)
    ensures
        match r {
            Some(x) => value_get(match v { Some(w) => Some(*w), None => None }, key@) == Some(*x),
            None => value_get(match v { Some(w) => Some(*w), None => None }, key@) is None,
        },
{
    match v {
        Some(TomlValue::Table(t)) => lookup(t, key),
        _ => None,
    }
}

fn str_in(v: Option<&TomlValue>) -> (r: Option<String>)
    ensures
        opt_str(r) == value_str(match v { Some(w) => Some(*w), None => None }),
{
    match v {
        Some(TomlValue::Str(s)) => Some(s.clone()),
        _ => None,
    }
}

fn clean(d: Option<String>) -> (r: Option<String>)
    ensures
        opt_str(r) == cleaned(opt_str(d)),
{
    match d {
        Some(s) => {
            let t = trim(s.as_str());
            if t.as_str().is_empty() {
                None
            } else {
                Some(t)
            }
        },
        None => None,
    }
}

fn push_kind_descriptions(out: &mut Vec<TargetDescription>, root: &TomlValue, kind: &str)
    ensures
        final(out)@.map_values(|d: TargetDescription| description_view(d)) == old(out)@.map_values(
            |d: TargetDescription| description_view(d),
        ) + kind_descriptions(*root, kind@),
{
    let ghost start = out@.map_values(|d: TargetDescription| description_view(d));
    let ghost mid_part: Seq<(Seq<char>, Seq<char>, Option<Seq<char>>)> = Seq::empty();
    match get_in(Some(root), kind) {
        Some(TomlValue::Array(items)) => {
            let mut i: usize = 0;
            while i < items.len()
                invariant
                    i <= items@.len(),
                    out@.map_values(|d: TargetDescription| description_view(d)) == start + item_descriptions(
                        items@.take(i as int),
                        kind@,
                    ),
                decreases items@.len() - i,
            {
                proof {
                    assert(items@.take(i + 1).drop_last() =~= items@.take(i as int));
                }
                let item = &items[i];
                let ghost before = out@.map_values(|d: TargetDescription| description_view(d));
                match item {
                    TomlValue::Table(t) => match str_in(lookup(t, "name")) {
                        Some(name) => {
                            let description = clean(str_in(lookup(t, "description")));
                            let d = TargetDescription { kind: String::from_str(kind), name, description };
                            let ghost dv = description_view(d);
                            out.push(d);
                            proof {
                                assert(out@.map_values(|d: TargetDescription| description_view(d)) =~= before.push(dv));
                                assert(before.push(dv) =~= start + item_descriptions(items@.take(i + 1), kind@));
                            }
                        },
                        None => {},
                    },
                    _ => {},
                }
                i += 1;
            }
            assert(items@.take(items@.len() as int) =~= items@);
        },
        _ => {},
    }
    let ghost after_items = out@.map_values(|d: TargetDescription| description_view(d));
    let package = get_in(Some(root), "package");
    let metadata = get_in(package, "metadata");
    match get_in(metadata, kind) {
        Some(TomlValue::Table(t)) => {
            let mut i: usize = 0;
            while i < t.len()
                invariant
                    i <= t@.len(),
                    out@.map_values(|d: TargetDescription| description_view(d)) == after_items
                        + metadata_descriptions(t@.take(i as int), kind@),
                decreases t@.len() - i,
            {
                proof {
                    assert(t@.take(i + 1).drop_last() =~= t@.take(i as int));
                }
                let ghost before = out@.map_values(|d: TargetDescription| description_view(d));
                let e = &t[i];
                match clean(str_in(get_in(Some(&e.1), "description"))) {
                    Some(d) => {
                        let desc = TargetDescription { kind: String::from_str(kind), name: e.0.clone(), description: Some(d) };
                        let ghost dv = description_view(desc);
                        out.push(desc);
                        proof {
                            assert(out@.map_values(|d: TargetDescription| description_view(d)) =~= before.push(dv));
                            assert(before.push(dv) =~= after_items + metadata_descriptions(t@.take(i + 1), kind@));
                        }
                    },
                    None => {
                        assert(before =~= after_items + metadata_descriptions(t@.take(i + 1), kind@));
                    },
                }
                i += 1;
            }
            assert(t@.take(t@.len() as int) =~= t@);
            assert(out@.map_values(|d: TargetDescription| description_view(d)) =~= start + kind_descriptions(*root, kind@));
        },
        _ => {
            assert(out@.map_values(|d: TargetDescription| description_view(d)) =~= start + kind_descriptions(*root, kind@));
        },
    }
}

/// The target descriptions a parsed manifest gives (see
/// `manifest_descriptions`).
pub fn descriptions_from_manifest(root: &TomlValue) -> (r: Vec<TargetDescription>)
    ensures
        r@.map_values(|d: TargetDescription| description_view(d)) == manifest_descriptions(*root),
{
    let mut out: Vec<TargetDescription> = Vec::new();
    assert(out@.map_values(|d: TargetDescription| description_view(d)) =~= Seq::<(Seq<char>, Seq<char>, Option<Seq<char>>)>::empty());
    push_kind_descriptions(&mut out, root, "bin");
    push_kind_descriptions(&mut out, root, "example");
    push_kind_descriptions(&mut out, root, "test");
    push_kind_descriptions(&mut out, root, "bench");
    assert(manifest_descriptions(*root) =~= Seq::<(Seq<char>, Seq<char>, Option<Seq<char>>)>::empty()
        + kind_descriptions(*root, "bin"@) + kind_descriptions(*root, "example"@) + kind_descriptions(*root, "test"@)
        + kind_descriptions(*root, "bench"@));
    out
}

/// The target descriptions of a manifest's text: none when it does not
/// parse as TOML (see `manifest_descriptions`).
pub fn load_target_descriptions(manifest: &str) -> (r: Vec<TargetDescription>)
    ensures
        r@.map_values(|d: TargetDescription| description_view(d)) == match parsed_toml(manifest@) {
            Some(root) => manifest_descriptions(root),
            None => Seq::empty(),
        },
{
    match parse_toml(manifest) {
        Some(root) => descriptions_from_manifest(&root),
        None => {
            let r: Vec<TargetDescription> = Vec::new();
            assert(r@.map_values(|d: TargetDescription| description_view(d)) =~= Seq::<(Seq<char>, Seq<char>, Option<Seq<char>>)>::empty());
            r
        },
    }
}

/// A target as cargo reports it.
#[derive(Debug)]
pub struct CargoTarget {
    pub name: String,
    /// Its kinds, as cargo names them (`bin`, `example`, `test`, `lib`, ...).
    pub kinds: Vec<String>,
    pub src_path: String,
    pub required_features: Vec<String>,
}

/// A package as cargo reports it, with the descriptions its manifest gives.
#[derive(Debug)]
pub struct CargoPackage {
    pub name: String,
    pub descriptions: Vec<TargetDescription>,
    pub targets: Vec<CargoTarget>,
}

/// The kind a target is listed under: binaries first, then examples, tests
/// and benches; other targets are not listed.
pub open spec fn target_kind_of(kinds: Seq<Seq<char>>) -> Option<Seq<char>> {
    if kinds.contains("bin"@) {
        Some("bin"@)
    } else if kinds.contains("example"@) {
        Some("example"@)
    } else if kinds.contains("test"@) {
        Some("test"@)
    } else if kinds.contains("bench"@) {
        Some("bench"@)
    } else {
        None
    }
}

fn has_kind(kinds: &Vec<String>, kind: &str) -> (r: bool)
    ensures
        r == views(kinds@).contains(kind@),
{
    let mut i: usize = 0;
    while i < kinds.len()
        invariant
            i <= kinds@.len(),
            forall|j: int| 0 <= j < i ==> kinds@[j]@ != kind@,
        decreases kinds@.len() - i,
    {
        if str_eq(kinds[i].as_str(), kind) {
            assert(views(kinds@)[i as int] == kind@);
            return true;
        }
        i += 1;
    }
    proof {
        if views(kinds@).contains(kind@) {
            let j = choose|j: int| 0 <= j < views(kinds@).len() && views(kinds@)[j] == kind@;
            assert(kinds@[j]@ == kind@);
        }
    }
    false
}

/// The kind a target is listed under (see `target_kind_of`).
pub fn select_target_kind(kinds: &Vec<String>) -> (r: Option<String>)
    ensures
        opt_str(r) == target_kind_of(views(kinds@)),
{
    if has_kind(kinds, "bin") {
        Some(String::from_str("bin"))
    } else if has_kind(kinds, "example") {
        Some(String::from_str("example"))
    } else if has_kind(kinds, "test") {
        Some(String::from_str("test"))
    } else if has_kind(kinds, "bench") {
        Some(String::from_str("bench"))
    } else {
        None
    }
}

/// `path` relative to `base`, when `base` is a prefix of it.
pub uninterp spec fn path_relative_to(path: Seq<char>, base: Seq<char>) -> Option<Seq<char>>;

/// `Path::strip_prefix` of std: `path` relative to `base`, compared
/// component by component; none when `base` is not a prefix of `path`. Its
/// value is named by `path_relative_to`; nothing more is stated of it.
#[verifier::external_body]
fn strip_path_prefix(path: &str, base: &str) -> (r: Option<String>)
    ensures
        opt_str(r) == path_relative_to(path@, base@),
{
    std::path::Path::new(path).strip_prefix(base).ok().map(|p| p.to_string_lossy().into_owned())
}

/// The description of the last entry for this target, if any.
pub open spec fn description_of(ds: Seq<(Seq<char>, Seq<char>, Option<Seq<char>>)>, kind: Seq<char>, name: Seq<char>) -> Option<Seq<char>>
    decreases ds.len(),
{
    if ds.len() == 0 {
        None
    } else if ds.last().0 == kind && ds.last().1 == name {
        ds.last().2
    } else {
        description_of(ds.drop_last(), kind, name)
    }
}

/// The target listed for cargo's target `t` of package `p` in the project at
/// `root`: its path relative to the project when inside it, its
/// description from the package's manifest.
pub open spec fn target_of(root: Seq<char>, p: CargoPackage, t: CargoTarget) -> Option<TargetView> {
    match target_kind_of(views(t.kinds@)) {
        None => None,
        Some(k) => Some(
            TargetView {
                package_name: p.name@,
                kind: k,
                name: t.name@,
                path: match path_relative_to(t.src_path@, root) {
                    Some(rel) => rel,
                    None => t.src_path@,
                },
                description: description_of(
                    p.descriptions@.map_values(|d: TargetDescription| description_view(d)),
                    k,
                    t.name@,
                ),
                required_features: views(t.required_features@),
            },
        ),
    }
}

/// The targets listed for the first `n` targets of package `p`.
pub open spec fn package_targets(root: Seq<char>, p: CargoPackage, n: int) -> Seq<TargetView>
    decreases n,
{
    if n <= 0 {
        Seq::empty()
    } else {
        match target_of(root, p, p.targets@[n - 1]) {
            Some(t) => package_targets(root, p, n - 1).push(t),
            None => package_targets(root, p, n - 1),
        }
    }
}

/// The targets listed for each package in turn.
pub open spec fn all_targets(root: Seq<char>, ps: Seq<CargoPackage>) -> Seq<TargetView>
    decreases ps.len(),
{
    if ps.len() == 0 {
        Seq::empty()
    } else {
        all_targets(root, ps.drop_last()) + package_targets(root, ps.last(), ps.last().targets@.len() as int)
    }
}

/// `a` is listed before `b`: by path, then name, then kind.
pub open spec fn target_before(a: TargetView, b: TargetView) -> bool {
    seq_less(a.path, b.path) || (a.path == b.path && (seq_less(a.name, b.name) || (a.name == b.name
        && seq_less(a.kind, b.kind))))
}

/// `x` placed into the ordered `s` after every target not listed after it.
pub open spec fn insert_target(s: Seq<TargetView>, x: TargetView) -> Seq<TargetView>
    decreases s.len(),
{
    if s.len() == 0 {
        seq![x]
    } else if target_before(x, s.last()) {
        insert_target(s.drop_last(), x).push(s.last())
    } else {
        s.push(x)
    }
}

/// The targets in listing order; equal ones keep their relative order.
pub open spec fn target_order(s: Seq<TargetView>) -> Seq<TargetView>
    decreases s.len(),
{
    if s.len() == 0 {
        s
    } else {
        insert_target(target_order(s.drop_last()), s.last())
    }
}

proof fn lemma_insert_target_at(s: Seq<TargetView>, x: TargetView, p: int)
    requires
        0 <= p <= s.len(),
        forall|k: int| p <= k < s.len() ==> target_before(x, #[trigger] s[k]),
        p == 0 || !target_before(x, s[p - 1]),
    ensures
        insert_target(s, x) == s.insert(p, x),
    decreases s.len(),
{
    if s.len() == 0 {
        assert(s.insert(p, x) =~= seq![x]);
    } else if p == s.len() {
        assert(s.insert(p, x) =~= s.push(x));
    } else {
        assert(target_before(x, s[s.len() - 1]));
        let d = s.drop_last();
        assert forall|k: int| p <= k < d.len() implies target_before(x, #[trigger] d[k]) by {
            assert(d[k] == s[k]);
        }
        if p > 0 {
            assert(d[p - 1] == s[p - 1]);
        }
        lemma_insert_target_at(d, x, p);
        assert(d.insert(p, x).push(s.last()) =~= s.insert(p, x));
    }
}

fn target_before_exec(a: &Target, b: &Target) -> (r: bool)
    ensures
        r == target_before(a@, b@),
{
    str_less(a.path.as_str(), b.path.as_str()) || (str_eq(a.path.as_str(), b.path.as_str()) && (str_less(
        a.name.as_str(),
        b.name.as_str(),
    ) || (str_eq(a.name.as_str(), b.name.as_str()) && str_less(a.kind.as_str(), b.kind.as_str()))))
}

fn description_lookup(ds: &Vec<TargetDescription>, kind: &str, name: &str) -> (r: Option<String>)
    ensures
        opt_str(r) == description_of(ds@.map_values(|d: TargetDescription| description_view(d)), kind@, name@),
{
    let ghost dv = ds@.map_values(|d: TargetDescription| description_view(d));
    let mut i = ds.len();
    assert(dv.take(i as int) =~= dv);
    while i > 0
        invariant
            i <= ds@.len(),
            dv == ds@.map_values(|d: TargetDescription| description_view(d)),
            description_of(dv, kind@, name@) == description_of(dv.take(i as int), kind@, name@),
        decreases i,
    {
        proof {
            assert(dv.take(i as int).drop_last() =~= dv.take(i - 1));
            assert(dv.take(i as int).last() == description_view(ds@[i - 1]));
        }
        let d = &ds[i - 1];
        if str_eq(d.kind.as_str(), kind) && str_eq(d.name.as_str(), name) {
            return match &d.description {
                Some(t) => Some(t.clone()),
                None => None,
            };
        }
        i -= 1;
    }
    None
}

fn list_target(root: &str, p: &CargoPackage, t: &CargoTarget) -> (r: Option<Target>)
    ensures
        match r {
            Some(x) => target_of(root@, *p, *t) == Some(x@),
            None => target_of(root@, *p, *t) is None,
        },
{
    let kind = match select_target_kind(&t.kinds) {
        Some(k) => k,
        None => return None,
    };
    let path = match strip_path_prefix(t.src_path.as_str(), root) {
        Some(rel) => rel,
        None => t.src_path.clone(),
    };
    let description = description_lookup(&p.descriptions, kind.as_str(), t.name.as_str());
    let features = t.required_features.clone();
    proof {
        assert(features@ =~= t.required_features@);
    }
    Some(Target { package_name: p.name.clone(), kind, name: t.name.clone(), path, description, required_features: features })
}

/// The targets of a project at `root` from what cargo reports of its
/// packages (see `target_of`), ordered by path, name and kind.
pub fn targets_from_metadata(root: &str, packages: &Vec<CargoPackage>) -> (r: Vec<Target>)
    ensures
        target_views(r@) == target_order(all_targets(root@, packages@)),
{
    let mut listed: Vec<Target> = Vec::new();
    let mut i: usize = 0;
    assert(packages@.take(0) =~= Seq::<CargoPackage>::empty());
    while i < packages.len()
        invariant
            i <= packages@.len(),
            target_views(listed@) == all_targets(root@, packages@.take(i as int)),
        decreases packages@.len() - i,
    {
        let p = &packages[i];
        let ghost before = target_views(listed@);
        let mut j: usize = 0;
        while j < p.targets.len()
            invariant
                i < packages@.len(),
                *p == packages@[i as int],
                j <= p.targets@.len(),
                target_views(listed@) == before + package_targets(root@, *p, j as int),
            decreases p.targets@.len() - j,
        {
            match list_target(root, p, &p.targets[j]) {
                Some(t) => {
                    let ghost tv = t@;
                    let ghost prev = target_views(listed@);
                    listed.push(t);
                    assert(target_views(listed@) =~= prev.push(tv));
                },
                None => {},
            }
            j += 1;
        }
        proof {
            assert(packages@.take(i + 1).drop_last() =~= packages@.take(i as int));
            assert(packages@.take(i + 1).last() == packages@[i as int]);
        }
        i += 1;
    }
    assert(packages@.take(packages@.len() as int) =~= packages@);
    let ghost all = target_views(listed@);
    let mut out: Vec<Target> = Vec::new();
    let mut k: usize = 0;
    assert(all.take(0) =~= Seq::<TargetView>::empty());
    while k < listed.len()
        invariant
            k <= listed@.len(),
            all == target_views(listed@),
            target_views(out@) == target_order(all.take(k as int)),
        decreases listed@.len() - k,
    {
        let x = listed[k].clone();
        let ghost before = target_views(out@);
        let mut p = out.len();
        while p > 0 && target_before_exec(&x, &out[p - 1])
            invariant
                p <= out@.len(),
                before == target_views(out@),
                forall|m: int| p <= m < out@.len() ==> target_before(x@, #[trigger] before[m]),
            decreases p,
        {
            p -= 1;
        }
        proof {
            lemma_insert_target_at(before, x@, p as int);
            assert(all.take(k + 1).drop_last() =~= all.take(k as int));
            assert(all.take(k + 1).last() == x@);
        }
        let ghost xv = x@;
        out.insert(p, x);
        assert(target_views(out@) =~= before.insert(p as int, xv));
        k += 1;
    }
    assert(all.take(all.len() as int) =~= all);
    out
}

} // verus!
