//! Slash-separated paths: the search roots, deduplication, and the
//! structural signature of an environment (`<root>/bin/python`).
//!
//! Paths are handled as text, in the form a directory walk yields them:
//! absolute, with no empty, `.` or `..` components.

use vstd::prelude::*;
use vstd::string::*;
use crate::text::has_prefix;

verus! {

/// The text of each path in a list.
pub open spec fn views(s: Seq<String>) -> Seq<Seq<char>> {
    s.map_values(|p: String| p@)
}

/// `base` joined with `rel` as `Path::join` does on Unix: an absolute
/// `rel` replaces `base`; otherwise one separator is put between them
/// unless `base` is empty or already ends with one.
pub open spec fn join_spec(base: Seq<char>, rel: Seq<char>) -> Seq<char> {
    if rel.len() > 0 && rel[0] == '/' {
        rel
    } else if base.len() == 0 || base.last() == '/' {
        base + rel
    } else {
        base + seq!['/'] + rel
    }
}

pub open spec fn has_suffix(s: Seq<char>, suf: Seq<char>) -> bool {
    suf.len() <= s.len() && s.skip(s.len() - suf.len()) == suf
}

/// The environment root that a walked entry marks, if it marks one: an
/// entry named `python` in a directory named `bin` marks the directory
/// that holds `bin`.
pub open spec fn venv_root_spec(p: Seq<char>) -> Option<Seq<char>> {
    let suf = "/bin/python"@;
    if has_suffix(p, suf) {
        let r = p.take(p.len() - suf.len());
        Some(if r.len() == 0 { "/"@ } else { r })
    } else {
        None
    }
}

/// Index of the last `/` in the first `j` characters of `p`, or -1.
pub open spec fn last_slash(p: Seq<char>, j: int) -> int
    decreases j,
{
    if j <= 0 || j > p.len() {
        -1
    } else if p[j - 1] == '/' {
        j - 1
    } else {
        last_slash(p, j - 1)
    }
}

/// The final component of `p`, if it is a name: not empty, `.` or `..`.
pub open spec fn file_name_spec(p: Seq<char>) -> Option<Seq<char>> {
    let n = p.skip(last_slash(p, p.len() as int) + 1);
    if n.len() == 0 || n == "."@ || n == ".."@ {
        None
    } else {
        Some(n)
    }
}

/// The directories searched for environments, for the home directory
/// `home`: those of pipx, virtualenvwrapper, virtualenv, poetry, conda and
/// its variants, pyenv, asdf, Enthought Canopy and PyCharm, and system-wide
/// locations.
pub open spec fn search_templates(home: Seq<char>) -> Seq<Seq<char>> {
    seq![
        join_spec(home, ".local/pipx/venvs"@),
        join_spec(home, ".virtualenvs"@),
        join_spec(home, ".local/share/virtualenvs"@),
        "/usr/local/share/virtualenvs"@,
        "/usr/share/virtualenvs"@,
        "/opt/virtualenvs"@,
        join_spec(home, ".config/virtualenvs"@),
        join_spec(home, ".cache/pypoetry/virtualenvs"@),
        join_spec(home, ".conda/envs"@),
        join_spec(home, ".miniconda/envs"@),
        join_spec(home, ".miniforge/envs"@),
        join_spec(home, "anaconda3/envs"@),
        join_spec(home, "miniconda3/envs"@),
        join_spec(home, "miniforge3/envs"@),
        join_spec(home, "mambaforge/envs"@),
        join_spec(home, "mambaforge3/envs"@),
        join_spec(home, ".pyenv/versions/envs"@),
        join_spec(home, ".asdf/installs/python"@),
        join_spec(home, ".asdf/installs/python/versions"@),
        join_spec(home, "Library/Enthought/Canopy/edm/envs"@),
        join_spec(home, ".PyCharmXXXX.X/config/virtualenvs"@),
        "/opt/anaconda3/envs"@,
        "/opt/miniconda3/envs"@,
    ]
}

/// `s` with every element after its first occurrence left out.
pub open spec fn dedup_spec(s: Seq<Seq<char>>) -> Seq<Seq<char>>
    decreases s.len(),
{
    if s.len() == 0 {
        s
    } else {
        let d = dedup_spec(s.drop_last());
        if d.contains(s.last()) {
            d
        } else {
            d.push(s.last())
        }
    }
}

/// Environment roots that the walked entries mark, in walk order.
pub open spec fn roots_spec(entries: Seq<Seq<char>>) -> Seq<Seq<char>>
    decreases entries.len(),
{
    if entries.len() == 0 {
        Seq::empty()
    } else {
        let rest = roots_spec(entries.drop_last());
        match venv_root_spec(entries.last()) {
            Some(r) => rest.push(r),
            None => rest,
        }
    }
}

/// The environments located from the walked entries: each root once, in
/// the order first found.
pub open spec fn located_spec(entries: Seq<Seq<char>>) -> Seq<Seq<char>> {
    dedup_spec(roots_spec(entries))
}

/// Deduplication keeps each element exactly once and loses none.
pub proof fn lemma_dedup(s: Seq<Seq<char>>)
    ensures
        dedup_spec(s).no_duplicates(),
        forall|x: Seq<char>| dedup_spec(s).contains(x) <==> s.contains(x),
    decreases s.len(),
{
    if s.len() > 0 {
        lemma_dedup(s.drop_last());
        let d = dedup_spec(s.drop_last());
        assert forall|x: Seq<char>| s.contains(x) <==> (s.drop_last().contains(x) || x == s.last()) by {
            if s.contains(x) {
                let k = choose|k: int| 0 <= k < s.len() && s[k] == x;
                if k < s.len() - 1 {
                    assert(s.drop_last()[k] == x);
                }
            }
            if x == s.last() {
                assert(s[s.len() - 1] == x);
            }
            if s.drop_last().contains(x) {
                let k = choose|k: int| 0 <= k < s.len() - 1 && s.drop_last()[k] == x;
                assert(s[k] == x);
            }
        }
        if !d.contains(s.last()) {
            let e = d.push(s.last());
            assert forall|x: Seq<char>| e.contains(x) <==> (d.contains(x) || x == s.last()) by {
                if e.contains(x) {
                    let k = choose|k: int| 0 <= k < e.len() && e[k] == x;
                    if k < d.len() {
                        assert(d[k] == x);
                    }
                }
                if d.contains(x) {
                    let k = choose|k: int| 0 <= k < d.len() && d[k] == x;
                    assert(e[k] == x);
                }
                if x == s.last() {
                    assert(e[d.len() as int] == x);
                }
            }
        }
    }
}

proof fn lemma_roots(entries: Seq<Seq<char>>)
    ensures
        forall|r: Seq<char>|
            roots_spec(entries).contains(r) <==> exists|i: int|
                0 <= i < entries.len() && venv_root_spec(#[trigger] entries[i]) == Some(r),
    decreases entries.len(),
{
    if entries.len() > 0 {
        let prev = entries.drop_last();
        lemma_roots(prev);
        let rest = roots_spec(prev);
        let n = entries.len() - 1;
        assert forall|r: Seq<char>|
            roots_spec(entries).contains(r) <==> exists|i: int|
                0 <= i < entries.len() && venv_root_spec(#[trigger] entries[i]) == Some(r) by {
            if roots_spec(entries).contains(r) {
                let k = choose|k: int|
                    0 <= k < roots_spec(entries).len() && roots_spec(entries)[k] == r;
                if k < rest.len() {
                    assert(rest[k] == r);
                    let i = choose|i: int|
                        0 <= i < prev.len() && venv_root_spec(#[trigger] prev[i]) == Some(r);
                    assert(entries[i] == prev[i]);
                } else {
                    assert(venv_root_spec(entries[n]) == Some(r));
                }
            }
            if exists|i: int| 0 <= i < entries.len() && venv_root_spec(#[trigger] entries[i]) == Some(r) {
                let i = choose|i: int|
                    0 <= i < entries.len() && venv_root_spec(#[trigger] entries[i]) == Some(r);
                if i < n {
                    assert(prev[i] == entries[i]);
                    assert(rest.contains(r));
                    let k = choose|k: int| 0 <= k < rest.len() && rest[k] == r;
                    assert(roots_spec(entries)[k] == r);
                } else {
                    assert(roots_spec(entries) == rest.push(r));
                    assert(roots_spec(entries)[rest.len() as int] == r);
                }
            }
        }
    }
}

/// However the search roots overlap, each environment that some walked
/// entry marks is located exactly once, and nothing else is located.
pub proof fn lemma_each_environment_once(entries: Seq<Seq<char>>)
    ensures
        located_spec(entries).no_duplicates(),
        forall|r: Seq<char>|
            located_spec(entries).contains(r) <==> exists|i: int|
                0 <= i < entries.len() && venv_root_spec(#[trigger] entries[i]) == Some(r),
{
    lemma_dedup(roots_spec(entries));
    lemma_roots(entries);
    assert forall|r: Seq<char>|
        located_spec(entries).contains(r) <==> exists|i: int|
            0 <= i < entries.len() && venv_root_spec(#[trigger] entries[i]) == Some(r) by {
        assert(located_spec(entries).contains(r) <==> roots_spec(entries).contains(r));
    }
}

/// The directories searched for environments, for the home directory `home`.
pub fn search_paths(home: &str) -> (r: Vec<String>)
    ensures
        views(r@) == search_templates(home@),
{
    let mut v: Vec<String> = Vec::new();
    v.push(join(home, ".local/pipx/venvs"));
    v.push(join(home, ".virtualenvs"));
    v.push(join(home, ".local/share/virtualenvs"));
    v.push(String::from_str("/usr/local/share/virtualenvs"));
    v.push(String::from_str("/usr/share/virtualenvs"));
    v.push(String::from_str("/opt/virtualenvs"));
    v.push(join(home, ".config/virtualenvs"));
    v.push(join(home, ".cache/pypoetry/virtualenvs"));
    v.push(join(home, ".conda/envs"));
    v.push(join(home, ".miniconda/envs"));
    v.push(join(home, ".miniforge/envs"));
    v.push(join(home, "anaconda3/envs"));
    v.push(join(home, "miniconda3/envs"));
    v.push(join(home, "miniforge3/envs"));
    v.push(join(home, "mambaforge/envs"));
    v.push(join(home, "mambaforge3/envs"));
    v.push(join(home, ".pyenv/versions/envs"));
    v.push(join(home, ".asdf/installs/python"));
    v.push(join(home, ".asdf/installs/python/versions"));
    v.push(join(home, "Library/Enthought/Canopy/edm/envs"));
    v.push(join(home, ".PyCharmXXXX.X/config/virtualenvs"));
    v.push(String::from_str("/opt/anaconda3/envs"));
    v.push(String::from_str("/opt/miniconda3/envs"));
    assert(views(v@) =~= search_templates(home@));
    v
}

/// `base` joined with `rel`, as `Path::join` does on Unix.
pub fn join(base: &str, rel: &str) -> (r: String)
    ensures
        r@ == join_spec(base@, rel@),
{
    let n = base.unicode_len();
    let m = rel.unicode_len();
    if m > 0 && rel.get_char(0) == '/' {
        return String::from_str(rel);
    }
    let mut out = String::from_str(base);
    if !(n == 0 || base.get_char(n - 1) == '/') {
        proof {
            reveal_strlit("/");
        }
        out.append("/");
    }
    out.append(rel);
    out
}

/// Whether `s` ends with `suf`.
pub fn ends_with(s: &str, suf: &str) -> (r: bool)
    ensures
        r == has_suffix(s@, suf@),
{
    let n = s.unicode_len();
    let m = suf.unicode_len();
    if m > n {
        return false;
    }
    let tail = s.substring_char(n - m, n);
    assert(tail@ =~= s@.skip(n - m));
    let r = crate::text::starts_with(tail, suf);
    assert(r ==> tail@.take(m as int) =~= tail@);
    assert(tail@ == suf@ ==> tail@.take(m as int) =~= suf@);
    r
}

/// The environment root that a walked entry marks, if any.
pub fn venv_root_of(entry: &str) -> (r: Option<String>)
    ensures
        r matches Some(x) ==> venv_root_spec(entry@) == Some(x@),
        r is None ==> venv_root_spec(entry@) is None,
{
    let suf = "/bin/python";
    if !ends_with(entry, suf) {
        return None;
    }
    let keep = entry.unicode_len() - suf.unicode_len();
    if keep == 0 {
        return Some(String::from_str("/"));
    }
    let root = entry.substring_char(0, keep);
    Some(String::from_str(root))
}

/// The final component of `path`, if it is a name.
pub fn file_name(path: &str) -> (r: Option<String>)
    ensures
        r matches Some(x) ==> file_name_spec(path@) == Some(x@),
        r is None ==> file_name_spec(path@) is None,
{
    let n = path.unicode_len();
    let mut j = n;
    while j > 0 && path.get_char(j - 1) != '/'
        invariant
            j <= n == path@.len(),
            last_slash(path@, n as int) == last_slash(path@, j as int),
        decreases j,
    {
        j = j - 1;
    }
    let name = path.substring_char(j, n);
    assert(name@ =~= path@.skip(last_slash(path@, n as int) + 1));
    let s = String::from_str(name);
    if name.unicode_len() == 0 || s == String::from_str(".") || s == String::from_str("..") {
        return None;
    }
    Some(s)
}

/// Whether `v` holds a path equal to `p`.
fn contains_path(v: &Vec<String>, p: &String) -> (r: bool)
    ensures
        r == views(v@).contains(p@),
{
    let mut i: usize = 0;
    while i < v.len()
        invariant
            i <= v@.len(),
            forall|k: int| 0 <= k < i ==> v@[k]@ != p@,
        decreases v@.len() - i,
    {
        if v[i] == *p {
            assert(views(v@)[i as int] == p@);
            return true;
        }
        i = i + 1;
    }
    assert forall|k: int| 0 <= k < views(v@).len() implies views(v@)[k] != p@ by {
        assert(v@[k]@ != p@);
    }
    false
}

/// The paths with every repeat left out: each path once, in the order it
/// first came.
pub fn dedup_paths(paths: &Vec<String>) -> (r: Vec<String>)
    ensures
        views(r@) == dedup_spec(views(paths@)),
{
    let mut out: Vec<String> = Vec::new();
    let mut i: usize = 0;
    while i < paths.len()
        invariant
            i <= paths@.len(),
            views(out@) == dedup_spec(views(paths@.take(i as int))),
        decreases paths@.len() - i,
    {
        let ghost before = views(paths@.take(i as int));
        assert(views(paths@.take(i + 1)).drop_last() =~= before);
        assert(views(paths@.take(i + 1)).last() == paths@[i as int]@);
        if !contains_path(&out, &paths[i]) {
            out.push(paths[i].clone());
            assert(views(out@) =~= dedup_spec(before).push(paths@[i as int]@));
        }
        i = i + 1;
    }
    assert(paths@.take(paths@.len() as int) =~= paths@);
    out
}

/// The environment roots that walked entries mark, each once, in the
/// order first found.
pub fn get_venv_paths(entries: &Vec<String>) -> (r: Vec<String>)
    ensures
        views(r@) == located_spec(views(entries@)),
{
    let mut roots: Vec<String> = Vec::new();
    let mut i: usize = 0;
    while i < entries.len()
        invariant
            i <= entries@.len(),
            views(roots@) == roots_spec(views(entries@.take(i as int))),
        decreases entries@.len() - i,
    {
        let ghost before = views(entries@.take(i as int));
        assert(views(entries@.take(i + 1)).drop_last() =~= before);
        assert(views(entries@.take(i + 1)).last() == entries@[i as int]@);
        match venv_root_of(entries[i].as_str()) {
            Some(r) => {
                roots.push(r);
                assert(views(roots@) =~= roots_spec(before).push(r@));
            },
            None => {},
        }
        i = i + 1;
    }
    assert(entries@.take(entries@.len() as int) =~= entries@);
    dedup_paths(&roots)
}

} // verus!
