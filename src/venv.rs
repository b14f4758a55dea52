//! Environment records: building them from what was read of each
//! candidate, ordering them by size, totalling them, and dropping those
//! that were deleted.

use vstd::prelude::*;
use vstd::string::*;
use crate::paths::{file_name, file_name_spec, join, join_spec};
use crate::version::opt_view;

verus! {

broadcast use vstd::seq_lib::group_to_multiset_ensures;

/// A discovered virtual environment.
#[derive(Debug)]
pub struct VirtualEnv {
    /// Where the environment was found.
    pub path: String,
    /// The final component of `path`.
    pub name: String,
    /// `path/bin/python`.
    pub python_path: String,
    /// The interpreter version, or `Unknown`.
    pub python_version: String,
    /// Total bytes under `path`, symlinks excluded.
    pub venv_size: u64,
    /// `venv_size` rendered for people.
    pub venv_size_str: String,
}

/// Two records are the same when all their fields are.
pub open spec fn same_env(a: VirtualEnv, b: VirtualEnv) -> bool {
    &&& a.path@ == b.path@
    &&& a.name@ == b.name@
    &&& a.python_path@ == b.python_path@
    &&& a.python_version@ == b.python_version@
    &&& a.venv_size == b.venv_size
    &&& a.venv_size_str@ == b.venv_size_str@
}

impl PartialEq for VirtualEnv {
    fn eq(&self, o: &VirtualEnv) -> bool {
        self.path == o.path && self.name == o.name && self.python_path == o.python_path
            && self.python_version == o.python_version && self.venv_size == o.venv_size
            && self.venv_size_str == o.venv_size_str
    }
}

impl vstd::std_specs::cmp::PartialEqSpecImpl for VirtualEnv {
    open spec fn obeys_eq_spec() -> bool {
        true
    }

    open spec fn eq_spec(&self, o: &VirtualEnv) -> bool {
        same_env(*self, *o)
    }
}

impl VirtualEnv {
    /// A field-by-field copy.
    pub fn copy(&self) -> (r: VirtualEnv)
        ensures
            r == *self,
    {
        VirtualEnv {
            path: self.path.clone(),
            name: self.name.clone(),
            python_path: self.python_path.clone(),
            python_version: self.python_version.clone(),
            venv_size: self.venv_size,
            venv_size_str: self.venv_size_str.clone(),
        }
    }

    /// One line for an operator: `name - path (size) [version]`.
    pub fn describe(&self) -> (r: String)
        ensures
            r@ == self.name@ + " - "@ + self.path@ + " ("@ + self.venv_size_str@ + ") ["@
                + self.python_version@ + "]"@,
    {
        let mut s = self.name.clone();
        s.append(" - ");
        s.append(self.path.as_str());
        s.append(" (");
        s.append(self.venv_size_str.as_str());
        s.append(") [");
        s.append(self.python_version.as_str());
        s.append("]");
        s
    }
}

/// What was read of one candidate environment root.
pub struct Candidate {
    /// The candidate root, as found.
    pub path: String,
    /// Whether `path/bin/python` exists.
    pub python_exists: bool,
    /// The version that the strategies found, if any.
    pub version: Option<String>,
    /// Total bytes under `path`, symlinks excluded.
    pub venv_size: u64,
    /// `venv_size` rendered for people.
    pub venv_size_str: String,
}

/// Why a candidate gives no record.
pub enum BuildError {
    /// The interpreter at `python_path` does not exist.
    MissingInterpreter { python_path: String },
    /// The candidate's final path component is not a name.
    InvalidName,
}

pub open spec fn python_path_spec(path: Seq<char>) -> Seq<char> {
    join_spec(join_spec(path, "bin"@), "python"@)
}

/// Whether a candidate gives a record.
pub open spec fn buildable(c: Candidate) -> bool {
    c.python_exists && file_name_spec(c.path@) is Some
}

/// `v` is the record that candidate `c` gives.
pub open spec fn is_built_from(v: VirtualEnv, c: Candidate) -> bool {
    &&& v.path@ == c.path@
    &&& file_name_spec(c.path@) == Some(v.name@)
    &&& v.python_path@ == python_path_spec(c.path@)
    &&& v.python_version@ == match opt_view(c.version) {
        Some(x) => x,
        None => "Unknown"@,
    }
    &&& v.venv_size == c.venv_size
    &&& v.venv_size_str@ == c.venv_size_str@
}

/// `r` holds, in order, the records of the candidates in `c` that give one.
pub open spec fn builds_from(r: Seq<VirtualEnv>, c: Seq<Candidate>) -> bool
    decreases c.len(),
{
    if c.len() == 0 {
        r.len() == 0
    } else if buildable(c.last()) {
        r.len() > 0 && is_built_from(r.last(), c.last()) && builds_from(r.drop_last(), c.drop_last())
    } else {
        builds_from(r, c.drop_last())
    }
}

/// Sizes never increase along `s`.
pub open spec fn by_size_desc(s: Seq<VirtualEnv>) -> bool {
    forall|i: int, j: int| 0 <= i < j < s.len() ==> s[i].venv_size >= s[j].venv_size
}

pub open spec fn sum_sizes(s: Seq<VirtualEnv>) -> nat
    decreases s.len(),
{
    if s.len() == 0 {
        0
    } else {
        sum_sizes(s.drop_last()) + s.last().venv_size as nat
    }
}

/// Whether `s` holds a record the same as `v`.
pub open spec fn holds_env(s: Seq<VirtualEnv>, v: VirtualEnv) -> bool {
    exists|i: int| 0 <= i < s.len() && same_env(s[i], v)
}

/// The records of `s` that `removed` does not hold, in order.
pub open spec fn kept_spec(s: Seq<VirtualEnv>, removed: Seq<VirtualEnv>) -> Seq<VirtualEnv>
    decreases s.len(),
{
    if s.len() == 0 {
        s
    } else {
        let k = kept_spec(s.drop_last(), removed);
        if holds_env(removed, s.last()) {
            k
        } else {
            k.push(s.last())
        }
    }
}

/// The record for a candidate, or why there is none: the interpreter must
/// exist, and the final path component must be a name.
pub fn build_virtualenv(c: &Candidate) -> (r: Result<VirtualEnv, BuildError>)
    ensures
        !c.python_exists <==> r is Err && r->Err_0 is MissingInterpreter,
        r matches Err(BuildError::MissingInterpreter { python_path }) ==> python_path@
            == python_path_spec(c.path@),
        (c.python_exists && file_name_spec(c.path@) is None) <==> r matches Err(
            BuildError::InvalidName,
        ),
        r matches Ok(v) ==> is_built_from(v, *c),
{
    let bin_dir = join(c.path.as_str(), "bin");
    let python_path = join(bin_dir.as_str(), "python");
    if !c.python_exists {
        return Err(BuildError::MissingInterpreter { python_path });
    }
    let python_version = match &c.version {
        Some(v) => v.clone(),
        None => String::from_str("Unknown"),
    };
    let name = match file_name(c.path.as_str()) {
        Some(n) => n,
        None => {
            return Err(BuildError::InvalidName);
        },
    };
    Ok(
        VirtualEnv {
            path: c.path.clone(),
            name,
            python_path,
            python_version,
            venv_size: c.venv_size,
            venv_size_str: c.venv_size_str.clone(),
        },
    )
}

/// The records of the candidates that give one, in order; the others are
/// left out.
pub fn build_virtualenvs(cands: &Vec<Candidate>) -> (r: Vec<VirtualEnv>)
    ensures
        builds_from(r@, cands@),
{
    let mut out: Vec<VirtualEnv> = Vec::new();
    let mut i: usize = 0;
    while i < cands.len()
        invariant
            i <= cands@.len(),
            builds_from(out@, cands@.take(i as int)),
        decreases cands@.len() - i,
    {
        let ghost before = out@;
        assert(cands@.take(i + 1).drop_last() =~= cands@.take(i as int));
        assert(cands@.take(i + 1).last() == cands@[i as int]);
        match build_virtualenv(&cands[i]) {
            Ok(v) => {
                out.push(v);
                assert(out@.drop_last() =~= before);
            },
            Err(_) => {},
        }
        i = i + 1;
    }
    assert(cands@.take(cands@.len() as int) =~= cands@);
    out
}

/// `v` comes from a candidate of `c` whose interpreter exists, and names
/// that interpreter.
pub open spec fn has_interpreter_in(v: VirtualEnv, c: Seq<Candidate>) -> bool {
    exists|j: int|
        0 <= j < c.len() && (#[trigger] c[j]).python_exists && c[j].path@ == v.path@
            && v.python_path@ == python_path_spec(c[j].path@)
}

/// No record is built for a candidate that lacks its interpreter: each
/// record comes from a candidate whose `bin/python` exists, and names it.
pub proof fn lemma_only_with_interpreter(r: Seq<VirtualEnv>, c: Seq<Candidate>)
    requires
        builds_from(r, c),
    ensures
        forall|i: int| 0 <= i < r.len() ==> has_interpreter_in(#[trigger] r[i], c),
    decreases c.len(),
{
    if c.len() > 0 {
        let n = c.len() - 1;
        let d = c.drop_last();
        if buildable(c.last()) {
            lemma_only_with_interpreter(r.drop_last(), d);
            assert forall|i: int| 0 <= i < r.len() implies has_interpreter_in(#[trigger] r[i], c) by {
                if i < r.len() - 1 {
                    assert(r[i] == r.drop_last()[i]);
                    assert(has_interpreter_in(r.drop_last()[i], d));
                    let j = choose|j: int|
                        0 <= j < d.len() && (#[trigger] d[j]).python_exists && d[j].path@
                            == r[i].path@ && r[i].python_path@ == python_path_spec(d[j].path@);
                    assert(c[j] == d[j]);
                } else {
                    assert(c[n] == c.last());
                }
            }
        } else {
            lemma_only_with_interpreter(r, d);
            assert forall|i: int| 0 <= i < r.len() implies has_interpreter_in(#[trigger] r[i], c) by {
                assert(has_interpreter_in(r[i], d));
                let j = choose|j: int|
                    0 <= j < d.len() && (#[trigger] d[j]).python_exists && d[j].path@ == r[i].path@
                        && r[i].python_path@ == python_path_spec(d[j].path@);
                assert(c[j] == d[j]);
            }
        }
    }
}

/// The records reordered so that sizes never increase.
pub fn sort_by_size(v: Vec<VirtualEnv>) -> (r: Vec<VirtualEnv>)
    ensures
        by_size_desc(r@),
        r@.to_multiset() == v@.to_multiset(),
{
    let ghost orig = v@;
    let mut rest = v;
    let mut out: Vec<VirtualEnv> = Vec::new();
    while rest.len() > 0
        invariant
            by_size_desc(out@),
            out@.to_multiset().add(rest@.to_multiset()) == orig.to_multiset(),
        decreases rest@.len(),
    {
        let ghost before = rest@;
        let x = rest.pop().unwrap();
        assert(before =~= rest@.push(x));
        let mut j: usize = 0;
        while j < out.len() && out[j].venv_size >= x.venv_size
            invariant
                j <= out@.len(),
                forall|k: int| 0 <= k < j ==> out@[k].venv_size >= x.venv_size,
            decreases out@.len() - j,
        {
            j = j + 1;
        }
        let ghost prev = out@;
        let ghost gx = x;
        out.insert(j, x);
        proof {
            assert(out@ == prev.insert(j as int, gx));
            vstd::seq_lib::to_multiset_insert(prev, j as int, gx);
            assert forall|a: int, b: int| 0 <= a < b < out@.len() implies out@[a].venv_size
                >= out@[b].venv_size by {
                if b < j {
                    assert(out@[a] == prev[a] && out@[b] == prev[b]);
                } else if b == j {
                    assert(out@[a] == prev[a]);
                } else if a < j {
                    assert(out@[a] == prev[a] && out@[b] == prev[b - 1]);
                } else if a == j {
                    assert(out@[b] == prev[b - 1]);
                    assert(prev[j as int].venv_size < gx.venv_size);
                } else {
                    assert(out@[a] == prev[a - 1] && out@[b] == prev[b - 1]);
                }
            }
        }
    }
    out
}

/// The sum of the records' sizes, or `None` where it does not fit a `u64`.
pub fn total_size(venvs: &Vec<VirtualEnv>) -> (r: Option<u64>)
    ensures
        r matches Some(t) ==> t == sum_sizes(venvs@),
        r is None <==> sum_sizes(venvs@) > u64::MAX,
{
    let mut total: u64 = 0;
    let mut i: usize = 0;
    while i < venvs.len()
        invariant
            i <= venvs@.len(),
            total == sum_sizes(venvs@.take(i as int)),
        decreases venvs@.len() - i,
    {
        assert(venvs@.take(i + 1).drop_last() =~= venvs@.take(i as int));
        match total.checked_add(venvs[i].venv_size) {
            Some(t) => {
                total = t;
            },
            None => {
                proof {
                    lemma_sum_sizes_prefix(venvs@, i + 1);
                }
                return None;
            },
        }
        i = i + 1;
    }
    assert(venvs@.take(venvs@.len() as int) =~= venvs@);
    Some(total)
}

proof fn lemma_sum_sizes_prefix(s: Seq<VirtualEnv>, i: int)
    requires
        0 <= i <= s.len(),
    ensures
        sum_sizes(s.take(i)) <= sum_sizes(s),
    decreases s.len() - i,
{
    if i < s.len() {
        lemma_sum_sizes_prefix(s, i + 1);
        assert(s.take(i + 1).drop_last() =~= s.take(i));
    } else {
        assert(s.take(i) =~= s);
    }
}

/// Whether `s` holds a record equal to `v`.
fn holds(s: &Vec<VirtualEnv>, v: &VirtualEnv) -> (r: bool)
    ensures
        r == holds_env(s@, *v),
{
    let mut i: usize = 0;
    while i < s.len()
        invariant
            i <= s@.len(),
            forall|k: int| 0 <= k < i ==> !same_env(s@[k], *v),
        decreases s@.len() - i,
    {
        if s[i] == *v {
            return true;
        }
        i = i + 1;
    }
    false
}

/// After deletion exactly the records that were not removed are left: a
/// record stays if and only if it was there and `removed` holds none equal
/// to it.
pub proof fn lemma_remaining_is_difference(s: Seq<VirtualEnv>, removed: Seq<VirtualEnv>)
    ensures
        forall|v: VirtualEnv|
            kept_spec(s, removed).contains(v) <==> (s.contains(v) && !holds_env(removed, v)),
    decreases s.len(),
{
    if s.len() > 0 {
        let d = s.drop_last();
        let x = s.last();
        lemma_remaining_is_difference(d, removed);
        let k = kept_spec(d, removed);
        assert forall|v: VirtualEnv|
            kept_spec(s, removed).contains(v) <==> (s.contains(v) && !holds_env(removed, v)) by {
            assert(s =~= d.push(x));
            assert(s.contains(v) <==> (d.contains(v) || v == x)) by {
                if s.contains(v) {
                    let i = choose|i: int| 0 <= i < s.len() && s[i] == v;
                    if i < d.len() {
                        assert(d[i] == v);
                    }
                }
                if d.contains(v) {
                    let i = choose|i: int| 0 <= i < d.len() && d[i] == v;
                    assert(s[i] == v);
                }
                if v == x {
                    assert(s[s.len() - 1] == v);
                }
            }
            if !holds_env(removed, x) {
                let e = k.push(x);
                assert(e.contains(v) <==> (k.contains(v) || v == x)) by {
                    if e.contains(v) {
                        let i = choose|i: int| 0 <= i < e.len() && e[i] == v;
                        if i < k.len() {
                            assert(k[i] == v);
                        }
                    }
                    if k.contains(v) {
                        let i = choose|i: int| 0 <= i < k.len() && k[i] == v;
                        assert(e[i] == v);
                    }
                    if v == x {
                        assert(e[k.len() as int] == v);
                    }
                }
            }
        }
    }
}

/// The records that were not removed, in their order: what is left after
/// the environments in `removed` were deleted.
pub fn remaining_after(venvs: &Vec<VirtualEnv>, removed: &Vec<VirtualEnv>) -> (r: Vec<
    VirtualEnv,
>)
    ensures
        r@ == kept_spec(venvs@, removed@),
{
    let mut out: Vec<VirtualEnv> = Vec::new();
    let mut i: usize = 0;
    while i < venvs.len()
        invariant
            i <= venvs@.len(),
            out@ == kept_spec(venvs@.take(i as int), removed@),
        decreases venvs@.len() - i,
    {
        assert(venvs@.take(i + 1).drop_last() =~= venvs@.take(i as int));
        assert(venvs@.take(i + 1).last() == venvs@[i as int]);
        if !holds(removed, &venvs[i]) {
            out.push(venvs[i].copy());
        }
        i = i + 1;
    }
    assert(venvs@.take(venvs@.len() as int) =~= venvs@);
    out
}

/// The scan's result from what was read of each candidate: the records of
/// those that give one, ordered so that sizes never increase.
pub fn get_venvs(cands: &Vec<Candidate>) -> (r: Vec<VirtualEnv>)
    ensures
        by_size_desc(r@),
        exists|b: Seq<VirtualEnv>| builds_from(b, cands@) && r@.to_multiset() == b.to_multiset(),
{
    let built = build_virtualenvs(cands);
    sort_by_size(built)
}

} // verus!
