//! Interpreter version of an environment, from an ordered chain of
//! strategies: the first that finds a version wins.

use vstd::prelude::*;
use vstd::string::*;
use crate::paths::views;
use crate::text::{
    first_word, first_word_spec, find, find_from, has_prefix, starts_with, strip_repeated,
    strip_repeated_spec, trim, trim_spec,
};

verus! {

/// What `bin/python --version` printed.
pub struct InterpreterOutput {
    pub stdout: String,
    pub stderr: String,
}

/// What an environment holds that tells its version, each part `None`
/// where it is absent.
pub struct VersionSources {
    /// The lines of `pyvenv.cfg`.
    pub cfg_lines: Option<Vec<String>>,
    /// The entry names in `lib`, in listing order.
    pub lib_names: Option<Vec<String>>,
    /// The lines of `conda-meta/history`.
    pub history_lines: Option<Vec<String>>,
    /// What the interpreter printed when asked for its version.
    pub interpreter_output: Option<InterpreterOutput>,
}

pub open spec fn opt_view(o: Option<String>) -> Option<Seq<char>> {
    match o {
        Some(s) => Some(s@),
        None => None,
    }
}

/// From the `i`-th line on: the value of the first `version = ` line,
/// trimmed.
pub open spec fn cfg_version_from(lines: Seq<Seq<char>>, i: int) -> Option<Seq<char>>
    decreases lines.len() - i,
{
    if i < 0 || i >= lines.len() {
        None
    } else if has_prefix(lines[i], "version = "@) {
        Some(trim_spec(lines[i].skip("version = "@.len() as int)))
    } else {
        cfg_version_from(lines, i + 1)
    }
}

/// The version that `pyvenv.cfg` states.
pub open spec fn cfg_version_spec(lines: Seq<Seq<char>>) -> Option<Seq<char>> {
    cfg_version_from(lines, 0)
}

/// From the `i`-th name on: the first that begins with `python`.
pub open spec fn python_name_from(names: Seq<Seq<char>>, i: int) -> Option<Seq<char>>
    decreases names.len() - i,
{
    if i < 0 || i >= names.len() {
        None
    } else if has_prefix(names[i], "python"@) {
        Some(names[i])
    } else {
        python_name_from(names, i + 1)
    }
}

/// The version that the first `python…` entry of `lib` is named after,
/// unless nothing follows the prefix.
pub open spec fn lib_version_spec(names: Seq<Seq<char>>) -> Option<Seq<char>> {
    match python_name_from(names, 0) {
        Some(n) => {
            let v = strip_repeated_spec(n, "python"@);
            if v.len() > 0 {
                Some(v)
            } else {
                None
            }
        },
        None => None,
    }
}

/// From the `i`-th line on: the first that holds `python-`.
pub open spec fn history_line_from(lines: Seq<Seq<char>>, i: int) -> Option<Seq<char>>
    decreases lines.len() - i,
{
    if i < 0 || i >= lines.len() {
        None
    } else if find_from(lines[i], "python-"@, 0) is Some {
        Some(lines[i])
    } else {
        history_line_from(lines, i + 1)
    }
}

/// The word after `python-` on the first history line that holds it, or
/// `Unknown` where no word follows.
pub open spec fn history_version_spec(lines: Seq<Seq<char>>) -> Option<Seq<char>> {
    match history_line_from(lines, 0) {
        Some(l) => match find_from(l, "python-"@, 0) {
            Some(k) => Some(
                match first_word_spec(l.skip(k + "python-"@.len())) {
                    Some(w) => w,
                    None => "Unknown"@,
                },
            ),
            None => None,
        },
        None => None,
    }
}

/// The version in the interpreter's answer: standard output, or standard
/// error where output is blank, trimmed, after a leading `Python `.
pub open spec fn output_version_spec(out: Seq<char>, err: Seq<char>) -> Option<Seq<char>> {
    let o = if trim_spec(out).len() > 0 {
        trim_spec(out)
    } else {
        trim_spec(err)
    };
    if has_prefix(o, "Python "@) {
        Some(o.skip("Python "@.len() as int))
    } else {
        None
    }
}

/// The result of the strategies in order: configuration file, `lib`
/// entry names, conda history, interpreter output.
pub open spec fn resolved_version(src: VersionSources) -> Option<Seq<char>> {
    let cfg = match src.cfg_lines {
        Some(l) => cfg_version_spec(views(l@)),
        None => None,
    };
    let lib = match src.lib_names {
        Some(n) => lib_version_spec(views(n@)),
        None => None,
    };
    let hist = match src.history_lines {
        Some(l) => history_version_spec(views(l@)),
        None => None,
    };
    let out = match src.interpreter_output {
        Some(o) => output_version_spec(o.stdout@, o.stderr@),
        None => None,
    };
    if cfg is Some {
        cfg
    } else if lib is Some {
        lib
    } else if hist is Some {
        hist
    } else {
        out
    }
}

/// A version that `pyvenv.cfg` states wins over whatever the later
/// strategies would find.
pub proof fn lemma_config_file_wins(src: VersionSources, lines: Vec<String>)
    requires
        src.cfg_lines == Some(lines),
        cfg_version_spec(views(lines@)) is Some,
    ensures
        resolved_version(src) == cfg_version_spec(views(lines@)),
{
}

/// The version that the lines of `pyvenv.cfg` state, if any.
pub fn cfg_version(lines: &Vec<String>) -> (r: Option<String>)
    ensures
        opt_view(r) == cfg_version_spec(views(lines@)),
{
    let pre = "version = ";
    let mut i: usize = 0;
    while i < lines.len()
        invariant
            i <= lines@.len(),
            pre@ == "version = "@,
            cfg_version_spec(views(lines@)) == cfg_version_from(views(lines@), i as int),
        decreases lines@.len() - i,
    {
        let line = lines[i].as_str();
        if starts_with(line, pre) {
            let rest = line.substring_char(pre.unicode_len(), line.unicode_len());
            assert(rest@ =~= line@.skip(pre@.len() as int));
            return Some(trim(rest));
        }
        i = i + 1;
    }
    None
}

/// The version that the entry names of `lib` tell, if any.
pub fn lib_version(names: &Vec<String>) -> (r: Option<String>)
    ensures
        opt_view(r) == lib_version_spec(views(names@)),
{
    let pre = "python";
    let mut i: usize = 0;
    while i < names.len()
        invariant
            i <= names@.len(),
            pre@ == "python"@,
            python_name_from(views(names@), 0) == python_name_from(views(names@), i as int),
        decreases names@.len() - i,
    {
        let name = names[i].as_str();
        if starts_with(name, pre) {
            let v = strip_repeated(name, pre);
            if v.unicode_len() > 0 {
                return Some(v);
            }
            return None;
        }
        i = i + 1;
    }
    None
}

/// The version that the lines of `conda-meta/history` tell, if any.
pub fn history_version(lines: &Vec<String>) -> (r: Option<String>)
    ensures
        opt_view(r) == history_version_spec(views(lines@)),
{
    let pat = "python-";
    let mut i: usize = 0;
    while i < lines.len()
        invariant
            i <= lines@.len(),
            pat@ == "python-"@,
            history_line_from(views(lines@), 0) == history_line_from(views(lines@), i as int),
        decreases lines@.len() - i,
    {
        let line = lines[i].as_str();
        match find(line, pat) {
            Some(k) => {
                let n = line.unicode_len();
                let m = pat.unicode_len();
                let rest = line.substring_char(k + m, n);
                assert(rest@ =~= line@.skip(k + pat@.len()));
                return match first_word(rest) {
                    Some(w) => Some(w),
                    None => Some(String::from_str("Unknown")),
                };
            },
            None => {},
        }
        i = i + 1;
    }
    None
}

/// The version in what the interpreter printed, if any.
pub fn output_version(out: &InterpreterOutput) -> (r: Option<String>)
    ensures
        opt_view(r) == output_version_spec(out.stdout@, out.stderr@),
{
    let t = trim(out.stdout.as_str());
    let o = if t.unicode_len() > 0 {
        t
    } else {
        trim(out.stderr.as_str())
    };
    let pre = "Python ";
    if starts_with(o.as_str(), pre) {
        let rest = o.as_str().substring_char(pre.unicode_len(), o.unicode_len());
        assert(rest@ =~= o@.skip(pre@.len() as int));
        Some(String::from_str(rest))
    } else {
        None
    }
}

/// The interpreter version of an environment: the first strategy that
/// finds one wins, `None` where none does.
pub fn get_python_version(src: &VersionSources) -> (r: Option<String>)
    ensures
        opt_view(r) == resolved_version(*src),
{
    if let Some(lines) = &src.cfg_lines {
        let v = cfg_version(lines);
        if v.is_some() {
            return v;
        }
    }
    if let Some(names) = &src.lib_names {
        let v = lib_version(names);
        if v.is_some() {
            return v;
        }
    }
    if let Some(lines) = &src.history_lines {
        let v = history_version(lines);
        if v.is_some() {
            return v;
        }
    }
    match &src.interpreter_output {
        Some(o) => output_version(o),
        None => None,
    }
}

} // verus!
