//! Selectable targets and the log file that each one writes: a project's log
//! lies under `<project dir>/Saved/Logs/<stem>.log`, a build's under
//! `<exe dir>/<stem>/Saved/Logs/<stem>.log`.
use vstd::prelude::*;

use crate::text::{all_ws, chars_of, concat_str, is_blank, lower, lower_all, opt_view, string_of};

verus! {

/// A project target: an editor session on a `.uproject` file.
#[derive(Clone, Debug)]
pub struct Project {
    pub key: String,
    pub name: String,
    pub uproject: String,
    /// Whether it was found among running editors rather than configured.
    pub discovered: bool,
}

/// A build target: a packaged game executable.
#[derive(Clone, Debug)]
pub struct Build {
    pub key: String,
    pub name: String,
    pub exe: String,
}

#[derive(Clone, Copy, Debug, PartialEq, Eq, Structural)]
pub enum TargetError {
    /// The descriptor's path has no parent directory.
    InvalidPath,
    /// The descriptor's path has no file stem.
    InvalidFileName,
}

/// The parent directory that `std::path::Path::parent` gives for `p`.
pub uninterp spec fn path_parent(p: Seq<char>) -> Option<Seq<char>>;

/// The file stem that `std::path::Path::file_stem` gives for `p`.
pub uninterp spec fn path_stem(p: Seq<char>) -> Option<Seq<char>>;

/// The path that `std::path::Path::join` gives for `base` and `rest`.
pub uninterp spec fn path_join(base: Seq<char>, rest: Seq<char>) -> Seq<char>;

/// Relies on `Path::parent`: the path without its final component, if it
/// has one.
#[verifier::external_body]
fn parent_of(p: &str) -> (r: Option<String>)
    ensures
        opt_view(r) == path_parent(p@),
{
    match std::path::Path::new(p).parent() {
        Some(d) => Some(d.to_string_lossy().into_owned()),
        None => None,
    }
}

/// Relies on `Path::file_stem`: the final component without its extension.
#[verifier::external_body]
fn file_stem_of(p: &str) -> (r: Option<String>)
    ensures
        opt_view(r) == path_stem(p@),
{
    match std::path::Path::new(p).file_stem() {
        Some(s) => Some(s.to_string_lossy().into_owned()),
        None => None,
    }
}

/// Relies on `Path::join`: `rest` appended to `base` as a further component.
#[verifier::external_body]
fn join_path(base: &str, rest: &str) -> (r: String)
    ensures
        r@ == path_join(base@, rest@),
{
    std::path::Path::new(base).join(rest).to_string_lossy().into_owned()
}

/// `<dir>/Saved/Logs/<stem>.log`.
pub open spec fn log_under(dir: Seq<char>, stem: Seq<char>) -> Seq<char> {
    path_join(path_join(path_join(dir, "Saved"@), "Logs"@), stem + ".log"@)
}

/// The log file of a project, from its `.uproject` path.
pub open spec fn project_log_path(uproject: Seq<char>) -> Result<Seq<char>, TargetError> {
    match (path_parent(uproject), path_stem(uproject)) {
        (None, _) => Err(TargetError::InvalidPath),
        (Some(_), None) => Err(TargetError::InvalidFileName),
        (Some(dir), Some(stem)) => Ok(log_under(dir, stem)),
    }
}

/// The log file of a build, from its executable's path: the game writes
/// into a folder named like the executable, next to it.
pub open spec fn build_log_path(exe: Seq<char>) -> Result<Seq<char>, TargetError> {
    match (path_parent(exe), path_stem(exe)) {
        (None, _) => Err(TargetError::InvalidPath),
        (Some(_), None) => Err(TargetError::InvalidFileName),
        (Some(dir), Some(stem)) => Ok(log_under(path_join(dir, stem), stem)),
    }
}

pub open spec fn result_view(r: Result<String, TargetError>) -> Result<Seq<char>, TargetError> {
    match r {
        Ok(s) => Ok(s@),
        Err(e) => Err(e),
    }
}

fn log_path_in(dir: &str, stem: &str) -> (r: String)
    ensures
        r@ == log_under(dir@, stem@),
{
    let saved = join_path(dir, "Saved");
    let logs = join_path(saved.as_str(), "Logs");
    let file = concat_str(stem, ".log");
    join_path(logs.as_str(), file.as_str())
}

/// The log file of a project, from its `.uproject` path.
pub fn log_path_from_uproject(uproject: &str) -> (r: Result<String, TargetError>)
    ensures
        result_view(r) == project_log_path(uproject@),
{
    let dir = match parent_of(uproject) {
        Some(d) => d,
        None => {
            return Err(TargetError::InvalidPath);
        },
    };
    let stem = match file_stem_of(uproject) {
        Some(s) => s,
        None => {
            return Err(TargetError::InvalidFileName);
        },
    };
    Ok(log_path_in(dir.as_str(), stem.as_str()))
}

/// The log file of a build, from its executable's path.
pub fn log_path_from_exe(exe: &str) -> (r: Result<String, TargetError>)
    ensures
        result_view(r) == build_log_path(exe@),
{
    let dir = match parent_of(exe) {
        Some(d) => d,
        None => {
            return Err(TargetError::InvalidPath);
        },
    };
    let stem = match file_stem_of(exe) {
        Some(s) => s,
        None => {
            return Err(TargetError::InvalidFileName);
        },
    };
    let game_dir = join_path(dir.as_str(), stem.as_str());
    Ok(log_path_in(game_dir.as_str(), stem.as_str()))
}

impl TargetError {
    /// A message for the status line.
    pub fn message(&self) -> (r: String)
        ensures
            r@ == match self {
                TargetError::InvalidPath => "Invalid path: no parent directory"@,
                TargetError::InvalidFileName => "Invalid file name: no file stem"@,
            },
    {
        match self {
            TargetError::InvalidPath => "Invalid path: no parent directory".to_owned(),
            TargetError::InvalidFileName => "Invalid file name: no file stem".to_owned(),
        }
    }
}

/// The display name, or the key when the name is blank.
pub open spec fn name_or_key_of(name: Seq<char>, key: Seq<char>) -> Seq<char> {
    if all_ws(name) {
        key
    } else {
        name
    }
}

fn pick_name(name: &String, key: &String) -> (r: String)
    ensures
        r@ == name_or_key_of(name@, key@),
{
    if is_blank(&chars_of(name.as_str())) {
        key.clone()
    } else {
        name.clone()
    }
}

impl Project {
    /// The display name, or the key when the name is blank.
    pub fn name_or_key(&self) -> (r: String)
        ensures
            r@ == name_or_key_of(self.name@, self.key@),
    {
        pick_name(&self.name, &self.key)
    }
}

impl Build {
    /// The display name, or the key when the name is blank.
    pub fn name_or_key(&self) -> (r: String)
        ensures
            r@ == name_or_key_of(self.name@, self.key@),
    {
        pick_name(&self.name, &self.key)
    }
}

pub open spec fn is_alnum(c: char) -> bool {
    ('a' <= c && c <= 'z') || ('A' <= c && c <= 'Z') || ('0' <= c && c <= '9')
}

/// The slug built so far from `s`, and whether it ends in a dash just added.
pub open spec fn slug_scan(s: Seq<char>) -> (Seq<char>, bool)
    decreases s.len(),
{
    if s.len() == 0 {
        (seq![], false)
    } else {
        let (out, dash) = slug_scan(s.drop_last());
        let c = lower(s.last());
        if is_alnum(c) {
            (out.push(c), false)
        } else if !dash && out.len() > 0 {
            (out.push('-'), true)
        } else {
            (out, dash)
        }
    }
}

/// Lower-case ASCII letters and digits, each run of other characters made
/// one dash, no dash at either end; `project` when nothing is left.
pub open spec fn slug_of(s: Seq<char>) -> Seq<char> {
    let out = slug_scan(s).0;
    let t = if out.len() > 0 && out.last() == '-' {
        out.drop_last()
    } else {
        out
    };
    if t.len() == 0 {
        "project"@
    } else {
        t
    }
}

/// A key made from a display name.
pub fn slugify(s: &str) -> (r: String)
    ensures
        r@ == slug_of(s@),
{
    let cs = chars_of(s);
    let mut out: Vec<char> = Vec::new();
    let mut last_dash = false;
    let mut i: usize = 0;
    while i < cs.len()
        invariant
            i <= cs@.len(),
            (out@, last_dash) == slug_scan(cs@.take(i as int)),
        decreases cs@.len() - i,
    {
        assert(cs@.take(i + 1).drop_last() =~= cs@.take(i as int));
        let c = crate::text::to_lower(cs[i]);
        if ('a' <= c && c <= 'z') || ('A' <= c && c <= 'Z') || ('0' <= c && c <= '9') {
            out.push(c);
            last_dash = false;
        } else if !last_dash && out.len() > 0 {
            out.push('-');
            last_dash = true;
        }
        i = i + 1;
    }
    assert(cs@.take(cs@.len() as int) =~= cs@);
    if out.len() > 0 && out[out.len() - 1] == '-' {
        out.pop();
    }
    if out.len() == 0 {
        "project".to_owned()
    } else {
        string_of(out.as_slice(), 0, out.len())
    }
}

/// Whether `s` ends with `suffix`.
pub open spec fn ends_with(s: Seq<char>, suffix: Seq<char>) -> bool {
    s.len() >= suffix.len() && s.subrange(s.len() - suffix.len(), s.len() as int) == suffix
}

/// The names of editor executables, in lower case.
pub open spec fn is_editor_name(lower_name: Seq<char>) -> bool {
    crate::text::contains(lower_name, "unrealeditor.exe"@) || crate::text::contains(
        lower_name,
        "ue4editor.exe"@,
    ) || crate::text::contains(lower_name, "ue5editor.exe"@)
}

pub open spec fn is_uproject_arg(a: Seq<char>) -> bool {
    ends_with(crate::text::lower_seq(a), ".uproject"@)
}

/// The project file named in `args` from index `i` on: an argument ending in
/// `.uproject`, or the one right after a `-project` flag.
pub open spec fn uproject_arg_from(args: Seq<Seq<char>>, i: int) -> Option<Seq<char>>
    decreases args.len() - i,
{
    if i < 0 || i >= args.len() {
        None
    } else if is_uproject_arg(args[i]) {
        Some(args[i])
    } else if crate::text::lower_seq(args[i]) == "-project"@ && i + 1 < args.len()
        && is_uproject_arg(args[i + 1]) {
        Some(args[i + 1])
    } else {
        uproject_arg_from(args, i + 1)
    }
}

/// The project file that a running process has open, when the process is
/// an editor.
pub open spec fn editor_project(name: Seq<char>, args: Seq<Seq<char>>) -> Option<Seq<char>> {
    if is_editor_name(crate::text::lower_seq(name)) {
        uproject_arg_from(args, 0)
    } else {
        None
    }
}

fn ends_with_chars(s: &Vec<char>, suffix: &Vec<char>) -> (r: bool)
    ensures
        r == ends_with(s@, suffix@),
{
    if s.len() < suffix.len() {
        return false;
    }
    let r = crate::text::matches_at(s, suffix, s.len() - suffix.len());
    r
}

fn is_uproject(a: &String) -> (r: bool)
    ensures
        r == is_uproject_arg(a@),
{
    ends_with_chars(&lower_all(&chars_of(a.as_str())), &chars_of(".uproject"))
}

fn is_project_flag(a: &String) -> (r: bool)
    ensures
        r == (crate::text::lower_seq(a@) == "-project"@),
{
    let l = lower_all(&chars_of(a.as_str()));
    let flag = chars_of("-project");
    if l.len() != flag.len() {
        return false;
    }
    let r = crate::text::matches_at(&l, &flag, 0);
    assert(l@.subrange(0, l@.len() as int) =~= l@);
    r
}

/// The project file that a running process has open, from its executable
/// name and its arguments; none when it is not an editor or names none.
pub fn editor_project_arg(name: &str, args: &Vec<String>) -> (r: Option<String>)
    ensures
        opt_view(r) == editor_project(name@, args@.map_values(|a: String| a@)),
{
    let ghost av = args@.map_values(|a: String| a@);
    let lname = lower_all(&chars_of(name));
    if !(crate::text::find_in(&lname, &chars_of("unrealeditor.exe")).is_some()
        || crate::text::find_in(&lname, &chars_of("ue4editor.exe")).is_some()
        || crate::text::find_in(&lname, &chars_of("ue5editor.exe")).is_some()) {
        return None;
    }
    let mut i: usize = 0;
    while i < args.len()
        invariant
            i <= args@.len(),
            av == args@.map_values(|a: String| a@),
            is_editor_name(crate::text::lower_seq(name@)),
            uproject_arg_from(av, 0) == uproject_arg_from(av, i as int),
        decreases args@.len() - i,
    {
        assert(av[i as int] == args@[i as int]@);
        if is_uproject(&args[i]) {
            return Some(args[i].clone());
        }
        if is_project_flag(&args[i]) && i + 1 < args.len() {
            assert(av[i + 1] == args@[i + 1]@);
            if is_uproject(&args[i + 1]) {
                return Some(args[i + 1].clone());
            }
        }
        i = i + 1;
    }
    None
}

/// The project that an editor with `uproject` open stands for: named after
/// the file's stem, keyed by its slug.
pub fn discovered_project(uproject: String) -> (r: Project)
    ensures
        r.uproject@ == uproject@,
        r.discovered,
        r.name@ == match path_stem(uproject@) {
            Some(s) => s,
            None => "Project"@,
        },
        r.key@ == slug_of(r.name@),
{
    let name = match file_stem_of(uproject.as_str()) {
        Some(s) => s,
        None => "Project".to_owned(),
    };
    let key = slugify(name.as_str());
    Project { key, name, uproject, discovered: true }
}

/// The configured targets.
#[derive(Clone, Debug)]
pub struct Config {
    pub projects: Vec<Project>,
    pub builds: Vec<Build>,
}

/// A project as plain values: key, name, project file, discovered.
pub open spec fn project_view(p: Project) -> (Seq<char>, Seq<char>, Seq<char>, bool) {
    (p.key@, p.name@, p.uproject@, p.discovered)
}

pub open spec fn projects_view(ps: Seq<Project>) -> Seq<(Seq<char>, Seq<char>, Seq<char>, bool)> {
    ps.map_values(|p: Project| project_view(p))
}

/// A discovered project with a blank name takes its name from the file stem
/// and its key from that name's slug.
pub open spec fn named(p: (Seq<char>, Seq<char>, Seq<char>, bool)) -> (
    Seq<char>,
    Seq<char>,
    Seq<char>,
    bool,
) {
    if p.1.len() == 0 {
        match path_stem(p.2) {
            Some(stem) => (slug_of(stem), stem, p.2, p.3),
            None => p,
        }
    } else {
        p
    }
}

/// The projects after adding `found[i..]`, each unless its lower-cased path
/// is among `paths` or its lower-cased key among `keys`; every one added
/// joins both lists.
pub open spec fn merged_from(
    ps: Seq<(Seq<char>, Seq<char>, Seq<char>, bool)>,
    paths: Seq<Seq<char>>,
    keys: Seq<Seq<char>>,
    found: Seq<(Seq<char>, Seq<char>, Seq<char>, bool)>,
    found_paths: Seq<Seq<char>>,
    i: int,
) -> Seq<(Seq<char>, Seq<char>, Seq<char>, bool)>
    decreases found.len() - i,
{
    if i < 0 || i >= found.len() {
        ps
    } else {
        let p = named(found[i]);
        let path = crate::text::lower_seq(found_paths[i]);
        let key = crate::text::lower_seq(p.0);
        if paths.contains(path) || keys.contains(key) {
            merged_from(ps, paths, keys, found, found_paths, i + 1)
        } else {
            merged_from(ps.push(p), paths.push(path), keys.push(key), found, found_paths, i + 1)
        }
    }
}

pub open spec fn lowered(v: Seq<String>) -> Seq<Seq<char>> {
    v.map_values(|s: String| crate::text::lower_seq(s@))
}

pub open spec fn lowered_keys(ps: Seq<Project>) -> Seq<Seq<char>> {
    ps.map_values(|p: Project| crate::text::lower_seq(p.key@))
}

fn lowered_string(s: &String) -> (r: Vec<char>)
    ensures
        r@ == crate::text::lower_seq(s@),
{
    lower_all(&chars_of(s.as_str()))
}

fn contains_chars(list: &Vec<Vec<char>>, x: &Vec<char>) -> (r: bool)
    ensures
        r == list@.map_values(|v: Vec<char>| v@).contains(x@),
{
    let ghost lv = list@.map_values(|v: Vec<char>| v@);
    let mut i: usize = 0;
    while i < list.len()
        invariant
            i <= list@.len(),
            lv == list@.map_values(|v: Vec<char>| v@),
            forall|k: int| 0 <= k < i ==> lv[k] != x@,
        decreases list@.len() - i,
    {
        let same = list[i].len() == x.len() && crate::text::matches_at(&list[i], x, 0);
        assert(list@[i as int]@.subrange(0, list@[i as int]@.len() as int) =~= list@[i as int]@);
        if same {
            assert(lv[i as int] == x@);
            return true;
        }
        i = i + 1;
    }
    false
}

/// Adds running editors' projects to the configuration, skipping those
/// already there. `paths[i]` is the resolved path of the `i`-th configured
/// project and `found_paths[j]` that of `found[j]` (canonical where it could
/// be resolved); paths and keys match regardless of ASCII case.
pub fn merge_discovered(
    cfg: &mut Config,
    paths: &Vec<String>,
    found: Vec<Project>,
    found_paths: &Vec<String>,
)
    requires
        paths@.len() == old(cfg).projects@.len(),
        found_paths@.len() == found@.len(),
    ensures
        projects_view(final(cfg).projects@) == merged_from(
            projects_view(old(cfg).projects@),
            lowered(paths@),
            lowered_keys(old(cfg).projects@),
            projects_view(found@),
            found_paths@.map_values(|s: String| s@),
            0,
        ),
        final(cfg).builds@ == old(cfg).builds@,
{
    let ghost ps0 = projects_view(cfg.projects@);
    let ghost fv = projects_view(found@);
    let ghost fpv = found_paths@.map_values(|s: String| s@);
    let mut known_paths: Vec<Vec<char>> = Vec::new();
    let mut known_keys: Vec<Vec<char>> = Vec::new();
    let mut k: usize = 0;
    while k < cfg.projects.len()
        invariant
            k <= cfg.projects@.len(),
            paths@.len() == cfg.projects@.len(),
            known_paths@.map_values(|v: Vec<char>| v@) == lowered(paths@).take(k as int),
            known_keys@.map_values(|v: Vec<char>| v@) == lowered_keys(cfg.projects@).take(k as int),
        decreases cfg.projects@.len() - k,
    {
        let ghost kp = known_paths@;
        let ghost kk = known_keys@;
        let lp = lowered_string(&paths[k]);
        let lk = lowered_string(&cfg.projects[k].key);
        known_paths.push(lp);
        known_keys.push(lk);
        assert(known_paths@.map_values(|v: Vec<char>| v@) =~= kp.map_values(|v: Vec<char>| v@).push(lp@));
        assert(known_keys@.map_values(|v: Vec<char>| v@) =~= kk.map_values(|v: Vec<char>| v@).push(lk@));
        assert(known_paths@.map_values(|v: Vec<char>| v@) =~= lowered(paths@).take(k + 1));
        assert(known_keys@.map_values(|v: Vec<char>| v@) =~= lowered_keys(cfg.projects@).take(k + 1));
        k = k + 1;
    }
    assert(lowered(paths@).take(k as int) =~= lowered(paths@));
    assert(lowered_keys(cfg.projects@).take(k as int) =~= lowered_keys(cfg.projects@));
    let mut i: usize = 0;
    let mut found = found;
    let ghost target = merged_from(
        ps0,
        lowered(paths@),
        lowered_keys(cfg.projects@),
        fv,
        fpv,
        0,
    );
    while i < found_paths.len()
        invariant
            i <= found_paths@.len(),
            found@.len() == found_paths@.len(),
            fv == projects_view(found@),
            fpv == found_paths@.map_values(|s: String| s@),
            target == merged_from(
                projects_view(cfg.projects@),
                known_paths@.map_values(|v: Vec<char>| v@),
                known_keys@.map_values(|v: Vec<char>| v@),
                fv,
                fpv,
                i as int,
            ),
            cfg.builds@ == old(cfg).builds@,
        decreases found_paths@.len() - i,
    {
        let mut p = found[i].clone_project();
        if p.name.as_str().is_empty() {
            if let Some(stem) = file_stem_of(p.uproject.as_str()) {
                p.key = slugify(stem.as_str());
                p.name = stem;
            }
        }
        assert(fv[i as int] == project_view(found@[i as int]));
        assert(project_view(p) == named(fv[i as int]));
        let path = lowered_string(&found_paths[i]);
        let key = lowered_string(&p.key);
        assert(fpv[i as int] == found_paths@[i as int]@);
        if !contains_chars(&known_paths, &path) && !contains_chars(&known_keys, &key) {
            let ghost kp = known_paths@;
            let ghost kk = known_keys@;
            let ghost before = cfg.projects@;
            cfg.projects.push(p);
            known_paths.push(path);
            known_keys.push(key);
            assert(known_paths@.map_values(|v: Vec<char>| v@) =~= kp.map_values(|v: Vec<char>| v@).push(path@));
            assert(known_keys@.map_values(|v: Vec<char>| v@) =~= kk.map_values(|v: Vec<char>| v@).push(key@));
            assert(projects_view(cfg.projects@) =~= projects_view(before).push(project_view(p)));
        }
        i = i + 1;
    }
}

impl Project {
    /// A copy with the same key, name, file and flag.
    pub fn clone_project(&self) -> (r: Project)
        ensures
            project_view(r) == project_view(*self),
    {
        Project {
            key: self.key.clone(),
            name: self.name.clone(),
            uproject: self.uproject.clone(),
            discovered: self.discovered,
        }
    }
}

} // verus!
