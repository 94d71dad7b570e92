//! Where the mihomo executable comes from: environment variable, `.env`
//! beside the program, settings, NixOS wrapper, or `PATH`.
use vstd::prelude::*;
use crate::settings::Settings;
use crate::strings::{
    chars_of, string_of, to_owned_string, push_str, lines_of, line_ranges, ranges_view,
    trim_ws, trim_char, trim_ws_range, trim_char_range, split_once_char, find_char,
    lemma_index_of_char, index_of_char, str_eq,
};

verus! {

/// Environment variable that names the mihomo executable.
pub const ENV_VAR_NAME: &'static str = "COCLASH_MIHOMO_EXE";
/// Key of the `.env` file that names the mihomo executable.
pub const ENV_FILE_KEY: &'static str = "MIHOMO_EXE";
/// NixOS setcap wrapper of mihomo.
pub const NIX_WRAPPER_PATH: &'static str = "/run/wrappers/bin/mihomo";

/// Where the executable that runs was found.
#[derive(Debug, Clone, PartialEq, Eq)]
pub enum BinarySource {
    EnvVar,
    EnvFile,
    Settings,
    NixWrapper,
    Path,
    /// A temporary file that is removed when the process exits.
    TempFile(String),
    /// A file in the cache directory.
    CacheFile(String),
}

pub open spec fn source_label(s: BinarySource) -> Seq<char> {
    match s {
        BinarySource::EnvVar => "环境变量"@,
        BinarySource::EnvFile => "同目录 .env"@,
        BinarySource::Settings => "settings.json"@,
        BinarySource::NixWrapper => "NixOS wrapper"@,
        BinarySource::Path => "PATH"@,
        BinarySource::TempFile(_) => "临时文件"@,
        BinarySource::CacheFile(_) => "磁盘文件"@,
    }
}

impl BinarySource {
    /// Short name of the source, shown in the log.
    pub fn label(&self) -> (r: &'static str)
        ensures
            r@ == source_label(*self),
    {
        match self {
            BinarySource::EnvVar => "环境变量",
            BinarySource::EnvFile => "同目录 .env",
            BinarySource::Settings => "settings.json",
            BinarySource::NixWrapper => "NixOS wrapper",
            BinarySource::Path => "PATH",
            BinarySource::TempFile(_) => "临时文件",
            BinarySource::CacheFile(_) => "磁盘文件",
        }
    }

    /// The label, followed by the file for the sources that are files.
    pub fn to_string(&self) -> (r: String)
        ensures
            r@ == (match *self {
                BinarySource::TempFile(p) => source_label(*self) + ": "@ + p@,
                BinarySource::CacheFile(p) => source_label(*self) + ": "@ + p@,
                _ => source_label(*self),
            }),
    {
        let mut r = to_owned_string(self.label());
        match self {
            BinarySource::TempFile(p) => {
                push_str(&mut r, ": ");
                push_str(&mut r, p.as_str());
            }
            BinarySource::CacheFile(p) => {
                push_str(&mut r, ": ");
                push_str(&mut r, p.as_str());
            }
            _ => {}
        }
        r
    }
}

/// The executable to run and where it was found.
#[derive(Debug, Clone, PartialEq, Eq)]
pub struct ResolvedBinary {
    pub cmd: String,
    pub source: BinarySource,
}

// ===== .env files =====

/// Key/value pairs of a `.env` file: each key once, in the order it first
/// appears, with the value of its last line.
#[derive(Debug)]
pub struct EnvMap {
    entries: Vec<(String, String)>,
}

pub open spec fn pair_view(p: (String, String)) -> (Seq<char>, Seq<char>) {
    (p.0@, p.1@)
}

pub open spec fn pairs_view(v: Seq<(String, String)>) -> Seq<(Seq<char>, Seq<char>)> {
    v.map_values(|p: (String, String)| pair_view(p))
}

/// The value of the last entry with `key`.
pub open spec fn env_lookup(entries: Seq<(Seq<char>, Seq<char>)>, key: Seq<char>) -> Option<Seq<char>>
    decreases entries.len(),
{
    if entries.len() == 0 {
        None
    } else if entries.last().0 == key {
        Some(entries.last().1)
    } else {
        env_lookup(entries.drop_last(), key)
    }
}

/// Position of the last entry with `key`.
pub open spec fn key_index(entries: Seq<(Seq<char>, Seq<char>)>, key: Seq<char>) -> Option<int>
    decreases entries.len(),
{
    if entries.len() == 0 {
        None
    } else if entries.last().0 == key {
        Some(entries.len() - 1)
    } else {
        key_index(entries.drop_last(), key)
    }
}

/// Entries with each key kept once: a repeated key takes the new value in
/// the place where the key first appeared.
pub open spec fn env_dedup(entries: Seq<(Seq<char>, Seq<char>)>) -> Seq<(Seq<char>, Seq<char>)>
    decreases entries.len(),
{
    if entries.len() == 0 {
        seq![]
    } else {
        let d = env_dedup(entries.drop_last());
        let e = entries.last();
        match key_index(d, e.0) {
            Some(i) => d.update(i, e),
            None => d.push(e),
        }
    }
}

/// No key occurs twice.
pub open spec fn keys_unique(entries: Seq<(Seq<char>, Seq<char>)>) -> bool {
    forall|i: int, j: int| 0 <= i < j < entries.len() ==> entries[i].0 != entries[j].0
}

proof fn lemma_key_index(d: Seq<(Seq<char>, Seq<char>)>, k: Seq<char>)
    ensures
        match key_index(d, k) {
            Some(i) => 0 <= i < d.len() && d[i].0 == k && forall|j: int| i < j < d.len() ==> d[j].0 != k,
            None => forall|j: int| 0 <= j < d.len() ==> d[j].0 != k,
        },
    decreases d.len(),
{
    if d.len() > 0 && d.last().0 != k {
        lemma_key_index(d.drop_last(), k);
        assert forall|j: int| 0 <= j < d.len() - 1 implies d[j] == d.drop_last()[j] by {}
    }
}

proof fn lemma_lookup_update(d: Seq<(Seq<char>, Seq<char>)>, e: (Seq<char>, Seq<char>), i: int, k: Seq<char>)
    requires
        key_index(d, e.0) == Some(i),
    ensures
        env_lookup(d.update(i, e), k) == (if k == e.0 { Some(e.1) } else { env_lookup(d, k) }),
    decreases d.len(),
{
    lemma_key_index(d, e.0);
    let u = d.update(i, e);
    if i < d.len() - 1 {
        assert(u.last() == d.last());
        assert(u.drop_last() =~= d.drop_last().update(i, e));
        assert(key_index(d.drop_last(), e.0) == Some(i));
        if d.last().0 != k {
            lemma_lookup_update(d.drop_last(), e, i, k);
        }
    } else {
        assert(u.last() == e);
        assert(u.drop_last() =~= d.drop_last());
    }
}

/// Keeping each key once changes no lookup: the last value of a key wins.
proof fn lemma_dedup_lookup(s: Seq<(Seq<char>, Seq<char>)>, k: Seq<char>)
    ensures
        env_lookup(env_dedup(s), k) == env_lookup(s, k),
        keys_unique(env_dedup(s)),
    decreases s.len(),
{
    if s.len() > 0 {
        lemma_dedup_lookup(s.drop_last(), k);
        let d = env_dedup(s.drop_last());
        let e = s.last();
        lemma_key_index(d, e.0);
        match key_index(d, e.0) {
            Some(i) => {
                lemma_lookup_update(d, e, i, k);
                let u = d.update(i, e);
                assert forall|a: int, b: int| 0 <= a < b < u.len() implies u[a].0 != u[b].0 by {
                    assert(d[a].0 != d[b].0);
                }
            }
            None => {
                let u = d.push(e);
                assert(u.drop_last() =~= d);
                assert forall|a: int, b: int| 0 <= a < b < u.len() implies u[a].0 != u[b].0 by {
                    if b < d.len() {
                        assert(d[a].0 != d[b].0);
                    } else {
                        assert(u[b] == e);
                        assert(u[a] == d[a]);
                    }
                }
            }
        }
    }
}

/// The entry that one line of a `.env` file gives: none for blank lines,
/// `#` comments and lines without `=`; otherwise the trimmed key and the
/// trimmed value with surrounding `"` and then `'` removed.
pub open spec fn env_entry(line: Seq<char>) -> Seq<(Seq<char>, Seq<char>)> {
    let t = trim_ws(line);
    if t.len() == 0 || t[0] == '#' {
        seq![]
    } else {
        match split_once_char(t, '=') {
            None => seq![],
            Some((k, v)) => seq![(trim_ws(k), trim_char(trim_char(trim_ws(v), '"'), '\''))],
        }
    }
}

/// Entries of all lines, in order.
pub open spec fn env_entries(lines: Seq<Seq<char>>) -> Seq<(Seq<char>, Seq<char>)>
    decreases lines.len(),
{
    if lines.len() == 0 { seq![] } else { env_entries(lines.drop_last()) + env_entry(lines.last()) }
}

impl EnvMap {
    pub closed spec fn view(&self) -> Seq<(Seq<char>, Seq<char>)> {
        self.entries@.map_values(|p: (String, String)| pair_view(p))
    }

    #[verifier::type_invariant]
    spec fn wf(self) -> bool {
        keys_unique(self.entries@.map_values(|p: (String, String)| pair_view(p)))
    }

    /// The value given for `key`, if any.
    pub fn get(&self, key: &str) -> (r: Option<String>)
        ensures
            match env_lookup(self.view(), key@) {
                Some(v) => r is Some && r->Some_0@ == v,
                None => r is None,
            },
    {
        let mut i = self.entries.len();
        proof {
            assert(self.view().take(i as int) =~= self.view());
        }
        while i > 0
            invariant
                i <= self.entries.len(),
                env_lookup(self.view(), key@) == env_lookup(self.view().take(i as int), key@),
            decreases i,
        {
            let ghost t = self.view().take(i as int);
            proof {
                assert(t.drop_last() =~= self.view().take(i - 1));
                assert(t.last() == pair_view(self.entries@[i - 1]));
            }
            if str_eq(self.entries[i - 1].0.as_str(), key) {
                return Some(self.entries[i - 1].1.clone());
            }
            i = i - 1;
        }
        None
    }

    /// Whether some line gave `key`.
    pub fn contains_key(&self, key: &str) -> (r: bool)
        ensures
            r == (env_lookup(self.view(), key@) is Some),
    {
        self.get(key).is_some()
    }

    /// Number of distinct keys.
    pub fn len(&self) -> (n: usize)
        ensures
            n == self.view().len(),
            keys_unique(self.view()),
    {
        proof {
            use_type_invariant(self);
        }
        self.entries.len()
    }
}

proof fn lemma_env_entries_push(lines: Seq<Seq<char>>, line: Seq<char>)
    ensures
        env_entries(lines.push(line)) == env_entries(lines) + env_entry(line),
{
    assert(lines.push(line).drop_last() =~= lines);
}

/// Position of the last entry with `key`.
fn find_key(entries: &Vec<(String, String)>, key: &str) -> (r: Option<usize>)
    ensures
        match r {
            Some(j) => key_index(pairs_view(entries@), key@) == Some(j as int),
            None => key_index(pairs_view(entries@), key@) is None,
        },
{
    let ghost all = pairs_view(entries@);
    let mut i = entries.len();
    proof {
        assert(all.take(i as int) =~= all);
    }
    while i > 0
        invariant
            i <= entries.len(),
            all == pairs_view(entries@),
            key_index(all, key@) == key_index(all.take(i as int), key@),
        decreases i,
    {
        let ghost t = all.take(i as int);
        proof {
            assert(t.drop_last() =~= all.take(i - 1));
            assert(t.last() == pair_view(entries@[i - 1]));
        }
        if str_eq(entries[i - 1].0.as_str(), key) {
            return Some(i - 1);
        }
        i = i - 1;
    }
    None
}

/// Reads `.env` content: `#` comments, blank lines and lines without `=` are
/// skipped, values may be wrapped in quotes, and a repeated key takes the
/// value of its last line.
pub fn parse_env_file(content: &str) -> (m: EnvMap)
    ensures
        m.view() == env_dedup(env_entries(lines_of(content@))),
        forall|k: Seq<char>| #[trigger] env_lookup(m.view(), k) == env_lookup(env_entries(lines_of(content@)), k),
{
    let v = chars_of(content);
    let lines = line_ranges(&v);
    let mut entries: Vec<(String, String)> = Vec::new();
    let mut i: usize = 0;
    while i < lines.len()
        invariant
            v@ == content@,
            i <= lines.len(),
            crate::strings::ranges_valid(lines@, 0, v@.len() as int),
            ranges_view(v@, lines@) == lines_of(v@),
            pairs_view(entries@)
                == env_dedup(env_entries(ranges_view(v@, lines@).take(i as int))),
        decreases lines.len() - i,
    {
        let (lo, hi) = lines[i];
        let ghost line = v@.subrange(lo as int, hi as int);
        proof {
            let all = ranges_view(v@, lines@);
            assert(all[i as int] == line);
            assert(all.take(i as int + 1) =~= all.take(i as int).push(line));
            lemma_env_entries_push(all.take(i as int), line);
        }
        let ghost before = pairs_view(entries@);
        let ghost raw = env_entries(ranges_view(v@, lines@).take(i as int));
        let (a, b) = trim_ws_range(&v, lo, hi);
        let ghost t = v@.subrange(a as int, b as int);
        if a < b && v[a] != '#' {
            let k = find_char(&v, a, b, '=');
            proof {
                lemma_index_of_char(t, '=');
            }
            if k < b {
                let (ka, kb) = trim_ws_range(&v, a, k);
                let (va, vb) = trim_ws_range(&v, k + 1, b);
                let (qa, qb) = trim_char_range(&v, va, vb, '"');
                let (sa, sb) = trim_char_range(&v, qa, qb, '\'');
                proof {
                    assert(t.take(k - a) =~= v@.subrange(a as int, k as int));
                    assert(t.skip(k - a + 1) =~= v@.subrange(k + 1, b as int));
                    assert(t[0] == v@[a as int]);
                }
                let key = string_of(&v, ka, kb);
                let val = string_of(&v, sa, sb);
                let ghost e = (key@, val@);
                proof {
                    assert(env_entry(line) =~= seq![e]);
                    assert((raw + env_entry(line)).drop_last() =~= raw);
                    assert((raw + env_entry(line)).last() == e);
                    lemma_key_index(before, e.0);
                }
                match find_key(&entries, key.as_str()) {
                    Some(j) => {
                        proof {
                            assert(key_index(before, e.0) == Some(j as int));
                        }
                        entries.set(j, (key, val));
                        proof {
                            assert(pairs_view(entries@)
                                =~= before.update(j as int, e));
                            assert(env_dedup(raw + env_entry(line)) == before.update(j as int, e));
                        }
                    }
                    None => {
                        entries.push((key, val));
                        proof {
                            assert(pairs_view(entries@)
                                =~= before.push(e));
                            assert(env_dedup(raw + env_entry(line)) == before.push(e));
                        }
                    }
                }
            } else {
                proof {
                    assert(t[0] == v@[a as int]);
                    assert(env_entry(line) =~= Seq::<(Seq<char>, Seq<char>)>::empty());
                    assert(raw + env_entry(line) =~= raw);
                }
            }
        } else {
            proof {
                if a < b {
                    assert(t[0] == v@[a as int]);
                }
                assert(env_entry(line) =~= Seq::<(Seq<char>, Seq<char>)>::empty());
                assert(raw + env_entry(line) =~= raw);
            }
        }
        i = i + 1;
    }
    proof {
        let all = ranges_view(v@, lines@);
        assert(all.take(lines@.len() as int) =~= all);
        lemma_dedup_lookup(env_entries(lines_of(content@)), Seq::<char>::empty());
        assert forall|k: Seq<char>| #[trigger] env_lookup(env_dedup(env_entries(lines_of(content@))), k)
            == env_lookup(env_entries(lines_of(content@)), k) by {
            lemma_dedup_lookup(env_entries(lines_of(content@)), k);
        }
    }
    EnvMap { entries }
}

// ===== resolution chain =====

/// Executable name looked up on `PATH` when nothing else names one.
pub fn default_mihomo_name() -> (r: &'static str)
    ensures
        r@ == "mihomo"@,
{
    "mihomo"
}

pub open spec fn is_absolute(p: Seq<char>) -> bool {
    p.len() > 0 && p[0] == '/'
}

/// `dir` joined with the relative path `rel`.
pub open spec fn join_path(dir: Seq<char>, rel: Seq<char>) -> Seq<char> {
    if dir.len() == 0 {
        rel
    } else if dir.last() == '/' {
        dir + rel
    } else {
        dir + seq!['/'] + rel
    }
}

pub open spec fn has_char(s: Seq<char>, c: char) -> bool {
    s.contains(c)
}

/// The result of the resolution chain, first match wins:
/// 1. the environment variable, trimmed, when not empty;
/// 2. `MIHOMO_EXE` of the `.env` file, trimmed, when not empty; a relative
///    value is taken from the `.env` file's directory;
/// 3. the settings path, trimmed, when it holds a separator or is absolute;
/// 4. the NixOS wrapper, when present;
/// 5. the settings name, or the default name, looked up on `PATH`.
pub open spec fn resolution(
    settings_exe: Seq<char>,
    env_val: Option<Seq<char>>,
    env_file: Option<(Seq<char>, Seq<char>)>,
    wrapper: Option<Seq<char>>,
) -> (Seq<char>, BinarySource) {
    let env_t = match env_val { Some(v) => trim_ws(v), None => seq![] };
    let file_val = match env_file {
        Some((dir, content)) => match env_lookup(env_entries(lines_of(content)), ENV_FILE_KEY@) {
            Some(v) => trim_ws(v),
            None => seq![],
        },
        None => seq![],
    };
    let s = trim_ws(settings_exe);
    if env_t.len() > 0 {
        (env_t, BinarySource::EnvVar)
    } else if env_file is Some && file_val.len() > 0 {
        let dir = env_file->Some_0.0;
        (if is_absolute(file_val) { file_val } else { join_path(dir, file_val) }, BinarySource::EnvFile)
    } else if s.len() > 0 && (has_char(s, '/') || has_char(s, '\\') || is_absolute(s)) {
        (s, BinarySource::Settings)
    } else if wrapper is Some {
        (wrapper->Some_0, BinarySource::NixWrapper)
    } else {
        (if s.len() == 0 { "mihomo"@ } else { s }, BinarySource::Path)
    }
}

fn trimmed(s: &str) -> (r: String)
    ensures
        r@ == trim_ws(s@),
{
    let v = chars_of(s);
    let (a, b) = trim_ws_range(&v, 0, v.len());
    proof {
        assert(v@.subrange(0, v@.len() as int) =~= v@);
    }
    string_of(&v, a, b)
}

fn contains_char(s: &str, c: char) -> (r: bool)
    ensures
        r == has_char(s@, c),
{
    let v = chars_of(s);
    let k = find_char(&v, 0, v.len(), c);
    proof {
        assert(v@.subrange(0, v@.len() as int) =~= v@);
        lemma_index_of_char(v@, c);
        if k < v.len() {
            assert(v@[k as int] == c);
        }
    }
    k < v.len()
}

fn starts_with_slash(s: &str) -> (r: bool)
    ensures
        r == is_absolute(s@),
{
    let v = chars_of(s);
    v.len() > 0 && v[0] == '/'
}

fn join(dir: &str, rel: &str) -> (r: String)
    ensures
        r@ == join_path(dir@, rel@),
{
    let d = chars_of(dir);
    let mut r = to_owned_string(dir);
    if d.len() > 0 && d[d.len() - 1] != '/' {
        r.push('/');
    }
    push_str(&mut r, rel);
    proof {
        if d@.len() == 0 {
            assert(r@ =~= rel@);
        }
    }
    r
}

/// The resolution chain, given what the environment holds: the environment
/// variable's value, the `.env` file's directory and content when it could be
/// read, and the NixOS wrapper when it exists.
pub fn resolve_mihomo_exe_with(
    settings: &Settings,
    env_val: Option<String>,
    env_file: Option<(String, String)>,
    wrapper: Option<String>,
) -> (r: ResolvedBinary)
    ensures
        (r.cmd@, r.source) == resolution(
            settings.mihomo_exe@,
            match env_val { Some(v) => Some(v@), None => None },
            match env_file { Some(f) => Some((f.0@, f.1@)), None => None },
            match wrapper { Some(w) => Some(w@), None => None },
        ),
{
    if let Some(v) = &env_val {
        let t = trimmed(v.as_str());
        if t.as_str().is_empty() == false {
            return ResolvedBinary { cmd: t, source: BinarySource::EnvVar };
        }
    }
    if let Some(f) = &env_file {
        let map = parse_env_file(f.1.as_str());
        if let Some(v) = map.get(ENV_FILE_KEY) {
            let t = trimmed(v.as_str());
            if !t.as_str().is_empty() {
                let cmd = if starts_with_slash(t.as_str()) { t } else { join(f.0.as_str(), t.as_str()) };
                return ResolvedBinary { cmd, source: BinarySource::EnvFile };
            }
        }
    }
    let s = trimmed(settings.mihomo_exe.as_str());
    if !s.as_str().is_empty()
        && (contains_char(s.as_str(), '/') || contains_char(s.as_str(), '\\') || starts_with_slash(s.as_str()))
    {
        return ResolvedBinary { cmd: s, source: BinarySource::Settings };
    }
    if let Some(w) = wrapper {
        return ResolvedBinary { cmd: w, source: BinarySource::NixWrapper };
    }
    let cmd = if s.as_str().is_empty() { to_owned_string(default_mihomo_name()) } else { s };
    ResolvedBinary { cmd, source: BinarySource::Path }
}

/// The NixOS setcap wrapper, when it exists.
pub fn nix_wrapper_path(exists: bool) -> (r: Option<String>)
    ensures
        exists ==> r is Some && r->Some_0@ == NIX_WRAPPER_PATH@,
        !exists ==> r is None,
{
    if exists { Some(to_owned_string(NIX_WRAPPER_PATH)) } else { None }
}

/// On this platform a `PATH` result is used as it is.
pub fn upgrade_path_fallback(resolved: &mut ResolvedBinary)
    ensures
        *final(resolved) == *old(resolved),
{
}

/// Executable names of the winget mihomo package, the current architecture's first.
pub open spec fn windows_candidates(arch: Seq<char>) -> Seq<Seq<char>> {
    let a = if arch == "x86_64"@ { "amd64"@ } else if arch == "aarch64"@ { "arm64"@ }
        else if arch == "x86"@ { "386"@ } else { arch };
    let name = |x: Seq<char>| "mihomo-windows-"@ + x + ".exe"@;
    let first = seq![name(a)];
    let with_amd = if first.contains(name("amd64"@)) { first } else { first.push(name("amd64"@)) };
    let with_arm = if with_amd.contains(name("arm64"@)) { with_amd } else { with_amd.push(name("arm64"@)) };
    if with_arm.contains(name("386"@)) { with_arm } else { with_arm.push(name("386"@)) }
}

fn candidate(arch: &str) -> (r: String)
    ensures
        r@ == "mihomo-windows-"@ + arch@ + ".exe"@,
{
    let mut r = to_owned_string("mihomo-windows-");
    push_str(&mut r, arch);
    push_str(&mut r, ".exe");
    r
}

fn contains_string(v: &Vec<String>, s: &String) -> (r: bool)
    ensures
        r == v@.map_values(|x: String| x@).contains(s@),
{
    let mut i: usize = 0;
    while i < v.len()
        invariant
            i <= v@.len(),
            forall|k: int| 0 <= k < i ==> v@[k]@ != s@,
        decreases v@.len() - i,
    {
        if str_eq(v[i].as_str(), s.as_str()) {
            proof {
                assert(v@.map_values(|x: String| x@)[i as int] == s@);
            }
            return true;
        }
        i = i + 1;
    }
    false
}

/// The winget package's executable names for architecture `arch`, preferring it.
pub fn mihomo_windows_candidates(arch: &str) -> (r: Vec<String>)
    ensures
        r@.map_values(|x: String| x@) == windows_candidates(arch@),
{
    let a: &str = if str_eq(arch, "x86_64") { "amd64" } else if str_eq(arch, "aarch64") { "arm64" }
        else if str_eq(arch, "x86") { "386" } else { arch };
    let mut names: Vec<String> = Vec::new();
    names.push(candidate(a));
    let ghost name = |x: Seq<char>| "mihomo-windows-"@ + x + ".exe"@;
    proof {
        assert(names@.map_values(|x: String| x@) =~= seq![name(a@)]);
    }
    let n1 = candidate("amd64");
    if !contains_string(&names, &n1) {
        names.push(n1);
    }
    let ghost after1 = names@.map_values(|x: String| x@);
    proof {
        assert(after1 =~= (if seq![name(a@)].contains(name("amd64"@)) { seq![name(a@)] } else { seq![name(a@)].push(name("amd64"@)) }));
    }
    let n2 = candidate("arm64");
    if !contains_string(&names, &n2) {
        names.push(n2);
    }
    let ghost after2 = names@.map_values(|x: String| x@);
    proof {
        assert(after2 =~= (if after1.contains(name("arm64"@)) { after1 } else { after1.push(name("arm64"@)) }));
    }
    let n3 = candidate("386");
    if !contains_string(&names, &n3) {
        names.push(n3);
    }
    proof {
        assert(names@.map_values(|x: String| x@) =~= (if after2.contains(name("386"@)) { after2 } else { after2.push(name("386"@)) }));
    }
    names
}

} // verus!
