//! The run configuration: which files are in scope and which characters are
//! targeted, together with the built-in defaults.

use vstd::prelude::*;
use vstd::string::StringExecFns;

verus! {

/// Which character classes the cleaner targets, plus user-given code points
/// written as hex strings.
#[derive(Debug, Clone)]
pub struct TargetCharacters {
    pub zero_width_spaces: bool,
    pub non_breaking_spaces: bool,
    pub control_characters: bool,
    pub unicode_whitespace: bool,
    pub trailing_whitespace: bool,
    pub custom_chars: Vec<String>,
}

#[derive(Debug, Clone, Copy, PartialEq, Eq, Structural)]
pub enum VerbosityLevel {
    Silent,
    Normal,
    Verbose,
}

/// The immutable per-run configuration, threaded through every component.
#[derive(Debug, Clone)]
pub struct GhostScrubConfig {
    pub include_extensions: Vec<String>,
    pub exclude_extensions: Vec<String>,
    pub include_patterns: Vec<String>,
    pub exclude_patterns: Vec<String>,
    pub target_characters: TargetCharacters,
    pub verbosity: VerbosityLevel,
}

pub open spec fn default_include_extensions_spec() -> Seq<Seq<char>> {
    seq![
        "rs"@, "py"@, "js"@, "ts"@, "jsx"@, "tsx"@, "go"@, "java"@, "c"@, "cpp"@, "h"@,
        "hpp"@, "cs"@, "php"@, "rb"@, "swift"@, "kt"@, "scala"@, "clj"@, "hs"@, "ml"@,
        "txt"@, "md"@, "json"@, "xml"@, "yaml"@, "yml"@, "toml"@, "ini"@, "cfg"@, "conf"@,
    ]
}

pub open spec fn default_exclude_patterns_spec() -> Seq<Seq<char>> {
    seq![
        "**/.git/**"@, "**/.svn/**"@, "**/.hg/**"@, "**/.bzr/**"@, "**/target/**"@,
        "**/node_modules/**"@, "**/build/**"@, "**/dist/**"@, "**/out/**"@, "**/bin/**"@,
        "**/obj/**"@, "**/__pycache__/**"@, "**/.pytest_cache/**"@, "**/venv/**"@,
        "**/.venv/**"@, "**/*.egg-info/**"@, "**/.idea/**"@, "**/.vscode/**"@, "**/.vs/**"@,
        "**/*.swp"@, "**/*.swo"@, "**/*~"@, "**/.#*"@, "**/.DS_Store"@, "**/Thumbs.db"@,
        "**/desktop.ini"@, "**/*.tmp"@, "**/*.temp"@, "**/*.bak"@, "**/*.orig"@, "**/*.log"@,
        "**/logs/**"@,
    ]
}

/// The extensions processed when the configuration names none.
pub fn default_include_extensions() -> (r: Vec<String>)
    ensures
        r.deep_view() == default_include_extensions_spec(),
{
    let mut v: Vec<String> = Vec::new();
    v.push(String::from_str("rs"));
    v.push(String::from_str("py"));
    v.push(String::from_str("js"));
    v.push(String::from_str("ts"));
    v.push(String::from_str("jsx"));
    v.push(String::from_str("tsx"));
    v.push(String::from_str("go"));
    v.push(String::from_str("java"));
    v.push(String::from_str("c"));
    v.push(String::from_str("cpp"));
    v.push(String::from_str("h"));
    v.push(String::from_str("hpp"));
    v.push(String::from_str("cs"));
    v.push(String::from_str("php"));
    v.push(String::from_str("rb"));
    v.push(String::from_str("swift"));
    v.push(String::from_str("kt"));
    v.push(String::from_str("scala"));
    v.push(String::from_str("clj"));
    v.push(String::from_str("hs"));
    v.push(String::from_str("ml"));
    v.push(String::from_str("txt"));
    v.push(String::from_str("md"));
    v.push(String::from_str("json"));
    v.push(String::from_str("xml"));
    v.push(String::from_str("yaml"));
    v.push(String::from_str("yml"));
    v.push(String::from_str("toml"));
    v.push(String::from_str("ini"));
    v.push(String::from_str("cfg"));
    v.push(String::from_str("conf"));
    proof {
        assert(v.deep_view() =~~= default_include_extensions_spec());
    }
    v
}

/// The patterns every path is tried against by default: version control,
/// build, dependency, editor, OS, temporary and log artifacts.
pub fn default_exclude_patterns() -> (r: Vec<String>)
    ensures
        r.deep_view() == default_exclude_patterns_spec(),
{
    let mut v: Vec<String> = Vec::new();
    v.push(String::from_str("**/.git/**"));
    v.push(String::from_str("**/.svn/**"));
    v.push(String::from_str("**/.hg/**"));
    v.push(String::from_str("**/.bzr/**"));
    v.push(String::from_str("**/target/**"));
    v.push(String::from_str("**/node_modules/**"));
    v.push(String::from_str("**/build/**"));
    v.push(String::from_str("**/dist/**"));
    v.push(String::from_str("**/out/**"));
    v.push(String::from_str("**/bin/**"));
    v.push(String::from_str("**/obj/**"));
    v.push(String::from_str("**/__pycache__/**"));
    v.push(String::from_str("**/.pytest_cache/**"));
    v.push(String::from_str("**/venv/**"));
    v.push(String::from_str("**/.venv/**"));
    v.push(String::from_str("**/*.egg-info/**"));
    v.push(String::from_str("**/.idea/**"));
    v.push(String::from_str("**/.vscode/**"));
    v.push(String::from_str("**/.vs/**"));
    v.push(String::from_str("**/*.swp"));
    v.push(String::from_str("**/*.swo"));
    v.push(String::from_str("**/*~"));
    v.push(String::from_str("**/.#*"));
    v.push(String::from_str("**/.DS_Store"));
    v.push(String::from_str("**/Thumbs.db"));
    v.push(String::from_str("**/desktop.ini"));
    v.push(String::from_str("**/*.tmp"));
    v.push(String::from_str("**/*.temp"));
    v.push(String::from_str("**/*.bak"));
    v.push(String::from_str("**/*.orig"));
    v.push(String::from_str("**/*.log"));
    v.push(String::from_str("**/logs/**"));
    proof {
        assert(v.deep_view() =~~= default_exclude_patterns_spec());
    }
    v
}

pub fn default_include_patterns() -> (r: Vec<String>)
    ensures
        r.deep_view() =~= seq!["**/*"@],
{
    let mut v: Vec<String> = Vec::new();
    v.push(String::from_str("**/*"));
    proof {
        assert(v.deep_view() =~~= seq!["**/*"@]);
    }
    v
}

pub open spec fn is_default_targets(t: TargetCharacters) -> bool {
    t.zero_width_spaces && t.non_breaking_spaces && t.control_characters
        && t.unicode_whitespace && t.trailing_whitespace && t.custom_chars@.len() == 0
}

pub fn default_target_chars() -> (r: TargetCharacters)
    ensures
        is_default_targets(r),
{
    TargetCharacters {
        zero_width_spaces: true,
        non_breaking_spaces: true,
        control_characters: true,
        unicode_whitespace: true,
        trailing_whitespace: true,
        custom_chars: Vec::new(),
    }
}

pub fn default_verbosity() -> (r: VerbosityLevel)
    ensures
        r == VerbosityLevel::Normal,
{
    VerbosityLevel::Normal
}

pub fn default_true() -> (r: bool)
    ensures
        r,
{
    true
}

/// What every field of a freshly defaulted configuration holds.
pub open spec fn is_default_config(c: GhostScrubConfig) -> bool {
    &&& c.include_extensions.deep_view() == default_include_extensions_spec()
    &&& c.exclude_extensions@.len() == 0
    &&& c.include_patterns.deep_view() == seq!["**/*"@]
    &&& c.exclude_patterns.deep_view() == default_exclude_patterns_spec()
    &&& is_default_targets(c.target_characters)
    &&& c.verbosity == VerbosityLevel::Normal
}

impl Default for GhostScrubConfig {
    fn default() -> (r: Self)
        ensures
            is_default_config(r),
    {
        GhostScrubConfig {
            include_extensions: default_include_extensions(),
            exclude_extensions: Vec::new(),
            include_patterns: default_include_patterns(),
            exclude_patterns: default_exclude_patterns(),
            target_characters: default_target_chars(),
            verbosity: default_verbosity(),
        }
    }
}

impl Default for TargetCharacters {
    fn default() -> (r: Self)
        ensures
            is_default_targets(r),
    {
        default_target_chars()
    }
}

impl Default for VerbosityLevel {
    fn default() -> (r: Self)
        ensures
            r == VerbosityLevel::Normal,
    {
        default_verbosity()
    }
}

/// The index of the last `'/'` of the path, or -1 if there is none.
pub open spec fn last_slash(p: Seq<char>) -> int
    decreases p.len(),
{
    if p.len() == 0 {
        -1
    } else if p.last() == '/' {
        p.len() - 1
    } else {
        last_slash(p.drop_last())
    }
}

/// The index of the last `'.'` of the name, or -1 if there is none.
pub open spec fn last_dot(f: Seq<char>) -> int
    decreases f.len(),
{
    if f.len() == 0 {
        -1
    } else if f.last() == '.' {
        f.len() - 1
    } else {
        last_dot(f.drop_last())
    }
}

/// The file name: what follows the last `'/'`.
pub open spec fn file_name_of(p: Seq<char>) -> Seq<char> {
    p.skip(last_slash(p) + 1)
}

/// The extension: what follows the last `'.'` of the file name, provided
/// that dot is not the name's first character. A name without such a dot
/// has no extension.
pub open spec fn ext_of(p: Seq<char>) -> Option<Seq<char>> {
    let f = file_name_of(p);
    if last_dot(f) >= 1 {
        Some(f.skip(last_dot(f) + 1))
    } else {
        None
    }
}

/// The extension rule: a path with an extension is rejected when the
/// deny-list is non-empty and holds it, or when the allow-list is non-empty
/// and does not; an extensionless path is always accepted.
pub open spec fn should_process_spec(
    deny: Seq<Seq<char>>,
    allow: Seq<Seq<char>>,
    p: Seq<char>,
) -> bool {
    match ext_of(p) {
        Some(e) => !(deny.len() > 0 && deny.contains(e)) && (allow.len() == 0
            || allow.contains(e)),
        None => true,
    }
}

proof fn lemma_last_slash_range(p: Seq<char>)
    ensures
        -1 <= last_slash(p) < p.len(),
    decreases p.len(),
{
    if p.len() > 0 && p.last() != '/' {
        lemma_last_slash_range(p.drop_last());
    }
}

proof fn lemma_last_dot_range(f: Seq<char>)
    ensures
        -1 <= last_dot(f) < f.len(),
    decreases f.len(),
{
    if f.len() > 0 && f.last() != '.' {
        lemma_last_dot_range(f.drop_last());
    }
}

/// The file name of the path: what follows its last `'/'`.
pub fn file_name_chars(path: &Vec<char>) -> (r: Vec<char>)
    ensures
        r@ == file_name_of(path@),
{
    let n = path.len();
    let mut fstart: usize = n;
    proof {
        assert(path@.take(n as int) =~= path@);
        lemma_last_slash_range(path@);
    }
    while fstart > 0 && path[fstart - 1] != '/'
        invariant
            fstart <= n,
            n == path@.len(),
            last_slash(path@) == last_slash(path@.take(fstart as int)),
        decreases fstart,
    {
        proof {
            assert(path@.take(fstart as int).drop_last() =~= path@.take(fstart - 1));
            assert(path@.take(fstart as int).last() == path@[fstart - 1]);
        }
        fstart = fstart - 1;
    }
    proof {
        if fstart > 0 {
            assert(path@.take(fstart as int).last() == '/');
            assert(last_slash(path@) == fstart - 1);
        } else {
            assert(path@.take(0).len() == 0);
            assert(last_slash(path@) == -1);
        }
    }
    let mut name: Vec<char> = Vec::new();
    let mut i: usize = fstart;
    while i < n
        invariant
            fstart <= i <= n,
            n == path@.len(),
            name@ == path@.subrange(fstart as int, i as int),
        decreases n - i,
    {
        name.push(path[i]);
        assert(path@.subrange(fstart as int, i + 1) =~= path@.subrange(
            fstart as int,
            i as int,
        ).push(path@[i as int]));
        i = i + 1;
    }
    proof {
        assert(name@ =~= file_name_of(path@));
    }
    name
}

fn list_contains(list: &Vec<String>, needle: &Vec<char>) -> (b: bool)
    ensures
        b == list.deep_view().contains(needle@),
{
    let ns = crate::strutil::string_from_chars(needle);
    let mut i: usize = 0;
    while i < list.len()
        invariant
            i <= list.len(),
            ns@ == needle@,
            forall|k: int| 0 <= k < i ==> list.deep_view()[k] != needle@,
        decreases list.len() - i,
    {
        if list[i] == ns {
            assert(list.deep_view()[i as int] == needle@);
            return true;
        }
        i = i + 1;
    }
    assert(!list.deep_view().contains(needle@)) by {
        if list.deep_view().contains(needle@) {
            let k = choose|k: int|
                0 <= k < list.deep_view().len() && list.deep_view()[k] == needle@;
            assert(false);
        }
    }
    false
}

/// The extension of the path under the rule above, as characters.
fn extension_chars(path: &Vec<char>) -> (r: Option<Vec<char>>)
    ensures
        r is Some <==> ext_of(path@) is Some,
        r is Some ==> r->0@ == ext_of(path@)->0,
{
    let n = path.len();
    let mut fstart: usize = n;
    proof {
        assert(path@.take(n as int) =~= path@);
        lemma_last_slash_range(path@);
    }
    while fstart > 0 && path[fstart - 1] != '/'
        invariant
            fstart <= n,
            n == path@.len(),
            last_slash(path@) == last_slash(path@.take(fstart as int)),
        decreases fstart,
    {
        proof {
            assert(path@.take(fstart as int).drop_last() =~= path@.take(fstart - 1));
            assert(path@.take(fstart as int).last() == path@[fstart - 1]);
        }
        fstart = fstart - 1;
    }
    proof {
        if fstart > 0 {
            assert(path@.take(fstart as int).last() == '/');
            assert(last_slash(path@) == fstart - 1);
        } else {
            assert(path@.take(0).len() == 0);
            assert(last_slash(path@) == -1);
        }
        assert(file_name_of(path@) =~= path@.skip(fstart as int));
    }
    let ghost f = path@.skip(fstart as int);
    let mut dpos: usize = n;
    proof {
        assert(f.take(n - fstart) =~= f);
        lemma_last_dot_range(f);
    }
    while dpos > fstart && path[dpos - 1] != '.'
        invariant
            fstart <= dpos <= n,
            n == path@.len(),
            f == path@.skip(fstart as int),
            last_dot(f) == last_dot(f.take(dpos - fstart)),
        decreases dpos,
    {
        proof {
            assert(f.take(dpos - fstart).drop_last() =~= f.take(dpos - 1 - fstart));
            assert(f.take(dpos - fstart).last() == f[dpos - 1 - fstart]);
            assert(f[dpos - 1 - fstart] == path@[dpos - 1]);
        }
        dpos = dpos - 1;
    }
    proof {
        if dpos > fstart {
            assert(f.take(dpos - fstart).last() == f[dpos - 1 - fstart]);
            assert(f[dpos - 1 - fstart] == path@[dpos - 1]);
            assert(last_dot(f) == dpos - 1 - fstart);
        } else {
            assert(f.take(0).len() == 0);
            assert(last_dot(f) == -1);
        }
    }
    if dpos > fstart && dpos - fstart > 1 {
        let mut ext: Vec<char> = Vec::new();
        let mut i: usize = dpos;
        while i < n
            invariant
                dpos <= i <= n,
                n == path@.len(),
                ext@ == path@.subrange(dpos as int, i as int),
            decreases n - i,
        {
            ext.push(path[i]);
            assert(path@.subrange(dpos as int, i + 1) =~= path@.subrange(
                dpos as int,
                i as int,
            ).push(path@[i as int]));
            i = i + 1;
        }
        proof {
            assert(ext@ =~= f.skip(last_dot(f) + 1));
        }
        Some(ext)
    } else {
        proof {
            assert(!(last_dot(f) >= 1));
        }
        None
    }
}

impl GhostScrubConfig {
    /// The configuration used when no configuration file is present:
    /// every field at its default.
    pub fn load_default() -> (r: Self)
        ensures
            is_default_config(r),
    {
        Self::default()
    }

    /// Whether the extension rule lets the file through.
    pub fn should_process_file(&self, file_path: &str) -> (b: bool)
        ensures
            b == should_process_spec(
                self.exclude_extensions.deep_view(),
                self.include_extensions.deep_view(),
                file_path@,
            ),
    {
        let v = crate::strutil::chars_of_str(file_path);
        match extension_chars(&v) {
            Some(ext) => {
                if self.exclude_extensions.len() > 0 && list_contains(
                    &self.exclude_extensions,
                    &ext,
                ) {
                    return false;
                }
                if self.include_extensions.len() > 0 && !list_contains(
                    &self.include_extensions,
                    &ext,
                ) {
                    return false;
                }
                true
            },
            None => true,
        }
    }
}

} // verus!
