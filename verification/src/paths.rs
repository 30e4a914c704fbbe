//! Where things live: the repository's graph name, the bridge command, the
//! skill link, the service files and their rendering.
use vstd::prelude::*;
use crate::body_slice::{blake3_hex_of, text_hash};
use crate::text::{chars_of, push_str, str_eq, string_of};

verus! {

/// What `camino::Utf8Path::file_name` returns for a path: its last
/// component, unless that is `..` or there is none.
pub uninterp spec fn path_file_name(path: Seq<char>) -> Option<Seq<char>>;

/// The final component of a path (`camino::Utf8Path::file_name`), a
/// function of the path alone.
#[verifier::external_body]
fn file_name_of(path: &str) -> (r: Option<String>)
    ensures
        match r {
            Some(n) => path_file_name(path@) == Some(n@),
            None => path_file_name(path@) is None,
        },
{
    camino::Utf8Path::new(path).file_name().map(|n| n.to_string())
}

/// A repository's id from its directory name (`repo` when there is none)
/// and the hex hash of its canonical path: the name, `-`, and the first 8
/// hex digits.
pub open spec fn repo_id_of_spec(file_name: Option<Seq<char>>, hash_hex: Seq<char>) -> Seq<char> {
    let base = match file_name {
        Some(n) => n,
        None => "repo"@,
    };
    base + "-"@ + hash_hex.take(8)
}

/// A repository's stable id: its directory name, `-`, and the first 8 hex
/// digits of the blake3 hash of the canonical path. Two repositories with
/// the same directory name in different places get different ids.
pub open spec fn repo_id_spec(canonical: Seq<char>) -> Seq<char> {
    repo_id_of_spec(path_file_name(canonical), text_hash(canonical))
}

/// The id made of a directory name and a path hash of at least 8 digits.
pub fn repo_id_of(file_name: Option<&str>, hash_hex: &str) -> (id: String)
    requires
        hash_hex@.len() >= 8,
    ensures
        id@ == repo_id_of_spec(
            match file_name {
                Some(n) => Some(n@),
                None => None,
            },
            hash_hex@,
        ),
{
    let mut id = match file_name {
        Some(n) => string_of(n),
        None => string_of("repo"),
    };
    push_str(&mut id, "-");
    let hs = chars_of(hash_hex);
    let mut i: usize = 0;
    let ghost start = id@;
    while i < 8
        invariant
            i <= 8,
            hs@ == hash_hex@,
            hash_hex@.len() >= 8,
            id@ == start + hash_hex@.take(i as int),
        decreases 8 - i,
    {
        crate::text::push_char(&mut id, hs[i]);
        assert(hash_hex@.take(i + 1) =~= hash_hex@.take(i as int).push(hs@[i as int]));
        i = i + 1;
    }
    id
}

/// The repository id of a canonical repository path.
pub fn repo_id_from_path(canonical: &str) -> (id: String)
    ensures
        id@ == repo_id_spec(canonical@),
{
    let name = file_name_of(canonical);
    let hash = blake3_hex_of(canonical.as_bytes());
    match &name {
        Some(n) => repo_id_of(Some(n.as_str()), hash.as_str()),
        None => repo_id_of(None, hash.as_str()),
    }
}

/// The graph a repository's index lives in: `mycel:` and the repository id,
/// or `mycel:default` without one.
pub fn graph_name_for(repo_id: Option<&str>) -> (g: String)
    ensures
        g@ == "mycel:"@ + match repo_id {
            Some(id) => id@,
            None => "default"@,
        },
{
    let mut g = string_of("mycel:");
    match repo_id {
        Some(id) => push_str(&mut g, id),
        None => push_str(&mut g, "default"),
    }
    g
}

/// A relative path appended to a base path, as `Path::join` does on Unix:
/// with one `/` between them (none added when the base is empty or already
/// ends with one).
pub open spec fn join_spec(base: Seq<char>, part: Seq<char>) -> Seq<char> {
    if base.len() == 0 {
        part
    } else if base.last() == '/' {
        base + part
    } else {
        base + "/"@ + part
    }
}

fn join(base: &str, part: &str) -> (r: String)
    ensures
        r@ == join_spec(base@, part@),
{
    let cs = chars_of(base);
    let mut r = string_of(base);
    if cs.len() > 0 && cs[cs.len() - 1] != '/' {
        push_str(&mut r, "/");
    }
    push_str(&mut r, part);
    r
}

/// Where the skill's source lies in a repository: `<repo>/skills/mycel-graph-care`.
pub fn source_for_repo(repo: &str) -> (r: String)
    ensures
        r@ == join_spec(join_spec(repo@, "skills"@), "mycel-graph-care"@),
{
    let s = join(repo, "skills");
    join(s.as_str(), "mycel-graph-care")
}

/// Where the skill is linked from: `<skills_dir>/mycel-graph-care`, in the
/// directory from which the user's assistant loads its skills.
pub fn default_target(skills_dir: &str) -> (r: String)
    ensures
        r@ == join_spec(skills_dir@, "mycel-graph-care"@),
{
    join(skills_dir, "mycel-graph-care")
}

/// What is found at the skill link's target before installing.
#[derive(Debug, PartialEq, Eq)]
pub enum TargetState {
    /// Nothing is there.
    Missing,
    /// A symbolic link; whether it resolves to the skill source, and its
    /// destination as shown to the user.
    Symlink { to_source: bool, destination: String },
    /// Something that is not a symbolic link.
    Occupied,
}

/// What installing the skill has to do.
#[derive(Debug, Clone, Copy, PartialEq, Eq, Structural)]
pub enum InstallStep {
    /// Create the link.
    Link,
    /// The link is already in place.
    AlreadyLinked,
}

/// The refusal when the source is missing.
pub open spec fn missing_source_message(source: Seq<char>) -> Seq<char> {
    "source does not exist: "@ + source
}

/// The refusal when the target links elsewhere.
pub open spec fn elsewhere_message(target: Seq<char>, destination: Seq<char>) -> Seq<char> {
    target + " is already a symlink, but points elsewhere ("@ + destination
        + "). Remove it manually and retry."@
}

/// The refusal when the target is not a link.
pub open spec fn occupied_message(target: Seq<char>) -> Seq<char> {
    target + " exists and is not a symlink. Remove it manually and retry."@
}

/// Installing is idempotent and never overwrites: it refuses a missing
/// source, a link that points elsewhere and anything that is not a link;
/// a link to the source is left as it is.
pub fn install_step(source: &str, source_exists: bool, target: &str, state: &TargetState) -> (r: Result<InstallStep, String>)
    ensures
        !source_exists ==> (r matches Err(m) && m@ == missing_source_message(source@)),
        source_exists ==> match state {
            TargetState::Missing => r == Ok::<InstallStep, String>(InstallStep::Link),
            TargetState::Symlink { to_source, destination } => if *to_source {
                r == Ok::<InstallStep, String>(InstallStep::AlreadyLinked)
            } else {
                (r matches Err(m) && m@ == elsewhere_message(target@, destination@))
            },
            TargetState::Occupied => (r matches Err(m) && m@ == occupied_message(target@)),
        },
{
    if !source_exists {
        let mut m = string_of("source does not exist: ");
        push_str(&mut m, source);
        return Err(m);
    }
    match state {
        TargetState::Missing => Ok(InstallStep::Link),
        TargetState::Symlink { to_source, destination } => {
            if *to_source {
                Ok(InstallStep::AlreadyLinked)
            } else {
                let mut m = string_of(target);
                push_str(&mut m, " is already a symlink, but points elsewhere (");
                push_str(&mut m, destination.as_str());
                push_str(&mut m, "). Remove it manually and retry.");
                Err(m)
            }
        },
        TargetState::Occupied => {
            let mut m = string_of(target);
            push_str(&mut m, " exists and is not a symlink. Remove it manually and retry.");
            Err(m)
        },
    }
}

/// The result of installing the skill.
#[derive(Debug, PartialEq, Eq)]
pub struct InstallOutcome {
    pub source: String,
    pub target: String,
    pub linked: bool,
}

/// The launchd agent file: `<home>/Library/LaunchAgents/com.gav.mycel.plist`.
pub fn plist_path(home: &str) -> (r: String)
    ensures
        r@ == join_spec(home@, "Library/LaunchAgents/com.gav.mycel.plist"@),
{
    join(home, "Library/LaunchAgents/com.gav.mycel.plist")
}

/// The systemd user unit: `<home>/.config/systemd/user/mycel.service`.
pub fn unit_path(home: &str) -> (r: String)
    ensures
        r@ == join_spec(home@, ".config/systemd/user/mycel.service"@),
{
    join(home, ".config/systemd/user/mycel.service")
}

/// The daemon's log file: `<home>/.cache/mycel/daemon.log`.
pub fn log_path(home: &str) -> (r: String)
    ensures
        r@ == join_spec(home@, ".cache/mycel/daemon.log"@),
{
    join(home, ".cache/mycel/daemon.log")
}

/// mise's shims, put on the daemon's PATH: `<home>/.local/share/mise/shims`.
pub fn mise_shims_path(home: &str) -> (r: String)
    ensures
        r@ == join_spec(home@, ".local/share/mise/shims"@),
{
    join(home, ".local/share/mise/shims")
}

/// `s` with every non-overlapping occurrence of `pat` replaced by `with`,
/// scanning left to right (`str::replace` with a non-empty pattern).
pub open spec fn replace_spec(s: Seq<char>, pat: Seq<char>, with: Seq<char>) -> Seq<char>
    decreases s.len(),
{
    if pat.len() == 0 || s.len() < pat.len() {
        s
    } else if s.take(pat.len() as int) == pat {
        with + replace_spec(s.skip(pat.len() as int), pat, with)
    } else {
        seq![s[0]] + replace_spec(s.skip(1), pat, with)
    }
}

fn replace_all(s: &str, pat: &str, with: &str) -> (r: String)
    requires
        pat@.len() > 0,
    ensures
        r@ == replace_spec(s@, pat@, with@),
{
    let cs = chars_of(s);
    let cp = chars_of(pat);
    let n = cs.len();
    let m = cp.len();
    let mut out = String::new();
    let mut i: usize = 0;
    assert(cs@.skip(0) =~= cs@);
    while i < n
        invariant
            i <= n,
            n == cs@.len(),
            m == cp@.len(),
            m > 0,
            cs@ == s@,
            cp@ == pat@,
            replace_spec(s@, pat@, with@) == out@ + replace_spec(cs@.skip(i as int), pat@, with@),
        decreases n - i,
    {
        let ghost rest = cs@.skip(i as int);
        if n - i >= m {
            let mut k: usize = 0;
            while k < m && cs[i + k] == cp[k]
                invariant
                    k <= m,
                    i + m <= n,
                    n == cs@.len(),
                    m == cp@.len(),
                    forall|j: int| 0 <= j < k ==> cs@[i + j] == cp@[j],
                decreases m - k,
            {
                k = k + 1;
            }
            if k == m {
                assert(rest.take(m as int) =~= cp@);
                assert(rest.skip(m as int) =~= cs@.skip(i + m));
                push_str(&mut out, with);
                i = i + m;
                continue;
            } else {
                assert(rest.take(m as int)[k as int] != cp@[k as int]);
            }
        }
        assert(rest.skip(1) =~= cs@.skip(i + 1));
        assert(rest[0] == cs@[i as int]);
        crate::text::push_char(&mut out, cs[i]);
        assert(out@ + replace_spec(cs@.skip(i + 1), pat@, with@) =~= (out@.drop_last() + (seq![cs@[i as int]]
            + replace_spec(cs@.skip(i + 1), pat@, with@))));
        i = i + 1;
    }
    assert(replace_spec(cs@.skip(i as int), pat@, with@) =~= Seq::<char>::empty());
    assert(out@ + Seq::<char>::empty() =~= out@);
    out
}

/// The launchd agent: the template with its binary, log and mise
/// placeholders filled in, in that order.
pub fn render_launchd(template: &str, binary: &str, log: &str, shims: &str) -> (r: String)
    ensures
        r@ == replace_spec(
            replace_spec(replace_spec(template@, "__BINARY_PATH__"@, binary@), "__LOG_PATH__"@, log@),
            "__MISE_SHIMS__"@,
            shims@,
        ),
{
    proof {
        reveal_strlit("__BINARY_PATH__");
        reveal_strlit("__LOG_PATH__");
        reveal_strlit("__MISE_SHIMS__");
    }
    let a = replace_all(template, "__BINARY_PATH__", binary);
    let b = replace_all(a.as_str(), "__LOG_PATH__", log);
    replace_all(b.as_str(), "__MISE_SHIMS__", shims)
}

/// The systemd unit: the template with its binary, log, mise and repository
/// placeholders filled in, in that order.
pub fn render_systemd(template: &str, binary: &str, log: &str, shims: &str, repo: &str) -> (r: String)
    ensures
        r@ == replace_spec(
            replace_spec(
                replace_spec(replace_spec(template@, "__BINARY_PATH__"@, binary@), "__LOG_PATH__"@, log@),
                "__MISE_SHIMS__"@,
                shims@,
            ),
            "__REPO__"@,
            repo@,
        ),
{
    proof {
        reveal_strlit("__REPO__");
    }
    let a = render_launchd(template, binary, log, shims);
    replace_all(a.as_str(), "__REPO__", repo)
}

/// The command that starts the bridge: the default bridge script of the
/// repository (`python3 <repo>/scripts/multilspy_bridge.py`) when the
/// configured command is the default one, else the configured command.
pub fn bridge_command(configured: &str, default_command: &str, canonical_repo: &str) -> (r: String)
    ensures
        configured@ == default_command@ ==> r@ == "python3 "@ + canonical_repo@ + "/scripts/multilspy_bridge.py"@,
        configured@ != default_command@ ==> r@ == configured@,
{
    if str_eq(configured, default_command) {
        let mut r = string_of("python3 ");
        push_str(&mut r, canonical_repo);
        push_str(&mut r, "/scripts/multilspy_bridge.py");
        r
    } else {
        string_of(configured)
    }
}

} // verus!
