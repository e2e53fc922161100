//! Where zoid keeps things on disk: the data, config and cache directories
//! resolved from an environment snapshot, and the ordered search lists for
//! skill and mode folders. Pure path arithmetic over Unix path strings; the
//! filesystem is never touched here.

use crate::text::{chars_of, extend_chars, string_of};
use vstd::prelude::*;

verus! {

/// `Path::join` on Unix: an absolute `p` replaces `base`; otherwise a `/` is
/// inserted unless `base` is empty or already ends in one.
pub open spec fn path_join(base: Seq<char>, p: Seq<char>) -> Seq<char> {
    if p.len() > 0 && p[0] == '/' {
        p
    } else if base.len() == 0 || base.last() == '/' {
        base + p
    } else {
        base + seq!['/'] + p
    }
}

/// `base.join(p)` for Unix path strings.
pub fn join(base: &str, p: &str) -> (r: String)
    ensures
        r@ == path_join(base@, p@),
{
    let pc = chars_of(p);
    if pc.len() > 0 && pc[0] == '/' {
        return String::from_str(p);
    }
    let mut out = chars_of(base);
    if !(out.len() == 0 || out[out.len() - 1] == '/') {
        out.push('/');
    }
    let ghost mid = out@;
    extend_chars(&mut out, &pc);
    proof {
        if !(base@.len() == 0 || base@.last() == '/') {
            assert(mid =~= base@ + seq!['/']);
        }
    }
    string_of(&out)
}

/// The view of an optional string.
pub open spec fn opt_view(o: Option<String>) -> Option<Seq<char>> {
    match o {
        Some(s) => Some(s@),
        None => None,
    }
}

/// `Option::filter(|s| !s.is_empty())` on a viewed string.
pub open spec fn non_empty(o: Option<Seq<char>>) -> Option<Seq<char>> {
    match o {
        Some(s) => if s.len() > 0 {
            Some(s)
        } else {
            None
        },
        None => None,
    }
}

/// The first binding of `k` in a list of (name, value) pairs.
pub open spec fn env_lookup(vars: Seq<(Seq<char>, Seq<char>)>, k: Seq<char>) -> Option<Seq<char>>
    decreases vars.len(),
{
    if vars.len() == 0 {
        None
    } else if vars[0].0 == k {
        Some(vars[0].1)
    } else {
        env_lookup(vars.drop_first(), k)
    }
}

/// A snapshot of environment variables as (name, value) pairs; a name bound
/// more than once reads as its first binding.
pub struct Env {
    pub vars: Vec<(String, String)>,
}

impl Env {
    /// The variables as viewed pairs.
    pub open spec fn pairs(&self) -> Seq<(Seq<char>, Seq<char>)> {
        self.vars@.map_values(|p: (String, String)| (p.0@, p.1@))
    }

    /// The value of `k`, if set.
    pub open spec fn lookup(&self, k: Seq<char>) -> Option<Seq<char>> {
        env_lookup(self.pairs(), k)
    }

    /// A snapshot of the given pairs.
    pub fn new(vars: Vec<(String, String)>) -> (r: Self)
        ensures
            r.vars@ == vars@,
    {
        Env { vars }
    }

    /// The value of `key`, if set.
    pub fn get(&self, key: &str) -> (r: Option<String>)
        ensures
            opt_view(r) == self.lookup(key@),
    {
        let k = chars_of(key);
        let mut i: usize = 0;
        let ghost ps = self.pairs();
        assert(ps.subrange(0, ps.len() as int) =~= ps);
        while i < self.vars.len()
            invariant
                i <= self.vars@.len(),
                ps == self.pairs(),
                k@ == key@,
                env_lookup(ps, key@) == env_lookup(ps.subrange(i as int, ps.len() as int), key@),
            decreases self.vars@.len() - i,
        {
            let ghost rest = ps.subrange(i as int, ps.len() as int);
            assert(rest.drop_first() =~= ps.subrange(i + 1, ps.len() as int));
            assert(rest[0] == (self.vars@[i as int].0@, self.vars@[i as int].1@));
            let name = chars_of(self.vars[i].0.as_str());
            if crate::text::chars_eq(&name, &k) {
                return Some(self.vars[i].1.clone());
            }
            i += 1;
        }
        None
    }

    /// `get(key)` with an empty value read as unset.
    pub fn get_non_empty(&self, key: &str) -> (r: Option<String>)
        ensures
            opt_view(r) == non_empty(self.lookup(key@)),
    {
        match self.get(key) {
            Some(v) => if v.as_str().is_empty() {
                None
            } else {
                Some(v)
            },
            None => None,
        }
    }
}

/// The home directory: a non-empty `HOME`, else a non-empty `USERPROFILE`.
pub open spec fn home_of(env: &Env) -> Option<Seq<char>> {
    match non_empty(env.lookup("HOME"@)) {
        Some(h) => Some(h),
        None => non_empty(env.lookup("USERPROFILE"@)),
    }
}

/// The home directory, or the empty path when neither variable is set.
pub open spec fn home_or_empty(env: &Env) -> Seq<char> {
    match home_of(env) {
        Some(h) => h,
        None => Seq::empty(),
    }
}

/// The XDG base named `var`, else `<home>/<fallback>`.
pub open spec fn xdg_base(env: &Env, var: Seq<char>, fallback: Seq<char>) -> Seq<char> {
    match non_empty(env.lookup(var)) {
        Some(b) => b,
        None => path_join(home_or_empty(env), fallback),
    }
}

/// Resolve the user's home directory: `HOME` (Unix, Git Bash) then
/// `USERPROFILE` (native Windows); empty values count as unset.
pub fn home_dir(env: &Env) -> (r: Option<String>)
    ensures
        opt_view(r) == home_of(env),
{
    match env.get_non_empty("HOME") {
        Some(h) => Some(h),
        None => env.get_non_empty("USERPROFILE"),
    }
}

fn home_string(env: &Env) -> (r: String)
    ensures
        r@ == home_or_empty(env),
{
    match home_dir(env) {
        Some(h) => h,
        None => String::new(),
    }
}

fn xdg_base_dir(env: &Env, var: &str, fallback: &str) -> (r: String)
    ensures
        r@ == xdg_base(env, var@, fallback@),
{
    match env.get_non_empty(var) {
        Some(b) => b,
        None => {
            let h = home_string(env);
            join(h.as_str(), fallback)
        },
    }
}

/// zoid's data directory: `$XDG_DATA_HOME/zoid` > `<home>/.local/share/zoid`.
pub open spec fn data_dir_of(env: &Env) -> Seq<char> {
    path_join(xdg_base(env, "XDG_DATA_HOME"@, ".local/share"@), "zoid"@)
}

/// The database path: `$ZOID_DB` when set at all, else `zoid.db` in the
/// data directory.
pub open spec fn db_path_of(env: &Env) -> Seq<char> {
    match env.lookup("ZOID_DB"@) {
        Some(p) => p,
        None => path_join(data_dir_of(env), "zoid.db"@),
    }
}

/// The secret-key path: `secret.key` in the data directory.
pub open spec fn secret_key_path_of(env: &Env) -> Seq<char> {
    path_join(data_dir_of(env), "secret.key"@)
}

/// The database path: `$ZOID_DB` (set at all) > `$XDG_DATA_HOME/zoid/zoid.db`
/// > `<home>/.local/share/zoid/zoid.db`.
pub fn resolve_db_path(env: &Env) -> (r: String)
    ensures
        r@ == db_path_of(env),
{
    if let Some(p) = env.get("ZOID_DB") {
        return p;
    }
    let base = xdg_base_dir(env, "XDG_DATA_HOME", ".local/share");
    let z = join(base.as_str(), "zoid");
    join(z.as_str(), "zoid.db")
}

/// The config directory: `$XDG_CONFIG_HOME/zoid` > `<home>/.config/zoid`.
pub fn resolve_config_dir(env: &Env) -> (r: String)
    ensures
        r@ == path_join(xdg_base(env, "XDG_CONFIG_HOME"@, ".config"@), "zoid"@),
{
    let base = xdg_base_dir(env, "XDG_CONFIG_HOME", ".config");
    join(base.as_str(), "zoid")
}

/// The cache directory: `$XDG_CACHE_HOME/zoid` > `<home>/.cache/zoid` >
/// `.cache/zoid` when no home is known.
pub fn resolve_cache_dir(env: &Env) -> (r: String)
    ensures
        r@ == path_join(
            match non_empty(env.lookup("XDG_CACHE_HOME"@)) {
                Some(b) => b,
                None => match home_of(env) {
                    Some(h) => path_join(h, ".cache"@),
                    None => ".cache"@,
                },
            },
            "zoid"@,
        ),
{
    let base = match env.get_non_empty("XDG_CACHE_HOME") {
        Some(b) => b,
        None => match home_dir(env) {
            Some(h) => join(h.as_str(), ".cache"),
            None => String::from_str(".cache"),
        },
    };
    join(base.as_str(), "zoid")
}

/// The secret-key path: `$XDG_DATA_HOME/zoid/secret.key` >
/// `<home>/.local/share/zoid/secret.key`.
pub fn resolve_secret_key_path(env: &Env) -> (r: String)
    ensures
        r@ == secret_key_path_of(env),
{
    let base = xdg_base_dir(env, "XDG_DATA_HOME", ".local/share");
    let z = join(base.as_str(), "zoid");
    join(z.as_str(), "secret.key")
}

/// The data directory `zoid uninstall` removes: derived from the XDG data
/// base, never from `$ZOID_DB`.
pub fn resolve_data_dir(env: &Env) -> (r: String)
    ensures
        r@ == data_dir_of(env),
{
    let base = xdg_base_dir(env, "XDG_DATA_HOME", ".local/share");
    join(base.as_str(), "zoid")
}

/// The data directory `zoid uninstall` removes holds the secret key and,
/// unless `$ZOID_DB` moves it, the database; `$ZOID_DB` never moves the
/// directory itself.
pub proof fn lemma_data_dir_holds_db_and_key(env: &Env, other: &Env)
    requires
        forall|k: Seq<char>| k != "ZOID_DB"@ ==> #[trigger] env.lookup(k) == other.lookup(k),
    ensures
        secret_key_path_of(env) == path_join(data_dir_of(env), "secret.key"@),
        env.lookup("ZOID_DB"@) is None ==> db_path_of(env) == path_join(data_dir_of(env), "zoid.db"@),
        data_dir_of(env) == data_dir_of(other),
{
    reveal_strlit("ZOID_DB");
    reveal_strlit("XDG_DATA_HOME");
    reveal_strlit("HOME");
    reveal_strlit("USERPROFILE");
    assert("XDG_DATA_HOME"@.len() != "ZOID_DB"@.len());
    assert("HOME"@.len() != "ZOID_DB"@.len());
    assert(env.lookup("XDG_DATA_HOME"@) == other.lookup("XDG_DATA_HOME"@));
    assert(env.lookup("HOME"@) == other.lookup("HOME"@));
    assert(env.lookup("USERPROFILE"@) == other.lookup("USERPROFILE"@));
}

/// A leading `~` or `~/` expanded against `home` (when known).
pub open spec fn tilde_expanded(s: Seq<char>, home: Option<Seq<char>>) -> Seq<char> {
    match home {
        Some(h) => if s == "~"@ {
            h
        } else if s.len() >= 2 && s[0] == '~' && s[1] == '/' {
            path_join(h, s.subrange(2, s.len() as int))
        } else {
            s
        },
        None => s,
    }
}

/// Expand a leading `~` / `~/` against `home`; other strings are unchanged.
pub fn expand_tilde(s: &str, home: Option<&str>) -> (r: String)
    ensures
        r@ == tilde_expanded(
            s@,
            match home {
                Some(h) => Some(h@),
                None => None,
            },
        ),
{
    proof {
        reveal_strlit("~");
    }
    if let Some(h) = home {
        let c = chars_of(s);
        if c.len() == 1 && c[0] == '~' {
            assert(s@ =~= "~"@);
            return String::from_str(h);
        }
        if c.len() >= 2 && c[0] == '~' && c[1] == '/' {
            let rest = crate::text::sub_chars(&c, 2, c.len());
            let rs = string_of(&rest);
            return join(h, rs.as_str());
        }
        assert(s@ != "~"@);
    }
    String::from_str(s)
}

/// The ordered search list: `<user_cfg_dir>/<sub>`, `<cwd>/.zoid/<sub>`, then
/// each configured source dir with `~` expanded.
pub open spec fn search_dirs(
    sub: Seq<char>,
    source_dirs: Seq<Seq<char>>,
    user_cfg_dir: Seq<char>,
    cwd: Seq<char>,
    home: Option<Seq<char>>,
) -> Seq<Seq<char>> {
    seq![path_join(user_cfg_dir, sub), path_join(path_join(cwd, ".zoid"@), sub)] + source_dirs.map_values(
        |s: Seq<char>| tilde_expanded(s, home),
    )
}

fn resolve_dirs(
    sub: &str,
    source_dirs: &[String],
    user_cfg_dir: &str,
    cwd: &str,
    home: Option<&str>,
) -> (r: Vec<String>)
    ensures
        r@.map_values(|d: String| d@) == search_dirs(
            sub@,
            source_dirs@.map_values(|d: String| d@),
            user_cfg_dir@,
            cwd@,
            match home {
                Some(h) => Some(h@),
                None => None,
            },
        ),
{
    let ghost hv = match home {
        Some(h) => Some(h@),
        None => None,
    };
    let mut dirs: Vec<String> = Vec::new();
    let d0 = join(user_cfg_dir, sub);
    let dz = join(cwd, ".zoid");
    let d1 = join(dz.as_str(), sub);
    dirs.push(d0);
    dirs.push(d1);
    assert(dirs@[0]@ == path_join(user_cfg_dir@, sub@));
    assert(dirs@[1]@ == path_join(path_join(cwd@, ".zoid"@), sub@));
    let ghost head = seq![path_join(user_cfg_dir@, sub@), path_join(path_join(cwd@, ".zoid"@), sub@)];
    assert(dirs@.map_values(|d: String| d@) =~= head);
    let mut i: usize = 0;
    while i < source_dirs.len()
        invariant
            i <= source_dirs@.len(),
            hv == match home {
                Some(h) => Some(h@),
                None => None,
            },
            dirs@.map_values(|d: String| d@) =~= head + source_dirs@.subrange(0, i as int).map_values(
                |d: String| tilde_expanded(d@, hv),
            ),
        decreases source_dirs@.len() - i,
    {
        let e = expand_tilde(source_dirs[i].as_str(), home);
        assert(e@ == tilde_expanded(source_dirs@[i as int]@, hv));
        let ghost before = dirs@;
        dirs.push(e);
        assert(source_dirs@.subrange(0, i + 1) =~= source_dirs@.subrange(0, i as int).push(
            source_dirs@[i as int],
        ));
        assert(dirs@.map_values(|d: String| d@) =~= before.map_values(|d: String| d@).push(e@));
        i += 1;
        assert(dirs@.map_values(|d: String| d@) =~= head + source_dirs@.subrange(
            0,
            i as int,
        ).map_values(|d: String| tilde_expanded(d@, hv)));
    }
    assert(source_dirs@.subrange(0, i as int) =~= source_dirs@);
    assert(source_dirs@.map_values(|d: String| tilde_expanded(d@, hv)) =~= source_dirs@.map_values(
        |d: String| d@,
    ).map_values(|s: Seq<char>| tilde_expanded(s, hv)));
    dirs
}

/// Skill folders to scan: `<cfg>/skills`, `<cwd>/.zoid/skills`, then the
/// configured `source_dirs` (leading `~`/`~/` expanded).
pub fn resolve_skill_dirs(
    source_dirs: &[String],
    user_cfg_dir: &str,
    cwd: &str,
    home: Option<&str>,
) -> (r: Vec<String>)
    ensures
        r@.map_values(|d: String| d@) == search_dirs(
            "skills"@,
            source_dirs@.map_values(|d: String| d@),
            user_cfg_dir@,
            cwd@,
            match home {
                Some(h) => Some(h@),
                None => None,
            },
        ),
{
    resolve_dirs("skills", source_dirs, user_cfg_dir, cwd, home)
}

/// Mode folders to scan: `<cfg>/modes`, `<cwd>/.zoid/modes`, then the
/// configured `source_dirs` (leading `~`/`~/` expanded).
pub fn resolve_mode_dirs(
    source_dirs: &[String],
    user_cfg_dir: &str,
    cwd: &str,
    home: Option<&str>,
) -> (r: Vec<String>)
    ensures
        r@.map_values(|d: String| d@) == search_dirs(
            "modes"@,
            source_dirs@.map_values(|d: String| d@),
            user_cfg_dir@,
            cwd@,
            match home {
                Some(h) => Some(h@),
                None => None,
            },
        ),
{
    resolve_dirs("modes", source_dirs, user_cfg_dir, cwd, home)
}

/// Which `.mcp.json` an MCP server install writes to.
#[derive(Clone, Copy, Debug, PartialEq, Eq, Structural)]
pub enum McpTarget {
    User,
    Project,
}

/// `<config_dir>/mcp.json` for a user install, `<cwd>/.mcp.json` for a
/// project install.
pub fn mcp_target_path(target: McpTarget, config_dir: &str, cwd: &str) -> (r: String)
    ensures
        r@ == match target {
            McpTarget::User => path_join(config_dir@, "mcp.json"@),
            McpTarget::Project => path_join(cwd@, ".mcp.json"@),
        },
{
    match target {
        McpTarget::User => join(config_dir, "mcp.json"),
        McpTarget::Project => join(cwd, ".mcp.json"),
    }
}

/// Which of the mode folders found (in scan order) join the registry: the
/// first mode with each name wins, and none may take the base profile's
/// name.
pub fn keep_first_modes(base_name: &str, names: &Vec<String>) -> (r: Vec<bool>)
    ensures
        r@.len() == names@.len(),
        forall|i: int|
            0 <= i < names@.len() ==> (#[trigger] r@[i] <==> (names@[i]@ != base_name@ && forall|j: int|
                0 <= j < i ==> names@[j]@ != names@[i]@)),
{
    let mut out: Vec<bool> = Vec::new();
    let mut i: usize = 0;
    while i < names.len()
        invariant
            i <= names@.len(),
            out@.len() == i,
            forall|k: int|
                0 <= k < i ==> (#[trigger] out@[k] <==> (names@[k]@ != base_name@ && forall|j: int|
                    0 <= j < k ==> names@[j]@ != names@[k]@)),
        decreases names@.len() - i,
    {
        let c = crate::text::chars_of(names[i].as_str());
        let mut keep = !crate::text::chars_eq(&c, &crate::text::chars_of(base_name));
        let mut j: usize = 0;
        while j < i
            invariant
                j <= i < names@.len(),
                c@ == names@[i as int]@,
                keep <==> (names@[i as int]@ != base_name@ && forall|q: int| 0 <= q < j ==> names@[q]@ != names@[i as int]@),
            decreases i - j,
        {
            if crate::text::chars_eq(&crate::text::chars_of(names[j].as_str()), &c) {
                keep = false;
            }
            j += 1;
        }
        out.push(keep);
        i += 1;
    }
    out
}

} // verus!
