//! Where skhd configuration files are looked for.
//!
//! Reading the environment and the file system is left to the caller, which
//! hands in `HOME` and `XDG_CONFIG_HOME` as read, and which candidates exist.
use vstd::prelude::*;

use crate::models::{spec_display_name, SkhdVariant};
use crate::text::{occurs_at, owned, pieces, seq_contains, split_on, text_of, chars_of};

verus! {

pub open spec fn starts_with_seq(s: Seq<char>, prefix: Seq<char>) -> bool {
    prefix.len() <= s.len() && s.subrange(0, prefix.len() as int) == prefix
}

/// `base` joined with `rest` as `PathBuf::join` does it on Unix: an absolute
/// `rest` replaces `base`; otherwise a separator is put between them unless
/// `base` is empty or already ends with one.
pub open spec fn spec_join(base: Seq<char>, rest: Seq<char>) -> Seq<char> {
    if rest.len() > 0 && rest[0] == '/' {
        rest
    } else if base.len() > 0 && base.last() != '/' {
        base + "/"@ + rest
    } else {
        base + rest
    }
}

pub fn join_path(base: &str, rest: &str) -> (r: String)
    ensures
        r@ == spec_join(base@, rest@),
{
    let b = chars_of(base);
    let r = chars_of(rest);
    if r.len() > 0 && r[0] == '/' {
        owned(rest)
    } else if b.len() > 0 && b[b.len() - 1] != '/' {
        owned(base).concat("/").concat(rest)
    } else {
        owned(base).concat(rest)
    }
}

/// `path` with a leading `~` standing for the home directory, when that is known.
pub open spec fn spec_expand_path(path: Seq<char>, home: Option<Seq<char>>) -> Seq<char> {
    match home {
        Some(h) => if starts_with_seq(path, "~/"@) {
            spec_join(h, path.subrange(2, path.len() as int))
        } else if path == "~"@ {
            h
        } else {
            path
        },
        None => path,
    }
}

pub open spec fn opt_view(o: Option<&str>) -> Option<Seq<char>> {
    match o {
        Some(s) => Some(s@),
        None => None,
    }
}

/// Expands `~/…` and `~` to the home directory; any other path, and any path
/// when the home directory is unknown, is returned as it is.
pub fn expand_path(path: &str, home: Option<&str>) -> (r: String)
    ensures
        r@ == spec_expand_path(path@, opt_view(home)),
{
    let p = chars_of(path);
    match home {
        Some(h) => {
            if p.len() >= 2 && p[0] == '~' && p[1] == '/' {
                proof {
                    reveal_strlit("~/");
                    assert(p@.subrange(0, 2) =~= "~/"@);
                }
                let rest = text_of(path, 2, p.len());
                join_path(h, rest.as_str())
            } else if p.len() == 1 && p[0] == '~' {
                proof {
                    reveal_strlit("~");
                    reveal_strlit("~/");
                    assert(p@ =~= "~"@);
                }
                owned(h)
            } else {
                proof {
                    reveal_strlit("~");
                    reveal_strlit("~/");
                    if p@.len() >= 2 {
                        assert(p@.subrange(0, 2)[0] == p@[0]);
                        assert(p@.subrange(0, 2)[1] == p@[1]);
                    }
                    if p@ == "~"@ {
                        assert(p@[0] == '~');
                    }
                }
                owned(path)
            }
        },
        None => owned(path),
    }
}

pub open spec fn spec_config_dir(home: Option<Seq<char>>) -> Seq<char> {
    spec_expand_path("~/.config/skhd"@, home)
}

/// The directory of skhd configuration files: `~/.config/skhd`, expanded.
pub fn get_config_dir(home: Option<&str>) -> (r: String)
    ensures
        r@ == spec_config_dir(opt_view(home)),
{
    expand_path("~/.config/skhd", home)
}

/// The directory for configuration backups: `~/.config/skhd/backups`, expanded.
pub fn get_backup_dir(home: Option<&str>) -> (r: String)
    ensures
        r@ == spec_expand_path("~/.config/skhd/backups"@, opt_view(home)),
{
    expand_path("~/.config/skhd/backups", home)
}

/// The non-empty pieces of a path other than `.`, in order.
pub open spec fn normal_pieces(ps: Seq<Seq<char>>) -> Seq<Seq<char>>
    decreases ps.len(),
{
    if ps.len() == 0 {
        Seq::empty()
    } else {
        normal_pieces(ps.drop_last()) + if ps.last().len() == 0 || ps.last() == "."@ {
            Seq::<Seq<char>>::empty()
        } else {
            seq![ps.last()]
        }
    }
}

/// The components of a Unix path, as `std::path::Path::components` gives them:
/// the root (written `/`) when the path is absolute, else a leading `.` when the
/// path begins with one; then every piece between `/`s that is neither empty
/// nor `.`.
pub open spec fn path_components(p: Seq<char>) -> Seq<Seq<char>> {
    let ps = pieces(p, 0, '/');
    let lead = if p.len() > 0 && p[0] == '/' {
        seq!["/"@]
    } else if ps.len() > 0 && ps[0] == "."@ {
        seq!["."@]
    } else {
        Seq::empty()
    };
    lead + normal_pieces(ps)
}

/// Whether `path` starts with `base`, component by component, as
/// `std::path::Path::starts_with` decides it: the components of `base` are the
/// first components of `path`.
pub open spec fn path_starts_with(path: Seq<char>, base: Seq<char>) -> bool {
    let c = path_components(path);
    let b = path_components(base);
    b.len() <= c.len() && c.take(b.len() as int) == b
}

/// The components of `path`.
fn components(path: &str) -> (r: Vec<String>)
    ensures
        r.deep_view() == path_components(path@),
{
    let ps = split_on(path, '/');
    let chars = chars_of(path);
    let dot = owned(".");
    proof {
        reveal_strlit(".");
        reveal_strlit("/");
    }
    let mut r: Vec<String> = if chars.len() > 0 && chars[0] == '/' {
        vec![owned("/")]
    } else if ps.len() > 0 && ps[0] == dot {
        vec![owned(".")]
    } else {
        Vec::new()
    };
    let ghost lead = r.deep_view();
    proof {
        assert(ps.deep_view().take(0) =~= Seq::<Seq<char>>::empty());
        assert(lead + normal_pieces(Seq::<Seq<char>>::empty()) =~= lead);
    }
    let mut i: usize = 0;
    while i < ps.len()
        invariant
            i <= ps@.len(),
            dot@ == "."@,
            r.deep_view() == lead + normal_pieces(ps.deep_view().take(i as int)),
        decreases ps@.len() - i,
    {
        let ghost before = r.deep_view();
        proof {
            assert(ps.deep_view().take(i + 1).drop_last() =~= ps.deep_view().take(i as int));
            assert(ps.deep_view().take(i + 1).last() == ps@[i as int]@);
        }
        if ps[i].as_str().unicode_len() == 0 || ps[i] == dot {
            proof {
                assert(before + Seq::<Seq<char>>::empty() =~= before);
            }
        } else {
            r.push(ps[i].clone());
            proof {
                assert(r.deep_view() =~= before.push(ps@[i as int]@));
                assert(lead + (normal_pieces(ps.deep_view().take(i as int)) + seq![ps@[i as int]@])
                    =~= before.push(ps@[i as int]@));
            }
        }
        i = i + 1;
    }
    proof {
        assert(ps.deep_view().take(ps@.len() as int) =~= ps.deep_view());
    }
    r
}

/// Whether `path` starts with `base`, component by component.
pub fn starts_with_path(path: &str, base: &str) -> (r: bool)
    ensures
        r == path_starts_with(path@, base@),
{
    let c = components(path);
    let b = components(base);
    if b.len() > c.len() {
        return false;
    }
    let mut j: usize = 0;
    while j < b.len()
        invariant
            b@.len() <= c@.len(),
            j <= b@.len(),
            c.deep_view() == path_components(path@),
            b.deep_view() == path_components(base@),
            forall|k: int| 0 <= k < j ==> c.deep_view()[k] == b.deep_view()[k],
        decreases b@.len() - j,
    {
        if c[j] != b[j] {
            assert(c.deep_view().take(b@.len() as int)[j as int] != b.deep_view()[j as int]);
            return false;
        }
        j = j + 1;
    }
    assert(c.deep_view().take(b@.len() as int) =~= b.deep_view());
    true
}

/// The components of a path once `.`, empty components and `..` are resolved
/// lexically: `..` drops the component before it; at the root of an absolute
/// path it is dropped itself, and at the start of a relative path it is kept.
pub open spec fn resolve(comps: Seq<Seq<char>>, absolute: bool) -> Seq<Seq<char>>
    decreases comps.len(),
{
    if comps.len() == 0 {
        Seq::empty()
    } else {
        let prev = resolve(comps.drop_last(), absolute);
        let c = comps.last();
        if c.len() == 0 || c == "."@ {
            prev
        } else if c == ".."@ {
            if prev.len() > 0 && prev.last() != ".."@ {
                prev.drop_last()
            } else if absolute {
                prev
            } else {
                prev.push(c)
            }
        } else {
            prev.push(c)
        }
    }
}

/// Components joined with `/`.
pub open spec fn join_components(parts: Seq<Seq<char>>) -> Seq<char>
    decreases parts.len(),
{
    if parts.len() == 0 {
        Seq::empty()
    } else if parts.len() == 1 {
        parts[0]
    } else {
        join_components(parts.drop_last()) + "/"@ + parts.last()
    }
}

/// A path with `.`, repeated `/` and `..` resolved lexically (no link is followed).
pub open spec fn normalized(path: Seq<char>) -> Seq<char> {
    let absolute = path.len() > 0 && path[0] == '/';
    let r = join_components(resolve(pieces(path, 0, '/'), absolute));
    if absolute {
        "/"@ + r
    } else {
        r
    }
}

/// `path` with `.`, repeated `/` and `..` resolved lexically.
pub fn normalize(path: &str) -> (r: String)
    ensures
        r@ == normalized(path@),
{
    let comps = split_on(path, '/');
    let chars = chars_of(path);
    let absolute = chars.len() > 0 && chars[0] == '/';
    let dot = owned(".");
    let dotdot = owned("..");
    let mut stack: Vec<String> = Vec::new();
    let mut i: usize = 0;
    while i < comps.len()
        invariant
            i <= comps@.len(),
            dot@ == "."@,
            dotdot@ == ".."@,
            stack.deep_view() == resolve(comps.deep_view().take(i as int), absolute),
        decreases comps@.len() - i,
    {
        let ghost prev = stack.deep_view();
        proof {
            assert(comps.deep_view().take(i + 1).drop_last() =~= comps.deep_view().take(i as int));
            assert(comps.deep_view().take(i + 1).last() == comps@[i as int]@);
        }
        let c = &comps[i];
        if c.as_str().unicode_len() == 0 || *c == dot {
        } else if *c == dotdot {
            if stack.len() > 0 && stack[stack.len() - 1] != dotdot {
                stack.pop();
                proof {
                    assert(stack.deep_view() =~= prev.drop_last());
                }
            } else if !absolute {
                stack.push(c.clone());
                proof {
                    assert(stack.deep_view() =~= prev.push(comps@[i as int]@));
                }
            }
        } else {
            stack.push(c.clone());
            proof {
                assert(stack.deep_view() =~= prev.push(comps@[i as int]@));
            }
        }
        i = i + 1;
    }
    proof {
        assert(comps.deep_view().take(comps@.len() as int) =~= comps.deep_view());
    }
    let mut joined = owned("");
    proof {
        reveal_strlit("");
    }
    let mut k: usize = 0;
    while k < stack.len()
        invariant
            k <= stack@.len(),
            joined@ == join_components(stack.deep_view().take(k as int)),
        decreases stack@.len() - k,
    {
        proof {
            assert(stack.deep_view().take(k + 1).drop_last() =~= stack.deep_view().take(k as int));
        }
        if k == 0 {
            joined = owned(stack[0].as_str());
            proof {
                assert(stack.deep_view().take(1) =~= seq![stack@[0]@]);
            }
        } else {
            joined = joined.concat("/").concat(stack[k].as_str());
        }
        k = k + 1;
    }
    proof {
        assert(stack.deep_view().take(stack@.len() as int) =~= stack.deep_view());
    }
    if absolute {
        owned("/").concat(joined.as_str())
    } else {
        joined
    }
}

/// Whether `path`, once expanded and with `..` resolved, lies within the
/// configuration directory.
pub fn is_valid_config_path(path: &str, home: Option<&str>) -> (r: bool)
    ensures
        r == path_starts_with(
            normalized(spec_expand_path(path@, opt_view(home))),
            normalized(spec_config_dir(opt_view(home))),
        ),
{
    let expanded = normalize(expand_path(path, home).as_str());
    let dir = normalize(get_config_dir(home).as_str());
    starts_with_path(expanded.as_str(), dir.as_str())
}

/// The configuration directory a variant-independent search starts from:
/// `XDG_CONFIG_HOME` when set and not empty, else `<home>/.config`.
pub open spec fn config_home(home: Seq<char>, xdg: Option<Seq<char>>) -> Seq<char> {
    match xdg {
        Some(x) => if x.len() > 0 {
            x
        } else {
            home + "/.config"@
        },
        None => home + "/.config"@,
    }
}

/// The search order: `<config home>/skhd/skhdrc`, `<home>/.config/skhd/skhdrc`,
/// `<home>/.skhdrc`, the first left out when it equals the second.
pub open spec fn spec_config_paths(home: Seq<char>, xdg: Option<Seq<char>>) -> Seq<Seq<char>> {
    let p0 = config_home(home, xdg) + "/skhd/skhdrc"@;
    let p1 = home + "/.config/skhd/skhdrc"@;
    let p2 = home + "/.skhdrc"@;
    if p0 == p1 {
        seq![p1, p2]
    } else {
        seq![p0, p1, p2]
    }
}

/// The configuration files searched for, in order, with no entry repeated.
pub fn config_paths(home: &str, xdg_config_home: Option<&str>) -> (r: Vec<String>)
    ensures
        r.deep_view() == spec_config_paths(home@, opt_view(xdg_config_home)),
{
    let default_home = owned(home).concat("/.config");
    let config_home = match xdg_config_home {
        Some(x) => if chars_of(x).len() > 0 {
            owned(x)
        } else {
            default_home
        },
        None => default_home,
    };
    let p0 = config_home.concat("/skhd/skhdrc");
    let p1 = owned(home).concat("/.config/skhd/skhdrc");
    let p2 = owned(home).concat("/.skhdrc");
    let r = if p0 == p1 {
        vec![p1, p2]
    } else {
        vec![p0, p1, p2]
    };
    proof {
        assert(r.deep_view() =~= spec_config_paths(home@, opt_view(xdg_config_home)));
    }
    r
}

/// The paths searched for a variant; an unknown home directory is written `~`.
pub fn get_config_paths_for_variant(_variant: SkhdVariant, home: Option<&str>, xdg_config_home: Option<&str>) -> (r: Vec<String>)
    ensures
        r.deep_view() == spec_config_paths(
            match home {
                Some(h) => h@,
                None => "~"@,
            },
            opt_view(xdg_config_home),
        ),
{
    match home {
        Some(h) => config_paths(h, xdg_config_home),
        None => config_paths("~", xdg_config_home),
    }
}

/// The first path marked as existing, in search order.
pub open spec fn first_existing(paths: Seq<Seq<char>>, exists: Seq<bool>) -> Option<Seq<char>>
    decreases paths.len(),
{
    if paths.len() == 0 || exists.len() == 0 {
        None
    } else if exists[0] {
        Some(paths[0])
    } else {
        first_existing(paths.drop_first(), exists.drop_first())
    }
}

/// The first of `paths` whose entry in `exists` is true.
pub fn first_existing_config_path(paths: &Vec<String>, exists: &Vec<bool>) -> (r: Option<String>)
    requires
        paths@.len() == exists@.len(),
    ensures
        r.deep_view() == first_existing(paths.deep_view(), exists@),
{
    let mut i: usize = 0;
    proof {
        assert(paths.deep_view().skip(0) =~= paths.deep_view());
        assert(exists@.skip(0) =~= exists@);
    }
    while i < paths.len()
        invariant
            paths@.len() == exists@.len(),
            i <= paths@.len(),
            first_existing(paths.deep_view(), exists@) == first_existing(
                paths.deep_view().skip(i as int),
                exists@.skip(i as int),
            ),
        decreases paths@.len() - i,
    {
        proof {
            assert(paths.deep_view().skip(i as int).drop_first() =~= paths.deep_view().skip(i + 1));
            assert(exists@.skip(i as int).drop_first() =~= exists@.skip(i + 1));
        }
        if exists[i] {
            return Some(paths[i].clone());
        }
        i = i + 1;
    }
    None
}

/// Lines `- <path>`, one per path, separated by line feeds.
pub open spec fn bullet_list(paths: Seq<Seq<char>>) -> Seq<char>
    decreases paths.len(),
{
    if paths.len() == 0 {
        Seq::empty()
    } else if paths.len() == 1 {
        "- "@ + paths[0]
    } else {
        bullet_list(paths.drop_last()) + "\n"@ + "- "@ + paths.last()
    }
}

pub open spec fn spec_config_path_error(v: SkhdVariant, paths: Seq<Seq<char>>) -> Seq<char> {
    "No "@ + spec_display_name(v) + " configuration file found. Searched in:\n"@ + bullet_list(
        paths,
    ) + "\nCreate a configuration file in one of these locations."@
}

fn bullets(paths: &Vec<String>) -> (r: String)
    ensures
        r@ == bullet_list(paths.deep_view()),
{
    let mut r = owned("");
    let mut i: usize = 0;
    proof {
        reveal_strlit("");
    }
    while i < paths.len()
        invariant
            i <= paths@.len(),
            r@ == bullet_list(paths.deep_view().take(i as int)),
        decreases paths@.len() - i,
    {
        proof {
            assert(paths.deep_view().take(i + 1).drop_last() =~= paths.deep_view().take(i as int));
        }
        if i == 0 {
            r = owned("- ").concat(paths[i].as_str());
        } else {
            r = r.concat("\n").concat("- ").concat(paths[i].as_str());
        }
        i = i + 1;
    }
    proof {
        assert(paths.deep_view().take(paths@.len() as int) =~= paths.deep_view());
    }
    r
}

/// The message for a search that found no configuration file: it names the
/// variant and lists every path searched.
pub fn config_path_error(variant: SkhdVariant, paths: &Vec<String>) -> (r: String)
    ensures
        r@ == spec_config_path_error(variant, paths.deep_view()),
{
    let r = owned("No ");
    let r = r.concat(variant.display_name());
    let r = r.concat(" configuration file found. Searched in:\n");
    let b = bullets(paths);
    let r = r.concat(b.as_str());
    r.concat("\nCreate a configuration file in one of these locations.")
}

/// The first existing configuration file of the search, or a message listing
/// every path searched.
pub fn get_config_path_for_variant(variant: SkhdVariant, paths: &Vec<String>, exists: &Vec<bool>) -> (r: Result<String, String>)
    requires
        paths@.len() == exists@.len(),
    ensures
        match r {
            Ok(p) => first_existing(paths.deep_view(), exists@) == Some(p@),
            Err(m) => first_existing(paths.deep_view(), exists@) is None && m@
                == spec_config_path_error(variant, paths.deep_view()),
        },
{
    match first_existing_config_path(paths, exists) {
        Some(p) => Ok(p),
        None => Err(config_path_error(variant, paths)),
    }
}

/// The configuration file for a variant, from the environment: with `HOME`
/// unset, a message saying so; otherwise the first existing path of
/// `config_paths(home, XDG_CONFIG_HOME)` (`exists` says which exist), or a
/// message listing every path searched.
pub fn config_path_from_env(
    variant: SkhdVariant,
    home: Option<&str>,
    xdg_config_home: Option<&str>,
    exists: &Vec<bool>,
) -> (r: Result<String, String>)
    requires
        home matches Some(h) ==> exists@.len() == spec_config_paths(h@, opt_view(xdg_config_home)).len(),
    ensures
        match home {
            None => r matches Err(m) && m@ == config_home_unset(),
            Some(h) => {
                let ps = spec_config_paths(h@, opt_view(xdg_config_home));
                match first_existing(ps, exists@) {
                    Some(p) => r matches Ok(q) && q@ == p,
                    None => r matches Err(m) && m@ == spec_config_path_error(variant, ps),
                }
            },
        },
{
    match home {
        None => Err(
            owned(
                "Failed to get HOME environment variable. This is required to locate the skhd configuration.",
            ),
        ),
        Some(h) => {
            let ps = config_paths(h, xdg_config_home);
            get_config_path_for_variant(variant, &ps, exists)
        },
    }
}

/// The candidates for the default configuration file: `<XDG_CONFIG_HOME>/skhd/skhdrc`
/// when that variable is set, then `~/.config/skhd/skhdrc` and `~/.skhdrc`, expanded.
pub open spec fn spec_default_candidates(home: Option<Seq<char>>, xdg: Option<Seq<char>>) -> Seq<Seq<char>> {
    let rest = seq![
        spec_expand_path("~/.config/skhd/skhdrc"@, home),
        spec_expand_path("~/.skhdrc"@, home),
    ];
    match xdg {
        Some(x) => seq![spec_join(x, "skhd/skhdrc"@)] + rest,
        None => rest,
    }
}

pub fn default_config_candidates(home: Option<&str>, xdg_config_home: Option<&str>) -> (r: Vec<String>)
    ensures
        r.deep_view() == spec_default_candidates(opt_view(home), opt_view(xdg_config_home)),
        r@.len() >= 2,
{
    let a = expand_path("~/.config/skhd/skhdrc", home);
    let b = expand_path("~/.skhdrc", home);
    let r = match xdg_config_home {
        Some(x) => vec![join_path(x, "skhd/skhdrc"), a, b],
        None => vec![a, b],
    };
    proof {
        assert(r.deep_view() =~= spec_default_candidates(opt_view(home), opt_view(xdg_config_home)));
    }
    r
}

/// The first existing candidate, else `~/.config/skhd/skhdrc` (the next-to-last
/// candidate) as the place for a new configuration.
pub fn get_default_config_path(candidates: &Vec<String>, exists: &Vec<bool>) -> (r: String)
    requires
        candidates@.len() == exists@.len(),
        candidates@.len() >= 2,
    ensures
        r@ == match first_existing(candidates.deep_view(), exists@) {
            Some(p) => p,
            None => candidates.deep_view()[candidates@.len() - 2],
        },
{
    match first_existing_config_path(candidates, exists) {
        Some(p) => p,
        None => candidates[candidates.len() - 2].clone(),
    }
}

// ------------------------------------------------------------------
// The service manager's own searches
// ------------------------------------------------------------------

/// The launchd plist of the original skhd.
pub fn plist_path_original(home: &str) -> (r: String)
    ensures
        r@ == home@ + "/Library/LaunchAgents/com.koekeishiya.skhd.plist"@,
{
    owned(home).concat("/Library/LaunchAgents/com.koekeishiya.skhd.plist")
}

/// The configuration directory skhd.zig uses: `XDG_CONFIG_HOME` when set, else `<home>/.config`.
pub open spec fn zig_config_home(home: Seq<char>, xdg: Option<Seq<char>>) -> Seq<char> {
    match xdg {
        Some(x) => x,
        None => home + "/.config"@,
    }
}

/// The files a variant's service may read its configuration from, in order.
pub open spec fn spec_service_config_candidates(
    v: SkhdVariant,
    home: Seq<char>,
    xdg: Option<Seq<char>>,
) -> Seq<Seq<char>> {
    let common = seq![home + "/.config/skhd/skhdrc"@, home + "/.skhdrc"@];
    match v {
        SkhdVariant::Original => common,
        SkhdVariant::Zig => seq![zig_config_home(home, xdg) + "/skhd/skhdrc"@] + common,
    }
}

pub fn service_config_candidates(v: SkhdVariant, home: &str, xdg_config_home: Option<&str>) -> (r:
    Vec<String>)
    ensures
        r.deep_view() == spec_service_config_candidates(v, home@, opt_view(xdg_config_home)),
{
    let a = owned(home).concat("/.config/skhd/skhdrc");
    let b = owned(home).concat("/.skhdrc");
    let r = match v {
        SkhdVariant::Original => vec![a, b],
        SkhdVariant::Zig => {
            let x = match xdg_config_home {
                Some(x) => owned(x),
                None => owned(home).concat("/.config"),
            };
            vec![x.concat("/skhd/skhdrc"), a, b]
        },
    };
    proof {
        assert(r.deep_view() =~= spec_service_config_candidates(v, home@, opt_view(xdg_config_home)));
    }
    r
}

pub open spec fn spec_service_config_missing(
    v: SkhdVariant,
    home: Seq<char>,
    xdg: Option<Seq<char>>,
) -> Seq<char> {
    match v {
        SkhdVariant::Original => "No skhd configuration file found in standard locations:\n- "@
            + home + "/.config/skhd/skhdrc\n- "@ + home + "/.skhdrc\n"@
            + "Create a configuration file in one of these locations."@,
        SkhdVariant::Zig => "No skhd configuration file found. Searched in:\n- "@ + zig_config_home(
            home,
            xdg,
        ) + "/skhd/skhdrc (XDG_CONFIG_HOME)\n- "@ + home + "/.config/skhd/skhdrc\n- "@ + home
            + "/.skhdrc\n"@ + "Create a configuration file in one of these locations."@,
    }
}

/// The message for a service whose configuration file was not found.
pub fn service_config_missing(v: SkhdVariant, home: &str, xdg_config_home: Option<&str>) -> (r:
    String)
    ensures
        r@ == spec_service_config_missing(v, home@, opt_view(xdg_config_home)),
{
    match v {
        SkhdVariant::Original => {
            let r = owned("No skhd configuration file found in standard locations:\n- ");
            let r = r.concat(home).concat("/.config/skhd/skhdrc\n- ").concat(home);
            r.concat("/.skhdrc\n").concat("Create a configuration file in one of these locations.")
        },
        SkhdVariant::Zig => {
            let x = match xdg_config_home {
                Some(x) => owned(x),
                None => owned(home).concat("/.config"),
            };
            let r = owned("No skhd configuration file found. Searched in:\n- ");
            let r = r.concat(x.as_str()).concat("/skhd/skhdrc (XDG_CONFIG_HOME)\n- ");
            let r = r.concat(home).concat("/.config/skhd/skhdrc\n- ").concat(home);
            r.concat("/.skhdrc\n").concat("Create a configuration file in one of these locations.")
        },
    }
}

pub open spec fn config_home_unset() -> Seq<char> {
    "Failed to get HOME environment variable. This is required to locate the skhd configuration."@
}

/// The configuration file a variant's service reads: the first candidate that
/// exists (`exists` says which do), a message listing the candidates when none
/// does, and a message of its own when `HOME` is unset.
pub fn active_config_path(
    v: SkhdVariant,
    home: Option<&str>,
    xdg_config_home: Option<&str>,
    exists: &Vec<bool>,
) -> (r: Result<String, String>)
    requires
        home matches Some(h) ==> exists@.len() == spec_service_config_candidates(
            v,
            h@,
            opt_view(xdg_config_home),
        ).len(),
    ensures
        match home {
            None => r matches Err(m) && m@ == config_home_unset(),
            Some(h) => {
                let c = spec_service_config_candidates(v, h@, opt_view(xdg_config_home));
                match first_existing(c, exists@) {
                    Some(p) => r matches Ok(q) && q@ == p,
                    None => r matches Err(m) && m@ == spec_service_config_missing(
                        v,
                        h@,
                        opt_view(xdg_config_home),
                    ),
                }
            },
        },
{
    match home {
        None => Err(
            owned(
                "Failed to get HOME environment variable. This is required to locate the skhd configuration.",
            ),
        ),
        Some(h) => {
            let c = service_config_candidates(v, h, xdg_config_home);
            match first_existing_config_path(&c, exists) {
                Some(p) => Ok(p),
                None => Err(service_config_missing(v, h, xdg_config_home)),
            }
        },
    }
}

// ------------------------------------------------------------------
// Laws
// ------------------------------------------------------------------

proof fn lemma_contains_in_middle(a: Seq<char>, x: Seq<char>, b: Seq<char>, n: Seq<char>)
    requires
        seq_contains(x, n),
    ensures
        seq_contains(a + x + b, n),
{
    let k = choose|k: int| occurs_at(x, n, k);
    let whole = a + x + b;
    assert(whole.subrange(a.len() + k, a.len() + k + n.len()) =~= x.subrange(k, k + n.len()));
    assert(occurs_at(whole, n, a.len() + k));
}

proof fn lemma_bullets_contain(paths: Seq<Seq<char>>, i: int)
    requires
        0 <= i < paths.len(),
    ensures
        seq_contains(bullet_list(paths), paths[i]),
    decreases paths.len(),
{
    let p = paths[i];
    if paths.len() == 1 {
        let whole = "- "@ + paths[0];
        assert(whole.subrange(whole.len() - p.len(), whole.len() as int) =~= p);
        assert(occurs_at(whole, p, whole.len() - p.len()));
    } else if i == paths.len() - 1 {
        let whole = bullet_list(paths.drop_last()) + "\n"@ + "- "@ + paths.last();
        assert(whole.subrange(whole.len() - p.len(), whole.len() as int) =~= p);
        assert(occurs_at(whole, p, whole.len() - p.len()));
    } else {
        let prev = paths.drop_last();
        assert(prev[i] == p);
        lemma_bullets_contain(prev, i);
        lemma_contains_in_middle(Seq::empty(), bullet_list(prev), "\n"@ + "- "@ + paths.last(), p);
        assert(Seq::<char>::empty() + bullet_list(prev) + ("\n"@ + "- "@ + paths.last())
            =~= bullet_list(paths));
    }
}

/// The message for a failed search lists every path that was searched.
pub proof fn law_search_error_lists_every_path(v: SkhdVariant, paths: Seq<Seq<char>>, i: int)
    requires
        0 <= i < paths.len(),
    ensures
        seq_contains(spec_config_path_error(v, paths), paths[i]),
{
    lemma_bullets_contain(paths, i);
    let a = "No "@ + spec_display_name(v) + " configuration file found. Searched in:\n"@;
    let b = "\nCreate a configuration file in one of these locations."@;
    lemma_contains_in_middle(a, bullet_list(paths), b, paths[i]);
}

proof fn lemma_first_existing_is_listed(paths: Seq<Seq<char>>, exists: Seq<bool>)
    ensures
        first_existing(paths, exists) matches Some(p) ==> paths.contains(p),
    decreases paths.len(),
{
    if paths.len() > 0 && exists.len() > 0 && !exists[0] {
        lemma_first_existing_is_listed(paths.drop_first(), exists.drop_first());
        if let Some(p) = first_existing(paths.drop_first(), exists.drop_first()) {
            let k = choose|k: int| 0 <= k < paths.drop_first().len() && paths.drop_first()[k] == p;
            assert(paths[k + 1] == p);
        }
    } else if paths.len() > 0 && exists.len() > 0 {
        assert(paths[0] == paths[0]);
    }
}

/// Both variants search the same configuration files, for every home directory
/// and `XDG_CONFIG_HOME`: a path found is one of them, and a failed search
/// lists every one of them.
pub proof fn law_both_variants_search_one_list(
    home: Seq<char>,
    xdg: Option<Seq<char>>,
    exists: Seq<bool>,
    i: int,
)
    requires
        0 <= i < spec_config_paths(home, xdg).len(),
    ensures
        first_existing(spec_config_paths(home, xdg), exists) matches Some(p) ==> spec_config_paths(
            home,
            xdg,
        ).contains(p),
        seq_contains(
            spec_config_path_error(SkhdVariant::Original, spec_config_paths(home, xdg)),
            spec_config_paths(home, xdg)[i],
        ),
        seq_contains(
            spec_config_path_error(SkhdVariant::Zig, spec_config_paths(home, xdg)),
            spec_config_paths(home, xdg)[i],
        ),
{
    lemma_first_existing_is_listed(spec_config_paths(home, xdg), exists);
    law_search_error_lists_every_path(SkhdVariant::Original, spec_config_paths(home, xdg), i);
    law_search_error_lists_every_path(SkhdVariant::Zig, spec_config_paths(home, xdg), i);
}

/// No configuration file is searched for twice.
pub proof fn law_config_paths_distinct(home: Seq<char>, xdg: Option<Seq<char>>)
    ensures
        forall|i: int, j: int|
            0 <= i < j < spec_config_paths(home, xdg).len() ==> spec_config_paths(home, xdg)[i]
                != spec_config_paths(home, xdg)[j],
{
    reveal_strlit("/skhd/skhdrc");
    reveal_strlit("/.config/skhd/skhdrc");
    reveal_strlit("/.skhdrc");
    let p0 = config_home(home, xdg) + "/skhd/skhdrc"@;
    let p1 = home + "/.config/skhd/skhdrc"@;
    let p2 = home + "/.skhdrc"@;
    // The last two differ in length.
    assert(p1.len() != p2.len());
    // The first ends in `d/skhdrc` where the last ends in `/.skhdrc`.
    if p0.len() == p2.len() {
        assert(p0[p0.len() - 8] == 'd');
        assert(p2[p2.len() - 8] == '/');
    }
}

} // verus!
