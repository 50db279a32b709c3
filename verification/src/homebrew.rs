//! Where to look for the Homebrew executable, and the search path its child
//! processes get. Which candidate is an executable file is for the caller to find.
use vstd::prelude::*;

use crate::paths::{first_existing, first_existing_config_path, join_path, spec_join};
use crate::text::{chars_of, owned, pieces, split_on};

verus! {

/// The directories Homebrew installs its executable into.
pub fn standard_bin_dirs() -> (r: Vec<String>)
    ensures
        r.deep_view() == seq!["/opt/homebrew/bin"@, "/usr/local/bin"@],
{
    let r = vec![owned("/opt/homebrew/bin"), owned("/usr/local/bin")];
    proof {
        assert(r.deep_view() =~= seq!["/opt/homebrew/bin"@, "/usr/local/bin"@]);
    }
    r
}

/// The entries of a `PATH` value, split at every `:` as `std::env::split_paths`
/// does on Unix; empty entries are kept.
pub open spec fn path_entries(s: Seq<char>, p: int) -> Seq<Seq<char>> {
    pieces(s, p, ':')
}

pub open spec fn is_absolute(d: Seq<char>) -> bool {
    d.len() > 0 && d[0] == '/'
}

/// The absolute directories among `dirs`, in order.
pub open spec fn absolute_dirs(dirs: Seq<Seq<char>>) -> Seq<Seq<char>>
    decreases dirs.len(),
{
    if dirs.len() == 0 {
        Seq::empty()
    } else {
        absolute_dirs(dirs.drop_last()) + if is_absolute(dirs.last()) {
            seq![dirs.last()]
        } else {
            Seq::empty()
        }
    }
}

/// The directories searched for `brew`: those of `PATH` first, then the standard ones.
pub open spec fn search_dirs(standard: Seq<Seq<char>>, path: Option<Seq<char>>) -> Seq<Seq<char>> {
    let from_path = match path {
        Some(p) => path_entries(p, 0),
        None => Seq::empty(),
    };
    absolute_dirs(from_path + standard)
}

fn split_path_entries(path: &str) -> (r: Vec<String>)
    ensures
        r.deep_view() == path_entries(path@, 0),
{
    split_on(path, ':')
}

fn keep_absolute(dirs: &Vec<String>) -> (r: Vec<String>)
    ensures
        r.deep_view() == absolute_dirs(dirs.deep_view()),
{
    let mut r: Vec<String> = Vec::new();
    let mut i: usize = 0;
    while i < dirs.len()
        invariant
            i <= dirs@.len(),
            r.deep_view() == absolute_dirs(dirs.deep_view().take(i as int)),
        decreases dirs@.len() - i,
    {
        let d = chars_of(dirs[i].as_str());
        let ghost before = r.deep_view();
        proof {
            assert(dirs.deep_view().take(i + 1).drop_last() =~= dirs.deep_view().take(i as int));
            assert(dirs.deep_view().take(i + 1).last() == dirs@[i as int]@);
        }
        if d.len() > 0 && d[0] == '/' {
            r.push(dirs[i].clone());
            proof {
                assert(r.deep_view() =~= before.push(dirs@[i as int]@));
            }
        } else {
            proof {
                assert(before + Seq::<Seq<char>>::empty() =~= before);
            }
        }
        i = i + 1;
    }
    proof {
        assert(dirs.deep_view().take(dirs@.len() as int) =~= dirs.deep_view());
    }
    r
}

/// The directories to search for `brew`, in order of preference: the absolute
/// entries of `PATH`, then the absolute standard directories.
pub fn brew_search_dirs(standard: &Vec<String>, path: Option<&str>) -> (r: Vec<String>)
    ensures
        r.deep_view() == search_dirs(
            standard.deep_view(),
            match path {
                Some(p) => Some(p@),
                None => None,
            },
        ),
{
    let mut all = match path {
        Some(p) => split_path_entries(p),
        None => Vec::new(),
    };
    let ghost first = all.deep_view();
    let mut i: usize = 0;
    while i < standard.len()
        invariant
            i <= standard@.len(),
            all.deep_view() == first + standard.deep_view().take(i as int),
        decreases standard@.len() - i,
    {
        let ghost before = all.deep_view();
        all.push(standard[i].clone());
        proof {
            assert(all.deep_view() =~= before.push(standard@[i as int]@));
            assert(standard.deep_view().take(i + 1) =~= standard.deep_view().take(i as int).push(
                standard@[i as int]@,
            ));
            assert(all.deep_view() =~= first + standard.deep_view().take(i + 1));
        }
        i = i + 1;
    }
    proof {
        assert(standard.deep_view().take(standard@.len() as int) =~= standard.deep_view());
        if path is None {
            assert(first =~= Seq::<Seq<char>>::empty());
        }
    }
    keep_absolute(&all)
}

/// Where `brew` would be in `dir`.
pub fn brew_in(dir: &str) -> (r: String)
    ensures
        r@ == spec_join(dir@, "brew"@),
{
    join_path(dir, "brew")
}

/// The directories of a `brew` child's search path: the directory `brew` is in,
/// the system directories, then the absolute entries of the caller's `PATH`.
pub open spec fn child_dirs(brew_dir: Seq<char>, path: Option<Seq<char>>) -> Seq<Seq<char>> {
    seq![brew_dir, "/usr/bin"@, "/bin"@, "/usr/sbin"@, "/sbin"@] + match path {
        Some(p) => absolute_dirs(path_entries(p, 0)),
        None => Seq::empty(),
    }
}

/// Directories joined with `:`, as `std::env::join_paths` does on Unix.
pub open spec fn joined(dirs: Seq<Seq<char>>) -> Seq<char>
    decreases dirs.len(),
{
    if dirs.len() == 0 {
        Seq::empty()
    } else if dirs.len() == 1 {
        dirs[0]
    } else {
        joined(dirs.drop_last()) + ":"@ + dirs.last()
    }
}

/// The `PATH` value a `brew` child gets.
pub fn child_path(brew_dir: &str, path: Option<&str>) -> (r: String)
    ensures
        r@ == joined(
            child_dirs(
                brew_dir@,
                match path {
                    Some(p) => Some(p@),
                    None => None,
                },
            ),
        ),
{
    let mut dirs = vec![
        owned(brew_dir),
        owned("/usr/bin"),
        owned("/bin"),
        owned("/usr/sbin"),
        owned("/sbin"),
    ];
    let ghost fixed = dirs.deep_view();
    let extra = match path {
        Some(p) => keep_absolute(&split_path_entries(p)),
        None => Vec::new(),
    };
    let mut i: usize = 0;
    while i < extra.len()
        invariant
            i <= extra@.len(),
            dirs.deep_view() == fixed + extra.deep_view().take(i as int),
        decreases extra@.len() - i,
    {
        let ghost before = dirs.deep_view();
        dirs.push(extra[i].clone());
        proof {
            assert(dirs.deep_view() =~= before.push(extra@[i as int]@));
            assert(extra.deep_view().take(i + 1) =~= extra.deep_view().take(i as int).push(
                extra@[i as int]@,
            ));
            assert(dirs.deep_view() =~= fixed + extra.deep_view().take(i + 1));
        }
        i = i + 1;
    }
    proof {
        assert(extra.deep_view().take(extra@.len() as int) =~= extra.deep_view());
        assert(fixed =~= seq![brew_dir@, "/usr/bin"@, "/bin"@, "/usr/sbin"@, "/sbin"@]);
        if path is None {
            assert(extra.deep_view() =~= Seq::<Seq<char>>::empty());
        }
        assert(dirs.deep_view() =~= child_dirs(
            brew_dir@,
            match path {
                Some(p) => Some(p@),
                None => None,
            },
        ));
    }
    let mut r = owned(dirs[0].as_str());
    let mut k: usize = 1;
    while k < dirs.len()
        invariant
            1 <= k <= dirs@.len(),
            r@ == joined(dirs.deep_view().take(k as int)),
        decreases dirs@.len() - k,
    {
        proof {
            assert(dirs.deep_view().take(k + 1).drop_last() =~= dirs.deep_view().take(k as int));
        }
        r = r.concat(":").concat(dirs[k].as_str());
        k = k + 1;
    }
    proof {
        assert(dirs.deep_view().take(dirs@.len() as int) =~= dirs.deep_view());
    }
    r
}

/// The message for a search that found no Homebrew executable.
pub fn missing_brew_message() -> (r: &'static str)
    ensures
        r@ == spec_missing_brew(),
{
    "No executable Homebrew found in /opt/homebrew/bin, /usr/local/bin, or PATH. For a custom Homebrew install, make its bin directory available to Keybinder"
}

pub open spec fn spec_missing_brew() -> Seq<char> {
    "No executable Homebrew found in /opt/homebrew/bin, /usr/local/bin, or PATH. For a custom Homebrew install, make its bin directory available to Keybinder"@
}

/// The `brew` to run and the `PATH` its children get. `dirs` are the directories
/// searched, in order, and `usable` tells for each whether the `brew` in it is
/// an executable file. The first usable one is run, and its children's `PATH`
/// begins with its directory, then the system directories, then the absolute
/// entries of the caller's `PATH`; when none is usable, the message says where
/// Homebrew was looked for and how to make a custom install found.
pub fn brew_command(dirs: &Vec<String>, usable: &Vec<bool>, path: Option<&str>) -> (r: Result<
    (String, String),
    String,
>)
    requires
        dirs@.len() == usable@.len(),
    ensures
        match first_existing(dirs.deep_view(), usable@) {
            None => r matches Err(m) && m@ == spec_missing_brew(),
            Some(d) => r matches Ok((program, child)) && program@ == spec_join(d, "brew"@)
                && child@ == joined(
                child_dirs(
                    d,
                    match path {
                        Some(p) => Some(p@),
                        None => None,
                    },
                ),
            ),
        },
{
    match first_existing_config_path(dirs, usable) {
        None => Err(owned(missing_brew_message())),
        Some(d) => Ok((brew_in(d.as_str()), child_path(d.as_str(), path))),
    }
}

proof fn lemma_absolute_dirs_concat(a: Seq<Seq<char>>, b: Seq<Seq<char>>)
    ensures
        absolute_dirs(a + b) == absolute_dirs(a) + absolute_dirs(b),
    decreases b.len(),
{
    if b.len() == 0 {
        assert(a + b =~= a);
        assert(absolute_dirs(a) + absolute_dirs(b) =~= absolute_dirs(a));
    } else {
        lemma_absolute_dirs_concat(a, b.drop_last());
        assert((a + b).drop_last() =~= a + b.drop_last());
        assert((a + b).last() == b.last());
        let tail = if is_absolute(b.last()) {
            seq![b.last()]
        } else {
            Seq::empty()
        };
        assert(absolute_dirs(a) + absolute_dirs(b.drop_last()) + tail =~= absolute_dirs(a) + (
        absolute_dirs(b.drop_last()) + tail));
    }
}

proof fn lemma_absolute_dirs_are_absolute(d: Seq<Seq<char>>)
    ensures
        forall|i: int| 0 <= i < absolute_dirs(d).len() ==> is_absolute(#[trigger] absolute_dirs(d)[i]),
    decreases d.len(),
{
    if d.len() > 0 {
        lemma_absolute_dirs_are_absolute(d.drop_last());
        let prev = absolute_dirs(d.drop_last());
        assert forall|i: int| 0 <= i < absolute_dirs(d).len() implies is_absolute(
            #[trigger] absolute_dirs(d)[i],
        ) by {
            if i < prev.len() {
                assert(absolute_dirs(d)[i] == prev[i]);
            } else {
                assert(absolute_dirs(d)[i] == d.last());
            }
        }
    }
}

/// Homebrew is looked for only in absolute directories, never in the working
/// directory: those of `PATH` first, in their order, then the standard ones. The
/// `PATH` a `brew` child gets begins with the directory `brew` was found in, then
/// the system directories, then only absolute directories.
pub proof fn law_brew_search_and_child_path(
    standard: Seq<Seq<char>>,
    path: Option<Seq<char>>,
    brew_dir: Seq<char>,
)
    ensures
        forall|i: int|
            0 <= i < search_dirs(standard, path).len() ==> is_absolute(
                #[trigger] search_dirs(standard, path)[i],
            ),
        search_dirs(standard, path) == absolute_dirs(
            match path {
                Some(p) => path_entries(p, 0),
                None => Seq::empty(),
            },
        ) + absolute_dirs(standard),
        child_dirs(brew_dir, path).take(5) == seq![
            brew_dir,
            "/usr/bin"@,
            "/bin"@,
            "/usr/sbin"@,
            "/sbin"@,
        ],
        forall|i: int|
            5 <= i < child_dirs(brew_dir, path).len() ==> is_absolute(
                #[trigger] child_dirs(brew_dir, path)[i],
            ),
{
    let from_path = match path {
        Some(p) => path_entries(p, 0),
        None => Seq::empty(),
    };
    lemma_absolute_dirs_concat(from_path, standard);
    lemma_absolute_dirs_are_absolute(from_path + standard);
    lemma_absolute_dirs_are_absolute(from_path);
    let c = child_dirs(brew_dir, path);
    assert(c.take(5) =~= seq![brew_dir, "/usr/bin"@, "/bin"@, "/usr/sbin"@, "/sbin"@]);
    assert forall|i: int| 5 <= i < c.len() implies is_absolute(#[trigger] c[i]) by {
        assert(c[i] == absolute_dirs(from_path)[i - 5]);
    }
}

} // verus!
