//! Where Dinit keeps service description files.
//!
//! Paths that come from the environment need not be text, so the links that
//! enable a service are byte strings. A `/` separates components.

use vstd::prelude::*;
use vstd::slice::slice_to_vec;
use vstd::string::*;

use crate::dinit::ServiceScope;
use crate::environment::{as_text, variable_text, Environment, EnvironmentView};
use crate::text::{chars, same_text};

verus! {

/// `name` below `base`: an absolute name stands alone, and a separator comes
/// between unless `base` is empty or ends with one.
pub open spec fn join_path<C>(base: Seq<C>, name: Seq<C>, sep: C) -> Seq<C> {
    if name.len() > 0 && name[0] == sep {
        name
    } else if base.len() == 0 || base.last() == sep {
        base + name
    } else {
        base.push(sep) + name
    }
}

/// `name` below `base`, for paths that are text.
pub open spec fn join_text(base: Seq<char>, name: Seq<char>) -> Seq<char> {
    join_path(base, name, '/')
}

/// `name` below `base`, for paths that are bytes.
pub open spec fn join_bytes(base: Seq<u8>, name: Seq<u8>) -> Seq<u8> {
    join_path(base, name, 47u8)
}

/// `name` below `base`.
pub fn text_path(base: &str, name: &str) -> (path: String)
    ensures
        path@ == join_text(base@, name@),
{
    let b = chars(base);
    let n = chars(name);
    if n.len() > 0 && n[0] == '/' {
        return name.to_string();
    }
    let mut path = base.to_string();
    if b.len() > 0 && b[b.len() - 1] != '/' {
        path.append("/");
        proof {
            reveal_strlit("/");
            assert(path@ == base@.push('/'));
        }
    }
    path.append(name);
    path
}

/// `name` below `base`.
pub fn byte_path(base: &Vec<u8>, name: &[u8]) -> (path: Vec<u8>)
    ensures
        path@ == join_bytes(base@, name@),
{
    if name.len() > 0 && name[0] == 47 {
        return slice_to_vec(name);
    }
    let mut path: Vec<u8> = slice_to_vec(base.as_slice());
    if base.len() > 0 && base[base.len() - 1] != 47 {
        path.push(47);
    }
    let mut rest: Vec<u8> = slice_to_vec(name);
    path.append(&mut rest);
    path
}

/// The values of a list of byte strings.
pub open spec fn byte_strings(v: Seq<Vec<u8>>) -> Seq<Seq<u8>> {
    Seq::new(v.len(), |i: int| v[i]@)
}

/// The directories in which the boot service of a scope may be described.
pub open spec fn boot_dirs(scope: ServiceScope, env: EnvironmentView) -> Seq<Seq<u8>> {
    match scope {
        ServiceScope::System => seq![
            "/etc/dinit.d".spec_bytes(),
            "/run/dinit.d".spec_bytes(),
            "/usr/local/lib/dinit.d".spec_bytes(),
            "/usr/lib/dinit.d".spec_bytes(),
        ],
        ServiceScope::User => (match env.xdg_config_home {
            Some(xdg) => seq![join_bytes(xdg, "dinit.d".spec_bytes())],
            None => Seq::empty(),
        }) + (match env.home {
            Some(home) => seq![join_bytes(home, ".config/dinit.d".spec_bytes())],
            None => Seq::empty(),
        }),
    }
}

/// Where below a boot directory the links of enabled services lie: one for each
/// of the two layouts.
pub open spec fn links_in(dir: Seq<u8>, name: Seq<char>) -> Seq<Seq<u8>> {
    let n = vstd::utf8::encode_utf8(name);
    seq![
        join_bytes(join_bytes(dir, "boot/waits-for.d".spec_bytes()), n),
        join_bytes(join_bytes(dir, "boot.d".spec_bytes()), n),
    ]
}

/// Every path at which a link enables the service `name`, in the order in which
/// they count.
pub open spec fn enabling_links(scope: ServiceScope, name: Seq<char>, env: EnvironmentView) -> Seq<
    Seq<u8>,
> {
    boot_dirs(scope, env).flat_map(|dir: Seq<u8>| links_in(dir, name))
}

fn system_boot_dir(dir: &str, dirs: &mut Vec<Vec<u8>>)
    ensures
        byte_strings(final(dirs)@) == byte_strings(old(dirs)@).push(dir.spec_bytes()),
{
    let bytes: Vec<u8> = slice_to_vec(dir.as_bytes());
    let ghost before = byte_strings(dirs@);
    dirs.push(bytes);
    assert(byte_strings(dirs@) == before.push(dir.spec_bytes()));
}

/// The directories in which the boot service of a scope may be described.
pub fn boot_directories(scope: ServiceScope, env: &Environment) -> (dirs: Vec<Vec<u8>>)
    ensures
        byte_strings(dirs@) == boot_dirs(scope, env@),
{
    let mut dirs: Vec<Vec<u8>> = Vec::new();
    assert(byte_strings(dirs@) == Seq::<Seq<u8>>::empty());
    match scope {
        ServiceScope::System => {
            system_boot_dir("/etc/dinit.d", &mut dirs);
            system_boot_dir("/run/dinit.d", &mut dirs);
            system_boot_dir("/usr/local/lib/dinit.d", &mut dirs);
            system_boot_dir("/usr/lib/dinit.d", &mut dirs);
        },
        ServiceScope::User => {
            if let Some(xdg) = &env.xdg_config_home {
                dirs.push(byte_path(xdg, "dinit.d".as_bytes()));
            }
            if let Some(home) = &env.home {
                dirs.push(byte_path(home, ".config/dinit.d".as_bytes()));
            }
        },
    }
    assert(byte_strings(dirs@) == boot_dirs(scope, env@));
    dirs
}

/// Every path at which a link enables the service `name`.
pub fn enable_links(scope: ServiceScope, name: &str, env: &Environment) -> (links: Vec<Vec<u8>>)
    ensures
        byte_strings(links@) == enabling_links(scope, name@, env@),
{
    let dirs = boot_directories(scope, env);
    let ghost all = boot_dirs(scope, env@);
    let ghost f = |dir: Seq<u8>| links_in(dir, name@);
    let mut links: Vec<Vec<u8>> = Vec::new();
    let mut i: usize = 0;
    proof {
        assert(all.take(0) == Seq::<Seq<u8>>::empty());
        assert(byte_strings(links@) == all.take(0).flat_map(f)) by {
            reveal_with_fuel(Seq::flatten, 1);
        }
    }
    while i < dirs.len()
        invariant
            byte_strings(dirs@) == all,
            i <= dirs@.len(),
            f == (|dir: Seq<u8>| links_in(dir, name@)),
            byte_strings(links@) == all.take(i as int).flat_map(f),
        decreases dirs@.len() - i,
    {
        let ghost before = byte_strings(links@);
        let waits = byte_path(&dirs[i], "boot/waits-for.d".as_bytes());
        let boot = byte_path(&dirs[i], "boot.d".as_bytes());
        links.push(byte_path(&waits, name.as_bytes()));
        links.push(byte_path(&boot, name.as_bytes()));
        proof {
            assert(all[i as int] == dirs@[i as int]@);
            assert(byte_strings(links@) == before + links_in(all[i as int], name@));
            all.lemma_flat_map_take_append(f, i as int);
        }
        i += 1;
    }
    assert(all.take(all.len() as int) == all);
    links
}

/// Whether two byte strings are the same.
fn same_bytes(a: &Vec<u8>, b: &Vec<u8>) -> (r: bool)
    ensures
        r == (a@ == b@),
{
    if a.len() != b.len() {
        return false;
    }
    let mut i: usize = 0;
    while i < a.len()
        invariant
            a@.len() == b@.len(),
            i <= a@.len(),
            forall|j: int| 0 <= j < i ==> a@[j] == b@[j],
        decreases a@.len() - i,
    {
        if a[i] != b[i] {
            return false;
        }
        i += 1;
    }
    assert(a@ == b@);
    true
}

/// Whether `path` is one of `paths`.
fn holds_bytes(paths: &Vec<Vec<u8>>, path: &Vec<u8>) -> (r: bool)
    ensures
        r == byte_strings(paths@).contains(path@),
{
    let mut i: usize = 0;
    while i < paths.len()
        invariant
            i <= paths@.len(),
            forall|j: int| 0 <= j < i ==> #[trigger] byte_strings(paths@)[j] != path@,
        decreases paths@.len() - i,
    {
        if same_bytes(&paths[i], path) {
            assert(byte_strings(paths@)[i as int] == path@);
            return true;
        }
        i += 1;
    }
    false
}

/// Whether some path of `links` is one of `existing`.
pub open spec fn any_exists(links: Seq<Seq<u8>>, existing: Seq<Seq<u8>>) -> bool {
    exists|i: int| 0 <= i < links.len() && existing.contains(#[trigger] links[i])
}

/// Whether some path of `links` is one of `existing`.
pub fn some_exists(links: &Vec<Vec<u8>>, existing: &Vec<Vec<u8>>) -> (r: bool)
    ensures
        r == any_exists(byte_strings(links@), byte_strings(existing@)),
{
    let mut i: usize = 0;
    while i < links.len()
        invariant
            i <= links@.len(),
            forall|j: int|
                0 <= j < i ==> !byte_strings(existing@).contains(
                    #[trigger] byte_strings(links@)[j],
                ),
        decreases links@.len() - i,
    {
        if holds_bytes(existing, &links[i]) {
            assert(byte_strings(links@)[i as int] == links@[i as int]@);
            return true;
        }
        i += 1;
    }
    false
}

/// A variable that is text and not empty.
pub open spec fn nonempty_text(var: Option<Seq<u8>>) -> Option<Seq<char>> {
    match as_text(var) {
        Some(t) => if t.len() > 0 {
            Some(t)
        } else {
            None
        },
        None => None,
    }
}

/// The directories in which a scope's service description files are looked for,
/// the most preferred first.
pub open spec fn service_dirs(scope: ServiceScope, env: EnvironmentView) -> Seq<Seq<char>> {
    match scope {
        ServiceScope::System => seq![
            "/etc/dinit.d"@,
            "/usr/local/lib/dinit.d"@,
            "/usr/lib/dinit.d"@,
            "/run/dinit.d"@,
        ],
        ServiceScope::User => (match nonempty_text(env.xdg_config_home) {
            Some(xdg) => seq![join_text(xdg, "dinit.d"@)],
            None => Seq::empty(),
        }) + (match nonempty_text(env.home) {
            Some(home) => seq![join_text(home, ".config/dinit.d"@)],
            None => Seq::empty(),
        }) + seq![
            "/etc/dinit.d/user"@,
            "/usr/local/lib/dinit.d/user"@,
            "/usr/lib/dinit.d/user"@,
        ],
    }
}

/// The paths at which the description file of `name` may lie, the most preferred
/// first.
pub open spec fn candidate_paths(scope: ServiceScope, name: Seq<char>, env: EnvironmentView) -> Seq<
    Seq<char>,
> {
    let dirs = service_dirs(scope, env);
    Seq::new(dirs.len(), |i: int| join_text(dirs[i], name))
}

/// The directories in which a scope's service description files are looked for.
pub fn service_directories(scope: ServiceScope, env: &Environment) -> (dirs: Vec<String>)
    ensures
        dirs.deep_view() == service_dirs(scope, env@),
{
    let mut dirs: Vec<String> = Vec::new();
    match scope {
        ServiceScope::System => {
            dirs.push("/etc/dinit.d".to_string());
            dirs.push("/usr/local/lib/dinit.d".to_string());
            dirs.push("/usr/lib/dinit.d".to_string());
            dirs.push("/run/dinit.d".to_string());
        },
        ServiceScope::User => {
            if let Some(xdg) = variable_text(&env.xdg_config_home) {
                if !xdg.as_str().is_empty() {
                    dirs.push(text_path(xdg.as_str(), "dinit.d"));
                }
            }
            if let Some(home) = variable_text(&env.home) {
                if !home.as_str().is_empty() {
                    dirs.push(text_path(home.as_str(), ".config/dinit.d"));
                }
            }
            dirs.push("/etc/dinit.d/user".to_string());
            dirs.push("/usr/local/lib/dinit.d/user".to_string());
            dirs.push("/usr/lib/dinit.d/user".to_string());
        },
    }
    assert(dirs.deep_view() == service_dirs(scope, env@));
    dirs
}

/// The paths at which the description file of `name` may lie.
pub fn service_file_candidates(scope: ServiceScope, name: &str, env: &Environment) -> (paths: Vec<
    String,
>)
    ensures
        paths.deep_view() == candidate_paths(scope, name@, env@),
{
    let dirs = service_directories(scope, env);
    let mut paths: Vec<String> = Vec::new();
    let mut i: usize = 0;
    while i < dirs.len()
        invariant
            dirs.deep_view() == service_dirs(scope, env@),
            i <= dirs@.len(),
            paths.deep_view() == candidate_paths(scope, name@, env@).take(i as int),
        decreases dirs@.len() - i,
    {
        let ghost all = candidate_paths(scope, name@, env@);
        let ghost before = paths.deep_view();
        assert(dirs.deep_view()[i as int] == dirs@[i as int]@);
        let path = text_path(dirs[i].as_str(), name);
        assert(all.take(i + 1) == all.take(i as int).push(path@));
        paths.push(path);
        assert(paths.deep_view() == before.push(path@));
        i += 1;
    }
    paths
}

/// The first path of `paths` that is one of `files`.
pub open spec fn first_present(paths: Seq<Seq<char>>, files: Seq<Seq<char>>) -> Option<Seq<char>>
    decreases paths.len(),
{
    if paths.len() == 0 {
        None
    } else if files.contains(paths[0]) {
        Some(paths[0])
    } else {
        first_present(paths.drop_first(), files)
    }
}

/// Whether `path` is one of `paths`.
fn holds_text(paths: &Vec<String>, path: &str) -> (r: bool)
    ensures
        r == paths.deep_view().contains(path@),
{
    let mut i: usize = 0;
    while i < paths.len()
        invariant
            i <= paths@.len(),
            forall|j: int| 0 <= j < i ==> #[trigger] paths.deep_view()[j] != path@,
        decreases paths@.len() - i,
    {
        if same_text(paths[i].as_str(), path) {
            assert(paths.deep_view()[i as int] == path@);
            return true;
        }
        i += 1;
    }
    false
}

/// The first path of `paths` that is one of `files`.
pub fn find_present(paths: &Vec<String>, files: &Vec<String>) -> (found: Option<String>)
    ensures
        crate::environment::opt_string(found) == first_present(
            paths.deep_view(),
            files.deep_view(),
        ),
{
    let mut i: usize = 0;
    let ghost all = paths.deep_view();
    assert(all.skip(0) == all);
    while i < paths.len()
        invariant
            all == paths.deep_view(),
            i <= paths@.len(),
            first_present(all, files.deep_view()) == first_present(
                all.skip(i as int),
                files.deep_view(),
            ),
        decreases paths@.len() - i,
    {
        assert(all.skip(i as int)[0] == paths@[i as int]@);
        assert(all.skip(i as int).drop_first() == all.skip(i + 1));
        if holds_text(files, paths[i].as_str()) {
            return Some(paths[i].clone());
        }
        i += 1;
    }
    None
}

} // verus!
