//! Where links and description files are looked for, path by path, and what is
//! made of the environment.

use vstd::prelude::*;
use vstd::string::*;
use vstd::utf8::*;

use crate::dinit::{enabled_state, files_of_list, links_of_list, ServiceScope};
use crate::environment::{as_text, dinitctl_command, EnvironmentView};
use crate::laws::{law_first_candidate_wins, lemma_encode_concat};
use crate::listing::listed;
use crate::paths::{
    any_exists, boot_dirs, candidate_paths, enabling_links, first_present, join_bytes, join_text,
    links_in, nonempty_text,
};

verus! {

/// A variable that is set to text has that text as its value, be it empty; one
/// that is not set, or not to text, has none.
pub proof fn law_variables_are_read_as_text(text: Seq<char>, bytes: Seq<u8>)
    ensures
        as_text(Some(encode_utf8(text))) == Some(text),
        as_text(None) is None,
        !valid_utf8(bytes) ==> as_text(Some(bytes)) is None,
{
    broadcast use {encode_utf8_valid_utf8, encode_utf8_decode_utf8};

}

/// The `dinitctl` command is the configured one if it is text, be it empty, and
/// else `dinitctl`; no other variable counts.
pub proof fn law_configured_command(env: EnvironmentView, text: Seq<char>)
    ensures
        env.dinitctl == Some(encode_utf8(text)) ==> dinitctl_command(env) == text,
        env.dinitctl is None ==> dinitctl_command(env) == "dinitctl"@,
        (env.dinitctl matches Some(b) && !valid_utf8(b)) ==> dinitctl_command(env) == "dinitctl"@,
{
    broadcast use {encode_utf8_valid_utf8, encode_utf8_decode_utf8};

}

/// A path that is joined to a directory follows it behind one slash: none is added
/// to a directory that ends with one, and none where there is no directory. An
/// absolute path stands alone.
pub proof fn law_joined_paths(dir: Seq<char>, name: Seq<char>)
    ensures
        name.len() > 0 && name[0] == '/' ==> join_text(dir, name) == name,
        (name.len() > 0 ==> name[0] != '/') && dir.len() == 0 ==> join_text(dir, name) == name,
        (name.len() > 0 ==> name[0] != '/') && dir.len() > 0 && dir.last() == '/' ==> join_text(
            dir,
            name,
        ) == dir + name,
        (name.len() > 0 ==> name[0] != '/') && dir.len() > 0 && dir.last() != '/' ==> join_text(
            dir,
            name,
        ) == dir + seq!['/'] + name,
{
    assert(Seq::<char>::empty() + name == name);
    assert(dir.push('/') == dir + seq!['/']);
    if dir.len() == 0 {
        assert(dir + name == name);
    }
}

/// The path `tail` below a directory: a slash comes between, unless the directory
/// is empty or ends with one.
pub open spec fn below(dir: Seq<u8>, tail: Seq<char>) -> Seq<u8> {
    if dir.len() == 0 || dir.last() == '/' as u8 {
        dir + encode_utf8(tail)
    } else {
        dir + encode_utf8(seq!['/'] + tail)
    }
}

/// Whether a path is not absolute.
pub open spec fn relative(path: Seq<char>) -> bool {
    path.len() > 0 ==> path[0] != '/'
}

proof fn lemma_slash()
    ensures
        encode_utf8(seq!['/']) == seq![47u8],
{
    let s = seq!['/'];
    is_ascii_chars_encode_utf8(s);
    assert(encode_utf8(s)[0] == s[0] as u8);
    assert(encode_utf8(s) =~= seq![47u8]);
}

proof fn lemma_first_byte(path: Seq<char>)
    requires
        path.len() > 0,
    ensures
        encode_utf8(path).len() > 0,
        encode_utf8(path)[0] == 47 <==> path[0] == '/',
{
    let bytes = encode_utf8(path);
    encode_utf8_first_scalar(path);
    if path[0] == '/' {
        let t = path.drop_first();
        assert(path == seq!['/'] + t);
        lemma_encode_concat(seq!['/'], t);
        lemma_slash();
        assert(bytes == seq![47u8] + encode_utf8(t));
        assert(bytes[0] == 47);
    }
    let b = bytes[0];
    if b == 47 {
        assert((b & 0x7F) as u32 == 47) by (bit_vector)
            requires
                b == 47,
        ;
        assert(path[0] as u32 == 47);
        char_u32_cast(path[0], 47);
        char_u32_cast('/', 47);
    }
}

proof fn lemma_below(dir: Seq<u8>, tail: Seq<char>)
    requires
        relative(tail),
    ensures
        join_bytes(dir, encode_utf8(tail)) == below(dir, tail),
{
    lemma_slash();
    lemma_encode_concat(seq!['/'], tail);
    if tail.len() > 0 {
        lemma_first_byte(tail);
    }
    assert(dir.push(47u8) + encode_utf8(tail) == dir + (seq![47u8] + encode_utf8(tail)));
}

proof fn lemma_below_below(dir: Seq<u8>, mid: Seq<char>, tail: Seq<char>)
    requires
        is_ascii_chars(mid),
        mid.len() > 0,
        mid.last() != '/',
    ensures
        below(below(dir, mid), tail) == below(dir, mid + seq!['/'] + tail),
{
    lemma_slash();
    is_ascii_chars_encode_utf8(mid);
    let m = encode_utf8(mid);
    assert(m[mid.len() - 1] == mid[mid.len() - 1] as u8);
    lemma_encode_concat(seq!['/'], mid);
    lemma_encode_concat(seq!['/'], tail);
    lemma_encode_concat(mid + seq!['/'], tail);
    lemma_encode_concat(mid, seq!['/']);
    lemma_encode_concat(seq!['/'], mid + seq!['/'] + tail);
    assert(below(dir, mid).last() == m.last());
    assert(below(below(dir, mid), tail) =~= below(dir, mid + seq!['/'] + tail));
}

proof fn lemma_links_in(dir: Seq<u8>, name: Seq<char>)
    requires
        relative(name),
    ensures
        links_in(dir, name) == seq![
            below(dir, "boot/waits-for.d/"@ + name),
            below(dir, "boot.d/"@ + name),
        ],
{
    reveal_strlit("boot/waits-for.d");
    reveal_strlit("boot/waits-for.d/");
    reveal_strlit("boot.d");
    reveal_strlit("boot.d/");
    lemma_below(dir, "boot/waits-for.d"@);
    lemma_below(dir, "boot.d"@);
    lemma_below(below(dir, "boot/waits-for.d"@), name);
    lemma_below(below(dir, "boot.d"@), name);
    lemma_below_below(dir, "boot/waits-for.d"@, name);
    lemma_below_below(dir, "boot.d"@, name);
    assert("boot/waits-for.d/"@ == "boot/waits-for.d"@ + seq!['/']);
    assert("boot.d/"@ == "boot.d"@ + seq!['/']);
}

proof fn lemma_flat_map_contains<A, B>(s: Seq<A>, f: spec_fn(A) -> Seq<B>, x: B)
    ensures
        s.flat_map(f).contains(x) <==> exists|i: int|
            0 <= i < s.len() && (#[trigger] f(s[i])).contains(x),
    decreases s.len(),
{
    if s.len() == 0 {
        assert(s.flat_map(f) == Seq::<B>::empty()) by {
            reveal_with_fuel(Seq::flatten, 1);
        }
    } else {
        let n = s.len() - 1;
        let d = s.take(n);
        s.lemma_flat_map_take_append(f, n);
        assert(s.take(n + 1) == s);
        lemma_flat_map_contains(d, f, x);
        let a = d.flat_map(f);
        let b = f(s[n]);
        assert(s.flat_map(f) == a + b);
        if a.contains(x) {
            let i = choose|i: int| 0 <= i < d.len() && (#[trigger] f(d[i])).contains(x);
            assert(f(s[i]).contains(x));
            let k = choose|k: int| 0 <= k < a.len() && a[k] == x;
            assert((a + b)[k] == x);
        }
        if b.contains(x) {
            let k = choose|k: int| 0 <= k < b.len() && b[k] == x;
            assert((a + b)[a.len() + k] == x);
        }
        if (a + b).contains(x) {
            let k = choose|k: int| 0 <= k < (a + b).len() && (a + b)[k] == x;
            if k < a.len() {
                assert(a[k] == x);
            } else {
                assert(b[k - a.len()] == x);
            }
        }
        if exists|i: int| 0 <= i < s.len() && (#[trigger] f(s[i])).contains(x) {
            let i = choose|i: int| 0 <= i < s.len() && (#[trigger] f(s[i])).contains(x);
            if i < n {
                assert(d[i] == s[i]);
                assert(f(d[i]).contains(x));
            }
        }
    }
}

proof fn lemma_link_iff(
    scope: ServiceScope,
    name: Seq<char>,
    env: EnvironmentView,
    path: Seq<u8>,
)
    requires
        relative(name),
    ensures
        enabling_links(scope, name, env).contains(path) <==> exists|i: int|
            0 <= i < boot_dirs(scope, env).len() && (path == below(
                #[trigger] boot_dirs(scope, env)[i],
                "boot/waits-for.d/"@ + name,
            ) || path == below(boot_dirs(scope, env)[i], "boot.d/"@ + name)),
{
    let dirs = boot_dirs(scope, env);
    let f = |dir: Seq<u8>| links_in(dir, name);
    lemma_flat_map_contains(dirs, f, path);
    assert forall|i: int| 0 <= i < dirs.len() implies ((#[trigger] f(dirs[i])).contains(path)
        <==> path == below(dirs[i], "boot/waits-for.d/"@ + name) || path == below(
        dirs[i],
        "boot.d/"@ + name,
    )) by {
        lemma_links_in(dirs[i], name);
        let l = links_in(dirs[i], name);
        assert(l[0] == below(dirs[i], "boot/waits-for.d/"@ + name));
        assert(l[1] == below(dirs[i], "boot.d/"@ + name));
    }
    if enabling_links(scope, name, env).contains(path) {
        let i = choose|i: int| 0 <= i < dirs.len() && (#[trigger] f(dirs[i])).contains(path);
        assert(path == below(dirs[i], "boot/waits-for.d/"@ + name) || path == below(
            dirs[i],
            "boot.d/"@ + name,
        ));
    }
    if exists|i: int|
        0 <= i < dirs.len() && (path == below(#[trigger] dirs[i], "boot/waits-for.d/"@ + name)
            || path == below(dirs[i], "boot.d/"@ + name)) {
        let i = choose|i: int|
            0 <= i < dirs.len() && (path == below(#[trigger] dirs[i], "boot/waits-for.d/"@ + name)
                || path == below(dirs[i], "boot.d/"@ + name));
        assert(f(dirs[i]).contains(path));
    }
}

proof fn lemma_below_text(dir: Seq<char>, tail: Seq<char>)
    requires
        is_ascii_chars(dir),
        dir.len() > 0,
        dir.last() != '/',
    ensures
        below(encode_utf8(dir), tail) == encode_utf8(dir + seq!['/'] + tail),
{
    is_ascii_chars_encode_utf8(dir);
    assert(encode_utf8(dir)[dir.len() - 1] == dir[dir.len() - 1] as u8);
    lemma_encode_concat(dir, seq!['/'] + tail);
    assert(dir + (seq!['/'] + tail) == dir + seq!['/'] + tail);
}

/// A service of the system is enabled by a link below one of the four directories
/// of the system, in either of two layouts, and by no other.
pub proof fn law_system_links(name: Seq<char>, env: EnvironmentView, path: Seq<u8>)
    requires
        relative(name),
    ensures
        enabling_links(ServiceScope::System, name, env).contains(path) <==> {
            ||| path == encode_utf8("/etc/dinit.d/boot/waits-for.d/"@ + name)
            ||| path == encode_utf8("/etc/dinit.d/boot.d/"@ + name)
            ||| path == encode_utf8("/run/dinit.d/boot/waits-for.d/"@ + name)
            ||| path == encode_utf8("/run/dinit.d/boot.d/"@ + name)
            ||| path == encode_utf8("/usr/local/lib/dinit.d/boot/waits-for.d/"@ + name)
            ||| path == encode_utf8("/usr/local/lib/dinit.d/boot.d/"@ + name)
            ||| path == encode_utf8("/usr/lib/dinit.d/boot/waits-for.d/"@ + name)
            ||| path == encode_utf8("/usr/lib/dinit.d/boot.d/"@ + name)
        },
{
    lemma_link_iff(ServiceScope::System, name, env, path);
    reveal_strlit("boot/waits-for.d/");
    reveal_strlit("boot.d/");
    let waits = "boot/waits-for.d/"@ + name;
    let boot = "boot.d/"@ + name;

    reveal_strlit("/etc/dinit.d");
    reveal_strlit("/etc/dinit.d/boot/waits-for.d/");
    reveal_strlit("/etc/dinit.d/boot.d/");
    lemma_below_text("/etc/dinit.d"@, waits);
    lemma_below_text("/etc/dinit.d"@, boot);
    assert("/etc/dinit.d"@ + seq!['/'] + waits == "/etc/dinit.d/boot/waits-for.d/"@ + name);
    assert("/etc/dinit.d"@ + seq!['/'] + boot == "/etc/dinit.d/boot.d/"@ + name);

    reveal_strlit("/run/dinit.d");
    reveal_strlit("/run/dinit.d/boot/waits-for.d/");
    reveal_strlit("/run/dinit.d/boot.d/");
    lemma_below_text("/run/dinit.d"@, waits);
    lemma_below_text("/run/dinit.d"@, boot);
    assert("/run/dinit.d"@ + seq!['/'] + waits == "/run/dinit.d/boot/waits-for.d/"@ + name);
    assert("/run/dinit.d"@ + seq!['/'] + boot == "/run/dinit.d/boot.d/"@ + name);

    reveal_strlit("/usr/local/lib/dinit.d");
    reveal_strlit("/usr/local/lib/dinit.d/boot/waits-for.d/");
    reveal_strlit("/usr/local/lib/dinit.d/boot.d/");
    lemma_below_text("/usr/local/lib/dinit.d"@, waits);
    lemma_below_text("/usr/local/lib/dinit.d"@, boot);
    assert("/usr/local/lib/dinit.d"@ + seq!['/'] + waits
        == "/usr/local/lib/dinit.d/boot/waits-for.d/"@ + name);
    assert("/usr/local/lib/dinit.d"@ + seq!['/'] + boot == "/usr/local/lib/dinit.d/boot.d/"@
        + name);

    reveal_strlit("/usr/lib/dinit.d");
    reveal_strlit("/usr/lib/dinit.d/boot/waits-for.d/");
    reveal_strlit("/usr/lib/dinit.d/boot.d/");
    lemma_below_text("/usr/lib/dinit.d"@, waits);
    lemma_below_text("/usr/lib/dinit.d"@, boot);
    assert("/usr/lib/dinit.d"@ + seq!['/'] + waits == "/usr/lib/dinit.d/boot/waits-for.d/"@ + name);
    assert("/usr/lib/dinit.d"@ + seq!['/'] + boot == "/usr/lib/dinit.d/boot.d/"@ + name);

    let dirs = boot_dirs(ServiceScope::System, env);
    assert(dirs[0] == encode_utf8("/etc/dinit.d"@));
    assert(dirs[1] == encode_utf8("/run/dinit.d"@));
    assert(dirs[2] == encode_utf8("/usr/local/lib/dinit.d"@));
    assert(dirs[3] == encode_utf8("/usr/lib/dinit.d"@));
}

/// A service of the user is enabled by a link below the directory that
/// `XDG_CONFIG_HOME` gives, whether or not `HOME` is set, and by one below the
/// directory that `HOME` gives, whether or not `XDG_CONFIG_HOME` is set; in either
/// of two layouts, and by no other.
pub proof fn law_user_links(name: Seq<char>, env: EnvironmentView, path: Seq<u8>)
    requires
        relative(name),
    ensures
        enabling_links(ServiceScope::User, name, env).contains(path) <==> {
            ||| env.xdg_config_home matches Some(xdg) && path == below(
                xdg,
                "dinit.d/boot/waits-for.d/"@ + name,
            )
            ||| env.xdg_config_home matches Some(xdg) && path == below(
                xdg,
                "dinit.d/boot.d/"@ + name,
            )
            ||| env.home matches Some(home) && path == below(
                home,
                ".config/dinit.d/boot/waits-for.d/"@ + name,
            )
            ||| env.home matches Some(home) && path == below(
                home,
                ".config/dinit.d/boot.d/"@ + name,
            )
        },
{
    lemma_link_iff(ServiceScope::User, name, env, path);
    reveal_strlit("boot/waits-for.d/");
    reveal_strlit("boot.d/");
    let waits = "boot/waits-for.d/"@ + name;
    let boot = "boot.d/"@ + name;
    let dirs = boot_dirs(ServiceScope::User, env);

    reveal_strlit("dinit.d");
    reveal_strlit("dinit.d/boot/waits-for.d/");
    reveal_strlit("dinit.d/boot.d/");
    assert("dinit.d"@ + seq!['/'] + waits == "dinit.d/boot/waits-for.d/"@ + name);
    assert("dinit.d"@ + seq!['/'] + boot == "dinit.d/boot.d/"@ + name);
    match env.xdg_config_home {
        Some(xdg) => {
            lemma_below(xdg, "dinit.d"@);
            lemma_below_below(xdg, "dinit.d"@, waits);
            lemma_below_below(xdg, "dinit.d"@, boot);
            assert(dirs[0] == below(xdg, "dinit.d"@));
        },
        None => {},
    }

    reveal_strlit(".config/dinit.d");
    reveal_strlit(".config/dinit.d/boot/waits-for.d/");
    reveal_strlit(".config/dinit.d/boot.d/");
    assert(".config/dinit.d"@ + seq!['/'] + waits == ".config/dinit.d/boot/waits-for.d/"@ + name);
    assert(".config/dinit.d"@ + seq!['/'] + boot == ".config/dinit.d/boot.d/"@ + name);
    match env.home {
        Some(home) => {
            lemma_below(home, ".config/dinit.d"@);
            lemma_below_below(home, ".config/dinit.d"@, waits);
            lemma_below_below(home, ".config/dinit.d"@, boot);
            assert(dirs[dirs.len() - 1] == below(home, ".config/dinit.d"@));
        },
        None => {},
    }
}

/// A service is enabled just when one of the links that enable it exists, whatever
/// else exists and whatever files there are.
pub proof fn law_links_enable(
    scope: ServiceScope,
    name: Seq<char>,
    env: EnvironmentView,
    existing: Seq<Seq<u8>>,
    files: Seq<Seq<char>>,
)
    ensures
        enabled_state(scope, name, env, existing, files) == "enabled"@ <==> exists|p: Seq<u8>|
            enabling_links(scope, name, env).contains(p) && #[trigger] existing.contains(p),
{
    let links = enabling_links(scope, name, env);
    reveal_strlit("enabled");
    reveal_strlit("static");
    reveal_strlit("disabled");
    assert("static"@.len() == 6 && "enabled"@.len() == 7 && "disabled"@.len() == 8);
    if any_exists(links, existing) {
        let i = choose|i: int| 0 <= i < links.len() && existing.contains(#[trigger] links[i]);
        assert(links.contains(links[i]));
        assert(existing.contains(links[i]));
    }
    if exists|p: Seq<u8>| links.contains(p) && #[trigger] existing.contains(p) {
        let p = choose|p: Seq<u8>| links.contains(p) && #[trigger] existing.contains(p);
        let i = choose|i: int| 0 <= i < links.len() && links[i] == p;
        assert(existing.contains(links[i]));
    }
}

/// A link below the user's home directory enables the user's service, whatever
/// `XDG_CONFIG_HOME` is; so does one below `XDG_CONFIG_HOME`, whatever `HOME` is.
pub proof fn law_links_below_either_directory_enable(
    name: Seq<char>,
    env: EnvironmentView,
    existing: Seq<Seq<u8>>,
    files: Seq<Seq<char>>,
)
    requires
        relative(name),
        ({
            ||| env.home matches Some(home) && existing.contains(
                below(home, ".config/dinit.d/boot/waits-for.d/"@ + name),
            )
            ||| env.home matches Some(home) && existing.contains(
                below(home, ".config/dinit.d/boot.d/"@ + name),
            )
            ||| env.xdg_config_home matches Some(xdg) && existing.contains(
                below(xdg, "dinit.d/boot/waits-for.d/"@ + name),
            )
            ||| env.xdg_config_home matches Some(xdg) && existing.contains(
                below(xdg, "dinit.d/boot.d/"@ + name),
            )
        }),
    ensures
        enabled_state(ServiceScope::User, name, env, existing, files) == "enabled"@,
{
    let home = env.home.unwrap_or(Seq::empty());
    let xdg = env.xdg_config_home.unwrap_or(Seq::empty());
    law_user_links(name, env, below(home, ".config/dinit.d/boot/waits-for.d/"@ + name));
    law_user_links(name, env, below(home, ".config/dinit.d/boot.d/"@ + name));
    law_user_links(name, env, below(xdg, "dinit.d/boot/waits-for.d/"@ + name));
    law_user_links(name, env, below(xdg, "dinit.d/boot.d/"@ + name));
    law_links_enable(ServiceScope::User, name, env, existing, files);
}

/// Without a link, a service is static if one of the paths at which its
/// description may lie is a file, and disabled if none is.
pub proof fn law_files_make_static(
    scope: ServiceScope,
    name: Seq<char>,
    env: EnvironmentView,
    existing: Seq<Seq<u8>>,
    files: Seq<Seq<char>>,
)
    requires
        enabled_state(scope, name, env, existing, files) != "enabled"@,
    ensures
        enabled_state(scope, name, env, existing, files) == (if exists|p: Seq<char>|
            candidate_paths(scope, name, env).contains(p) && #[trigger] files.contains(p) {
            "static"@
        } else {
            "disabled"@
        }),
{
    let paths = candidate_paths(scope, name, env);
    law_first_candidate_wins(paths, files);
    match first_present(paths, files) {
        Some(p) => {
            assert(paths.contains(p) && files.contains(p));
        },
        None => {
            if exists|p: Seq<char>| paths.contains(p) && #[trigger] files.contains(p) {
                let p = choose|p: Seq<char>| paths.contains(p) && #[trigger] files.contains(p);
                let i = choose|i: int| 0 <= i < paths.len() && paths[i] == p;
                assert(!files.contains(paths[i]));
            }
        },
    }
}

/// The description file of a service of the system is looked for in four
/// directories, in this order.
pub proof fn law_system_candidates(name: Seq<char>, env: EnvironmentView)
    requires
        relative(name),
    ensures
        candidate_paths(ServiceScope::System, name, env) == seq![
            "/etc/dinit.d/"@ + name,
            "/usr/local/lib/dinit.d/"@ + name,
            "/usr/lib/dinit.d/"@ + name,
            "/run/dinit.d/"@ + name,
        ],
{
    let paths = candidate_paths(ServiceScope::System, name, env);
    reveal_strlit("/etc/dinit.d");
    reveal_strlit("/etc/dinit.d/");
    assert(paths[0] == "/etc/dinit.d/"@ + name);
    reveal_strlit("/usr/local/lib/dinit.d");
    reveal_strlit("/usr/local/lib/dinit.d/");
    assert(paths[1] == "/usr/local/lib/dinit.d/"@ + name);
    reveal_strlit("/usr/lib/dinit.d");
    reveal_strlit("/usr/lib/dinit.d/");
    assert(paths[2] == "/usr/lib/dinit.d/"@ + name);
    reveal_strlit("/run/dinit.d");
    reveal_strlit("/run/dinit.d/");
    assert(paths[3] == "/run/dinit.d/"@ + name);
}

/// The path `tail` below a directory that is text.
pub open spec fn below_text(dir: Seq<char>, tail: Seq<char>) -> Seq<char> {
    if dir.last() == '/' {
        dir + tail
    } else {
        dir + seq!['/'] + tail
    }
}

/// Whether a variable gives a directory: it is set to text that is not empty.
pub open spec fn gives_directory(var: Option<Seq<u8>>, dir: Seq<char>) -> bool {
    var == Some(encode_utf8(dir)) && dir.len() > 0
}

/// Whether a variable gives no directory: it is not set, or empty, or not text.
pub open spec fn gives_none(var: Option<Seq<u8>>) -> bool {
    var matches Some(b) ==> b.len() == 0 || !valid_utf8(b)
}

proof fn lemma_gives(var: Option<Seq<u8>>, dir: Seq<char>)
    ensures
        gives_directory(var, dir) ==> nonempty_text(var) == Some(dir),
        gives_none(var) ==> nonempty_text(var) is None,
{
    broadcast use {encode_utf8_valid_utf8, encode_utf8_decode_utf8};

    reveal_with_fuel(decode_utf8, 1);
}

/// The description file of a service of the user is looked for below
/// `XDG_CONFIG_HOME` first and then below `HOME`, each if it gives a directory, and
/// then in three directories of the system.
pub proof fn law_user_candidates(
    name: Seq<char>,
    env: EnvironmentView,
    xdg: Seq<char>,
    home: Seq<char>,
)
    requires
        relative(name),
        gives_directory(env.xdg_config_home, xdg) || gives_none(env.xdg_config_home),
        gives_directory(env.home, home) || gives_none(env.home),
    ensures
        ({
            let first = if gives_none(env.xdg_config_home) {
                Seq::empty()
            } else {
                seq![below_text(xdg, "dinit.d/"@ + name)]
            };
            let second = if gives_none(env.home) {
                Seq::empty()
            } else {
                seq![below_text(home, ".config/dinit.d/"@ + name)]
            };
            candidate_paths(ServiceScope::User, name, env) == first + second + seq![
                "/etc/dinit.d/user/"@ + name,
                "/usr/local/lib/dinit.d/user/"@ + name,
                "/usr/lib/dinit.d/user/"@ + name,
            ]
        }),
{
    broadcast use {encode_utf8_valid_utf8, encode_utf8_decode_utf8};

    lemma_gives(env.xdg_config_home, xdg);
    lemma_gives(env.home, home);
    reveal_strlit("dinit.d");
    reveal_strlit("dinit.d/");
    reveal_strlit(".config/dinit.d");
    reveal_strlit(".config/dinit.d/");
    reveal_strlit("/etc/dinit.d/user");
    reveal_strlit("/etc/dinit.d/user/");
    reveal_strlit("/usr/local/lib/dinit.d/user");
    reveal_strlit("/usr/local/lib/dinit.d/user/");
    reveal_strlit("/usr/lib/dinit.d/user");
    reveal_strlit("/usr/lib/dinit.d/user/");
    assert(xdg.len() > 0 ==> join_text(join_text(xdg, "dinit.d"@), name) == below_text(
        xdg,
        "dinit.d/"@ + name,
    ));
    assert(home.len() > 0 ==> join_text(join_text(home, ".config/dinit.d"@), name) == below_text(
        home,
        ".config/dinit.d/"@ + name,
    ));
    assert(join_text("/etc/dinit.d/user"@, name) == "/etc/dinit.d/user/"@ + name);
    assert(join_text("/usr/local/lib/dinit.d/user"@, name) == "/usr/local/lib/dinit.d/user/"@
        + name);
    assert(join_text("/usr/lib/dinit.d/user"@, name) == "/usr/lib/dinit.d/user/"@ + name);
    if gives_directory(env.xdg_config_home, xdg) {
        lemma_first_byte(xdg);
    }
    if gives_directory(env.home, home) {
        lemma_first_byte(home);
    }
}

/// A name that is an absolute path is looked for there alone, in every scope: it is
/// each of its candidates and each of its links.
pub proof fn law_absolute_names_stand_alone(
    scope: ServiceScope,
    name: Seq<char>,
    env: EnvironmentView,
    path: Seq<u8>,
    i: int,
)
    requires
        name.len() > 0 && name[0] == '/',
    ensures
        0 <= i < candidate_paths(scope, name, env).len() ==> candidate_paths(scope, name, env)[i]
            == name,
        enabling_links(scope, name, env).contains(path) ==> path == encode_utf8(name),
{
    lemma_first_byte(name);
    let dirs = boot_dirs(scope, env);
    let f = |dir: Seq<u8>| links_in(dir, name);
    lemma_flat_map_contains(dirs, f, path);
    if enabling_links(scope, name, env).contains(path) {
        let k = choose|k: int| 0 <= k < dirs.len() && (#[trigger] f(dirs[k])).contains(path);
        assert(links_in(dirs[k], name) == seq![encode_utf8(name), encode_utf8(name)]);
    }
}

/// What is to be checked for a list is what counts for one of its services, and
/// nothing else.
pub proof fn law_only_what_counts_is_checked(
    output: Seq<char>,
    scope: ServiceScope,
    env: EnvironmentView,
    link: Seq<u8>,
    file: Seq<char>,
)
    ensures
        links_of_list(output, scope, env).contains(link) <==> exists|i: int|
            0 <= i < listed(output).len() && enabling_links(
                scope,
                (#[trigger] listed(output)[i]).1,
                env,
            ).contains(link),
        files_of_list(output, scope, env).contains(file) <==> exists|i: int|
            0 <= i < listed(output).len() && candidate_paths(
                scope,
                (#[trigger] listed(output)[i]).1,
                env,
            ).contains(file),
{
    let entries = listed(output);
    let f = |entry: (Seq<char>, Seq<char>)| enabling_links(scope, entry.1, env);
    let g = |entry: (Seq<char>, Seq<char>)| candidate_paths(scope, entry.1, env);
    lemma_flat_map_contains(entries, f, link);
    lemma_flat_map_contains(entries, g, file);
    assert forall|i: int| 0 <= i < entries.len() implies f(#[trigger] entries[i])
        == enabling_links(scope, entries[i].1, env) && g(entries[i]) == candidate_paths(
        scope,
        entries[i].1,
        env,
    ) by {}
    if exists|i: int| 0 <= i < entries.len() && (#[trigger] f(entries[i])).contains(link) {
        let i = choose|i: int| 0 <= i < entries.len() && (#[trigger] f(entries[i])).contains(link);
        assert(enabling_links(scope, entries[i].1, env).contains(link));
    }
    if exists|i: int| 0 <= i < entries.len() && (#[trigger] g(entries[i])).contains(file) {
        let i = choose|i: int| 0 <= i < entries.len() && (#[trigger] g(entries[i])).contains(file);
        assert(candidate_paths(scope, entries[i].1, env).contains(file));
    }
}

} // verus!
