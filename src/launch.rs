use vstd::prelude::*;
use vstd::string::*;

use crate::events::{Error, ErrorKind};
use crate::players::texts;
use crate::text::{
    chars_of, decimal, ends_with, find, find_from, has_prefix, has_suffix, parse_i32,
    parse_i32_chars, push_decimal, slice_vec, starts_with,
};

verus! {

/// The server software an instance runs, with what its build needs.
#[derive(Debug)]
pub enum Flavour {
    Vanilla,
    Fabric { loader_version: Option<String>, installer_version: Option<String> },
    Paper { build: Option<i64> },
    Spigot,
    Forge { build_version: Option<String> },
}

/// What the launch command of a Java server is built from.
#[derive(Debug)]
pub struct LaunchConfig {
    /// Memory bounds, in MiB.
    pub max_ram: u32,
    pub min_ram: u32,
    /// Extra arguments for the JVM; empty ones are skipped.
    pub cmd_args: Vec<String>,
    pub flavour: Flavour,
    /// The game version, `1.<major>.<minor>`.
    pub version: String,
}

/// The arguments of `s` that are not empty, in order.
pub open spec fn non_empty(s: Seq<Seq<char>>) -> Seq<Seq<char>>
    decreases s.len(),
{
    if s.len() == 0 {
        s
    } else if s.last().len() == 0 {
        non_empty(s.drop_last())
    } else {
        non_empty(s.drop_last()).push(s.last())
    }
}

/// The second dot-separated piece of a version string (`20` in `1.20.1`).
pub open spec fn second_piece(v: Seq<char>) -> Option<Seq<char>> {
    match find_from(v, "."@, 0) {
        None => None,
        Some(i) => {
            let rest = v.subrange(i + 1, v.len() as int);
            match find_from(rest, "."@, 0) {
                Some(j) => Some(rest.subrange(0, j)),
                None => Some(rest),
            }
        },
    }
}

/// A jar file name: it ends in `.jar` after at least one character.
pub open spec fn is_jar(name: Seq<char>) -> bool {
    name.len() > 4 && ends_with(name, ".jar"@)
}

/// The first name from index `i` on that is a jar starting with `prefix`.
pub open spec fn first_jar(files: Seq<Seq<char>>, prefix: Seq<char>, i: int) -> Option<Seq<char>>
    decreases files.len() - i,
{
    if i < 0 || i >= files.len() {
        None
    } else if is_jar(files[i]) && starts_with(files[i], prefix) {
        Some(files[i])
    } else {
        first_jar(files, prefix, i + 1)
    }
}

/// The memory arguments and extra JVM arguments, before what the flavour adds.
pub open spec fn jvm_args(max_ram: u32, min_ram: u32, extra: Seq<Seq<char>>) -> Seq<Seq<char>> {
    seq!["-Xmx"@ + decimal(max_ram as nat) + "M"@, "-Xms"@ + decimal(min_ram as nat) + "M"@]
        + non_empty(extra)
}

/// A path separator: `/`, and on Windows also `\`.
pub open spec fn is_sep(c: char, windows: bool) -> bool {
    c == '/' || (windows && c == '\\')
}

/// `dir` joined with the relative path `name`, as `Path::join` does it: with the platform's
/// separator between them, unless `dir` is empty or already ends in a separator.
pub open spec fn join_path(dir: Seq<char>, name: Seq<char>, windows: bool) -> Seq<char> {
    if dir.len() == 0 || is_sep(dir.last(), windows) {
        dir + name
    } else {
        dir.push(if windows {
            '\\'
        } else {
            '/'
        }) + name
    }
}

/// The argument file of a Forge build, under the instance directory.
pub open spec fn forge_args_path(dir: Seq<char>, build: Seq<char>, windows: bool) -> Seq<char> {
    let libs = join_path(
        join_path(join_path(join_path(dir, "libraries"@, windows), "net"@, windows), "minecraftforge"@, windows),
        "forge"@,
        windows,
    );
    join_path(
        join_path(libs, build, windows),
        if windows {
            "win_args.txt"@
        } else {
            "unix_args.txt"@
        },
        windows,
    )
}

/// What the flavour adds to start the server, under the instance directory `dir`: for Forge,
/// which file depends on the game version; otherwise `server.jar`. An error text when Forge's
/// build or files cannot be found.
pub open spec fn flavour_args(
    forge_build: Option<Option<Seq<char>>>,
    version: Seq<char>,
    dir: Seq<char>,
    files: Seq<Seq<char>>,
    windows: bool,
) -> Result<Seq<Seq<char>>, Seq<char>> {
    match forge_build {
        None => Ok(seq!["-jar"@, join_path(dir, "server.jar"@, windows)]),
        Some(None) => Err("Forge version not found"@),
        Some(Some(build)) => match second_piece(version) {
            None => Err("Unable to parse major Minecraft version for Forge"@),
            Some(piece) => match parse_i32(piece) {
                None => Err("Unable to parse major Minecraft version for Forge"@),
                Some(major) => if 17 <= major {
                    Ok(seq!["@"@ + forge_args_path(dir, build, windows)])
                } else if 7 <= major {
                    match first_jar(files, "forge-"@ + version + "-"@, 0) {
                        Some(f) => Ok(seq!["-jar"@, join_path(dir, f, windows)]),
                        None => Err("Failed to find forge.jar"@),
                    }
                } else {
                    match first_jar(files, "minecraftforge"@, 0) {
                        Some(f) => Ok(seq!["-jar"@, join_path(dir, f, windows)]),
                        None => Err("Failed to find minecraftforge.jar"@),
                    }
                },
            },
        },
    }
}

/// The Forge build a flavour names: `None` for other flavours.
pub open spec fn forge_build_of(f: Flavour) -> Option<Option<Seq<char>>> {
    match f {
        Flavour::Forge { build_version } => Some(
            match build_version {
                Some(b) => Some(b@),
                None => None,
            },
        ),
        _ => None,
    }
}

/// Appends the relative path `name` to the path in `out`, as `Path::push` does.
fn push_path(out: &mut String, name: &str, windows: bool)
    ensures
        final(out)@ == join_path(old(out)@, name@, windows),
{
    let c = chars_of(out.as_str());
    let n = c.len();
    proof {
        reveal_strlit("/");
        reveal_strlit("\\");
    }
    if n > 0 && !(c[n - 1] == '/' || (windows && c[n - 1] == '\\')) {
        if windows {
            out.append("\\");
        } else {
            out.append("/");
        }
        assert(out@ =~= old(out)@.push(if windows { '\\' } else { '/' }));
    }
    out.append(name);
    proof {
        if n > 0 {
            assert(c@.last() == old(out)@.last());
        }
    }
}

/// Keeps the non-empty strings of `v`, in order.
fn keep_non_empty(v: &Vec<String>, out: &mut Vec<String>)
    ensures
        texts(final(out)@) == texts(old(out)@) + non_empty(texts(v@)),
{
    let mut i: usize = 0;
    let ghost start = texts(out@);
    assert(texts(v@).subrange(0, 0) =~= Seq::<Seq<char>>::empty());
    assert(start + non_empty(Seq::<Seq<char>>::empty()) =~= start);
    while i < v.len()
        invariant
            i <= v@.len(),
            start == texts(old(out)@),
            texts(out@) == start + non_empty(texts(v@).subrange(0, i as int)),
        decreases v@.len() - i,
    {
        let ghost before = out@;
        let ghost pre = texts(v@).subrange(0, i as int);
        let ghost next = texts(v@).subrange(0, i + 1);
        assert(next.drop_last() =~= pre);
        assert(next.last() == v@[i as int]@);
        if v[i].as_str().unicode_len() > 0 {
            out.push(v[i].clone());
            assert(texts(out@) =~= texts(before).push(v@[i as int]@));
            assert(texts(out@) =~= start + non_empty(next));
        } else {
            assert(texts(out@) =~= start + non_empty(next));
        }
        i = i + 1;
    }
    assert(texts(v@).subrange(0, i as int) =~= texts(v@));
}

/// The first name of `files` that is a jar starting with `prefix`.
fn find_jar(files: &Vec<String>, prefix: &Vec<char>) -> (r: Option<String>)
    ensures
        match r {
            Some(f) => first_jar(texts(files@), prefix@, 0) == Some(f@),
            None => first_jar(texts(files@), prefix@, 0) is None,
        },
{
    let jar = chars_of(".jar");
    let mut i: usize = 0;
    while i < files.len()
        invariant
            i <= files@.len(),
            jar@ == ".jar"@,
            first_jar(texts(files@), prefix@, 0) == first_jar(texts(files@), prefix@, i as int),
        decreases files@.len() - i,
    {
        let name = chars_of(files[i].as_str());
        assert(texts(files@)[i as int] == files@[i as int]@);
        if name.len() > 4 && has_suffix(&name, &jar) && has_prefix(&name, prefix) {
            return Some(files[i].clone());
        }
        i = i + 1;
    }
    None
}

/// The second dot-separated piece of `v`, as a number.
fn version_major(v: &str) -> (r: Option<i32>)
    ensures
        r == (match second_piece(v@) {
            Some(p) => parse_i32(p),
            None => None,
        }),
{
    let c = chars_of(v);
    let dot = chars_of(".");
    proof {
        reveal_strlit(".");
    }
    let n = c.len();
    match find(&c, &dot, 0) {
        None => None,
        Some(i) => {
            let rest = slice_vec(&c, i + 1, n);
            let piece = match find(&rest, &dot, 0) {
                Some(j) => slice_vec(&rest, 0, j),
                None => rest,
            };
            parse_i32_chars(&piece)
        },
    }
}

/// The command that starts a Java server of `config` with the Java executable `jre`: memory
/// bounds, the extra arguments, what the flavour needs (`files` are the names of the files in
/// the instance directory `dir`), and `nogui`.
pub fn java_launch_args(
    config: &LaunchConfig,
    jre: &str,
    dir: &str,
    files: &Vec<String>,
    windows: bool,
) -> (r: Result<(String, Vec<String>), Error>)
    ensures
        match flavour_args(
            forge_build_of(config.flavour),
            config.version@,
            dir@,
            texts(files@),
            windows,
        ) {
            Ok(tail) => r matches Ok((program, args)) && program@ == jre@ && texts(args@)
                == jvm_args(config.max_ram, config.min_ram, texts(config.cmd_args@)) + tail
                + seq!["nogui"@],
            Err(msg) => r matches Err(e) && e.kind == ErrorKind::Internal && e.detail@ == msg,
        },
{
    let mut args: Vec<String> = Vec::new();
    let mut mx = String::from_str("-Xmx");
    push_decimal(&mut mx, config.max_ram as u64);
    mx.append("M");
    let mut ms = String::from_str("-Xms");
    push_decimal(&mut ms, config.min_ram as u64);
    ms.append("M");
    args.push(mx);
    args.push(ms);
    keep_non_empty(&config.cmd_args, &mut args);
    let ghost head = texts(args@);
    assert(head =~= jvm_args(config.max_ram, config.min_ram, texts(config.cmd_args@)));
    let mut tail: Vec<String> = Vec::new();
    match &config.flavour {
        Flavour::Forge { build_version } => {
            let build = match build_version {
                Some(b) => b,
                None => {
                    return Err(Error::new(ErrorKind::Internal, "Forge version not found"));
                },
            };
            let major = match version_major(config.version.as_str()) {
                Some(m) => m,
                None => {
                    return Err(
                        Error::new(ErrorKind::Internal, "Unable to parse major Minecraft version for Forge"),
                    );
                },
            };
            if 17 <= major {
                let mut p = String::from_str(dir);
                push_path(&mut p, "libraries", windows);
                push_path(&mut p, "net", windows);
                push_path(&mut p, "minecraftforge", windows);
                push_path(&mut p, "forge", windows);
                push_path(&mut p, build.as_str(), windows);
                if windows {
                    push_path(&mut p, "win_args.txt", windows);
                } else {
                    push_path(&mut p, "unix_args.txt", windows);
                }
                let mut a = String::from_str("@");
                a.append(p.as_str());
                tail.push(a);
            } else if 7 <= major {
                let mut prefix = String::from_str("forge-");
                prefix.append(config.version.as_str());
                prefix.append("-");
                match find_jar(files, &chars_of(prefix.as_str())) {
                    Some(f) => {
                        let mut p = String::from_str(dir);
                        push_path(&mut p, f.as_str(), windows);
                        tail.push(String::from_str("-jar"));
                        tail.push(p);
                    },
                    None => {
                        return Err(Error::new(ErrorKind::Internal, "Failed to find forge.jar"));
                    },
                }
            } else {
                match find_jar(files, &chars_of("minecraftforge")) {
                    Some(f) => {
                        let mut p = String::from_str(dir);
                        push_path(&mut p, f.as_str(), windows);
                        tail.push(String::from_str("-jar"));
                        tail.push(p);
                    },
                    None => {
                        return Err(Error::new(ErrorKind::Internal, "Failed to find minecraftforge.jar"));
                    },
                }
            }
        },
        _ => {
            let mut p = String::from_str(dir);
            push_path(&mut p, "server.jar", windows);
            tail.push(String::from_str("-jar"));
            tail.push(p);
        },
    }
    let ghost t = texts(tail@);
    let mut i: usize = 0;
    while i < tail.len()
        invariant
            i <= tail@.len(),
            t == texts(tail@),
            texts(args@) == head + t.subrange(0, i as int),
        decreases tail@.len() - i,
    {
        let ghost before = args@;
        args.push(tail[i].clone());
        assert(texts(args@) =~= texts(before).push(t[i as int]));
        assert(t.subrange(0, i + 1) =~= t.subrange(0, i as int).push(t[i as int]));
        i = i + 1;
    }
    args.push(String::from_str("nogui"));
    assert(t.subrange(0, i as int) =~= t);
    assert(texts(args@) =~= head + t + seq!["nogui"@]);
    assert(t == flavour_args(
        forge_build_of(config.flavour),
        config.version@,
        dir@,
        texts(files@),
        windows,
    )->Ok_0) by {
        reveal_strlit("-jar");
        reveal_strlit("@");
    }
    Ok((String::from_str(jre), args))
}

/// A custom launch command: its program, and its other space-separated words that are not
/// empty. `None` when the command is empty.
pub open spec fn custom_parts(cmd: Seq<char>) -> Option<(Seq<char>, Seq<Seq<char>>)> {
    if cmd.len() == 0 {
        None
    } else {
        Some((words(cmd)[0], non_empty(words(cmd).drop_first())))
    }
}

/// The pieces of `s` between single spaces, as `str::split(' ')` gives them.
pub open spec fn words(s: Seq<char>) -> Seq<Seq<char>>
    decreases s.len(),
{
    match find_from(s, seq![' '], 0) {
        Some(i) => if 0 <= i < s.len() {
            seq![s.subrange(0, i)] + words(s.subrange(i + 1, s.len() as int))
        } else {
            seq![s]
        },
        None => seq![s],
    }
}

/// Splits a custom launch command into its program and its non-empty arguments.
pub fn custom_command(cmd: &str) -> (r: Option<(String, Vec<String>)>)
    ensures
        match custom_parts(cmd@) {
            Some((prog, rest)) => r matches Some((p, a)) && p@ == prog && texts(a@) == rest,
            None => r is None,
        },
{
    let c = chars_of(cmd);
    let n = c.len();
    if n == 0 {
        return None;
    }
    let space = chars_of(" ");
    proof {
        reveal_strlit(" ");
        assert(space@ =~= seq![' ']);
    }
    let mut pieces: Vec<String> = Vec::new();
    let mut start: usize = 0;
    let mut done = false;
    assert(c@.subrange(0, n as int) =~= c@);
    assert(texts(pieces@) + words(c@) =~= words(c@));
    while !done
        invariant
            start <= n,
            n == c@.len(),
            c@ == cmd@,
            space@ == seq![' '],
            !done ==> words(cmd@) == texts(pieces@) + words(c@.subrange(start as int, n as int)),
            done ==> words(cmd@) == texts(pieces@),
        decreases n - start + (if done { 0int } else { 1int }),
    {
        let rest = slice_vec(&c, start, n);
        let ghost before = pieces@;
        match find(&rest, &space, 0) {
            Some(i) => {
                let piece = String::from_str(cmd.substring_char(start, start + i));
                assert(piece@ =~= rest@.subrange(0, i as int));
                pieces.push(piece);
                assert(pieces@ =~= before.push(piece));
                assert(texts(pieces@) =~= texts(before).push(rest@.subrange(0, i as int)));
                assert(rest@.subrange(i + 1, rest@.len() as int) =~= c@.subrange(
                    start + i + 1,
                    n as int,
                ));
                assert(texts(pieces@) + words(c@.subrange(start + i + 1, n as int)) =~= texts(before)
                    + words(rest@));
                start = start + i + 1;
            },
            None => {
                let piece = String::from_str(cmd.substring_char(start, n));
                assert(piece@ =~= rest@);
                pieces.push(piece);
                assert(pieces@ =~= before.push(piece));
                assert(texts(pieces@) =~= texts(before) + words(rest@));
                done = true;
            },
        }
    }
    proof {
        assert(words(cmd@).len() >= 1) by {
            lemma_words_nonempty(cmd@);
        }
    }
    let mut args: Vec<String> = Vec::new();
    let mut i: usize = 1;
    let ghost w = texts(pieces@);
    assert(w.drop_first().subrange(0, 0) =~= Seq::<Seq<char>>::empty());
    while i < pieces.len()
        invariant
            1 <= i <= pieces@.len(),
            w == texts(pieces@),
            texts(args@) == non_empty(w.drop_first().subrange(0, i - 1)),
        decreases pieces@.len() - i,
    {
        let ghost before = args@;
        let ghost next = w.drop_first().subrange(0, i as int);
        assert(next.drop_last() =~= w.drop_first().subrange(0, i - 1));
        assert(next.last() == pieces@[i as int]@);
        if pieces[i].as_str().unicode_len() > 0 {
            args.push(pieces[i].clone());
            assert(texts(args@) =~= texts(before).push(pieces@[i as int]@));
        }
        i = i + 1;
    }
    assert(w.drop_first().subrange(0, i - 1) =~= w.drop_first());
    let prog = pieces[0].clone();
    Some((prog, args))
}

proof fn lemma_words_nonempty(s: Seq<char>)
    ensures
        words(s).len() >= 1,
    decreases s.len(),
{
    match find_from(s, seq![' '], 0) {
        Some(i) => if 0 <= i < s.len() {
            lemma_words_nonempty(s.subrange(i + 1, s.len() as int));
        },
        None => {},
    }
}

} // verus!
