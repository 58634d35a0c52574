//! Finding plugin files: the standard search directories, and what counts as a
//! plugin file in them.

use crate::order::bytes_less;
use crate::text::{same_bytes, split_at_char, trim};
use vstd::prelude::*;

verus! {

/// The kinds of systems whose search directories differ.
#[derive(Clone, Copy, Debug, PartialEq, Eq, Structural)]
pub enum Platform {
    Windows,
    MacOs,
    Unix,
}

/// The environment variables that name search directories, where set.
pub struct SearchEnv {
    pub common_program_files: Option<String>,
    pub local_app_data: Option<String>,
    pub home: Option<String>,
    pub clap_path: Option<String>,
}

/// The texts of one directory: a path and the components joined to it.
pub open spec fn dir_texts(dirs: Seq<Vec<String>>) -> Seq<Seq<Seq<char>>> {
    dirs.map_values(|d: Vec<String>| crate::text::strings(d@))
}

/// A directory below one that the environment names, if it does.
pub open spec fn below(base: Option<String>, tail: Seq<Seq<char>>) -> Seq<Seq<Seq<char>>> {
    match base {
        Some(b) => seq![seq![b@] + tail],
        None => Seq::empty(),
    }
}

/// The directories that the system defines.
pub open spec fn system_dirs(platform: Platform, env: SearchEnv) -> Seq<Seq<Seq<char>>> {
    match platform {
        Platform::Windows => below(env.common_program_files, seq!["CLAP"@]) + below(
            env.local_app_data,
            seq!["Programs"@, "Common"@, "CLAP"@],
        ),
        Platform::MacOs => seq![seq!["/Library/Audio/Plug-Ins/CLAP"@]] + below(
            env.home,
            seq!["Library/Audio/Plug-Ins/CLAP"@],
        ),
        Platform::Unix => seq![seq!["/usr/lib/clap"@], seq!["/usr/local/lib/clap"@]] + below(
            env.home,
            seq![".clap"@],
        ),
    }
}

/// What separates the directories in `CLAP_PATH`.
pub open spec fn separator(platform: Platform) -> char {
    if platform == Platform::Windows {
        ';'
    } else {
        ':'
    }
}

/// The directories that a list of pieces names: each trimmed, empty ones left
/// out.
pub open spec fn named_dirs(pieces: Seq<Seq<char>>) -> Seq<Seq<Seq<char>>>
    decreases pieces.len(),
{
    if pieces.len() == 0 {
        Seq::empty()
    } else {
        let before = named_dirs(pieces.drop_last());
        let dir = crate::text::trimmed(pieces.last());
        if dir.len() == 0 {
            before
        } else {
            before.push(seq![dir])
        }
    }
}

/// The directories that `CLAP_PATH` adds.
pub open spec fn extra_dirs(platform: Platform, env: SearchEnv) -> Seq<Seq<Seq<char>>> {
    match env.clap_path {
        Some(var) => named_dirs(crate::text::split(var@, separator(platform))),
        None => Seq::empty(),
    }
}

fn parts(base: &str, tail: &[&str]) -> (dir: Vec<String>)
    ensures
        crate::text::strings(dir@) == seq![base@] + crate::text::texts(tail@),
{
    let mut dir: Vec<String> = Vec::new();
    dir.push(base.to_owned());
    let mut i: usize = 0;
    assert(crate::text::strings(dir@) =~= seq![base@] + crate::text::texts(tail@).take(0));
    while i < tail.len()
        invariant
            i <= tail@.len(),
            crate::text::strings(dir@) == seq![base@] + crate::text::texts(tail@).take(i as int),
        decreases tail@.len() - i,
    {
        let ghost before = dir@;
        dir.push(tail[i].to_owned());
        i = i + 1;
        assert(crate::text::strings(dir@) =~= crate::text::strings(before).push(
            crate::text::texts(tail@)[i - 1],
        ));
        assert(crate::text::strings(dir@) =~= seq![base@] + crate::text::texts(tail@).take(
            i as int,
        ));
    }
    assert(crate::text::texts(tail@).take(i as int) =~= crate::text::texts(tail@));
    dir
}

fn push_below(dirs: &mut Vec<Vec<String>>, base: &Option<String>, tail: &[&str])
    ensures
        dir_texts(final(dirs)@) == dir_texts(old(dirs)@) + below(
            *base,
            crate::text::texts(tail@),
        ),
{
    if let Some(b) = base {
        let dir = parts(b.as_str(), tail);
        let ghost added = crate::text::strings(dir@);
        dirs.push(dir);
        assert(dir_texts(dirs@) =~= dir_texts(old(dirs)@).push(added));
    }
    assert(dir_texts(dirs@) =~= dir_texts(old(dirs)@) + below(*base, crate::text::texts(tail@)));
}

fn push_fixed(dirs: &mut Vec<Vec<String>>, path: &str)
    ensures
        dir_texts(final(dirs)@) == dir_texts(old(dirs)@).push(seq![path@]),
{
    let mut dir: Vec<String> = Vec::new();
    dir.push(path.to_owned());
    assert(crate::text::strings(dir@) =~= seq![path@]);
    dirs.push(dir);
    assert(dir_texts(dirs@) =~= dir_texts(old(dirs)@).push(seq![path@]));
}

/// Search directories, each as a path and components to join to it: those of
/// the system, then those that `CLAP_PATH` adds.
pub fn standard_dirs(platform: Platform, env: &SearchEnv) -> (dirs: Vec<Vec<String>>)
    ensures
        dir_texts(dirs@) == system_dirs(platform, *env) + extra_dirs(platform, *env),
{
    let mut dirs: Vec<Vec<String>> = Vec::new();
    assert(dir_texts(dirs@) =~= Seq::empty());
    match platform {
        Platform::Windows => {
            let tail = ["CLAP"];
            push_below(&mut dirs, &env.common_program_files, &tail);
            let tail3 = ["Programs", "Common", "CLAP"];
            push_below(&mut dirs, &env.local_app_data, &tail3);
            assert(crate::text::texts(tail@) =~= seq!["CLAP"@]);
            assert(crate::text::texts(tail3@) =~= seq!["Programs"@, "Common"@, "CLAP"@]);
        },
        Platform::MacOs => {
            push_fixed(&mut dirs, "/Library/Audio/Plug-Ins/CLAP");
            let tail = ["Library/Audio/Plug-Ins/CLAP"];
            push_below(&mut dirs, &env.home, &tail);
            assert(crate::text::texts(tail@) =~= seq!["Library/Audio/Plug-Ins/CLAP"@]);
        },
        Platform::Unix => {
            push_fixed(&mut dirs, "/usr/lib/clap");
            push_fixed(&mut dirs, "/usr/local/lib/clap");
            let tail = [".clap"];
            push_below(&mut dirs, &env.home, &tail);
            assert(crate::text::texts(tail@) =~= seq![".clap"@]);
        },
    }
    assert(dir_texts(dirs@) =~= system_dirs(platform, *env));
    if let Some(var) = &env.clap_path {
        let sep = match platform {
            Platform::Windows => ';',
            _ => ':',
        };
        let pieces = split_at_char(var.as_str(), sep);
        let ghost all = crate::text::texts(pieces@);
        let ghost system = dir_texts(dirs@);
        let mut i: usize = 0;
        assert(named_dirs(all.take(0)) =~= Seq::empty());
        assert(system + Seq::<Seq<Seq<char>>>::empty() =~= system);
        while i < pieces.len()
            invariant
                i <= pieces@.len(),
                all == crate::text::texts(pieces@),
                dir_texts(dirs@) == system + named_dirs(all.take(i as int)),
            decreases pieces@.len() - i,
        {
            assert(all.take(i + 1).drop_last() =~= all.take(i as int));
            assert(all.take(i + 1).last() == pieces@[i as int]@);
            let dir = trim(pieces[i]);
            let ghost before = named_dirs(all.take(i as int));
            if !dir.is_empty() {
                push_fixed(&mut dirs, dir);
                assert((system + before).push(seq![dir@]) =~= system + before.push(seq![dir@]));
            }
            i = i + 1;
        }
        assert(all.take(all.len() as int) =~= all);
    } else {
        assert(system_dirs(platform, *env) + extra_dirs(platform, *env) =~= system_dirs(
            platform,
            *env,
        ));
    }
    dirs
}

/// Law: everywhere but on Windows there are directories to search whatever the
/// environment holds; on Windows there are as soon as it names one of the two.
pub proof fn there_is_somewhere_to_search(platform: Platform, env: SearchEnv)
    ensures
        platform != Platform::Windows ==> system_dirs(platform, env).len() > 0,
        env.common_program_files is Some || env.local_app_data is Some ==> system_dirs(
            platform,
            env,
        ).len() > 0,
{
}

/// Law: `CLAP_PATH` only adds directories, behind those of the system, and none
/// of them has an empty path.
pub proof fn extra_dirs_are_not_empty(pieces: Seq<Seq<char>>)
    ensures
        forall|i: int|
            0 <= i < named_dirs(pieces).len() ==> {
                &&& (#[trigger] named_dirs(pieces)[i]).len() == 1
                &&& named_dirs(pieces)[i][0].len() > 0
            },
    decreases pieces.len(),
{
    if pieces.len() > 0 {
        extra_dirs_are_not_empty(pieces.drop_last());
        let before = named_dirs(pieces.drop_last());
        assert forall|i: int| 0 <= i < named_dirs(pieces).len() implies (#[trigger] named_dirs(
            pieces,
        )[i]).len() == 1 && named_dirs(pieces)[i][0].len() > 0 by {
            if i < before.len() {
                assert(named_dirs(pieces)[i] == before[i]);
            }
        }
    }
}

/// A directory as it was read: its entries in the order of the file system. A
/// directory that could not be read has none. Files carry the number under
/// which the program keeps their path.
pub enum DirEntry {
    Dir(Vec<DirEntry>),
    File { name: Vec<u8>, id: usize },
}

/// Whether a file name has the extension of plugin files: something, a dot, and
/// `clap` at the end.
pub open spec fn is_plugin_name(name: Seq<u8>) -> bool {
    &&& name.len() > 5
    &&& name.skip(name.len() - 5) == seq![0x2eu8, 0x63u8, 0x6cu8, 0x61u8, 0x70u8]
}

/// The plugin files below some entries, depth first, in order.
pub open spec fn plugin_files(entries: Seq<DirEntry>) -> Seq<usize>
    decreases entries,
{
    if entries.len() == 0 {
        Seq::empty()
    } else {
        plugin_files(entries.drop_last()) + match entries.last() {
            DirEntry::Dir(inner) => plugin_files(inner@),
            DirEntry::File { name, id } => if is_plugin_name(name@) {
                seq![id]
            } else {
                Seq::empty()
            },
        }
    }
}

fn has_plugin_name(name: &Vec<u8>) -> (r: bool)
    ensures
        r == is_plugin_name(name@),
{
    if name.len() <= 5 {
        return false;
    }
    let n: usize = name.len();
    let tail = vstd::slice::slice_subrange(name.as_slice(), n - 5, n);
    let ext: [u8; 5] = [0x2e, 0x63, 0x6c, 0x61, 0x70];
    assert(name@.skip(n - 5) =~= tail@);
    assert(ext@ =~= seq![0x2eu8, 0x63u8, 0x6cu8, 0x61u8, 0x70u8]);
    same_bytes(tail, &ext)
}

/// Recursively collect the plugin files of a directory.
pub fn scan_dir(entries: &Vec<DirEntry>) -> (found: Vec<usize>)
    ensures
        found@ == plugin_files(entries@),
    decreases entries,
{
    let mut found: Vec<usize> = Vec::new();
    let mut i: usize = 0;
    assert(plugin_files(entries@.take(0)) =~= Seq::empty());
    while i < entries.len()
        invariant
            i <= entries@.len(),
            found@ == plugin_files(entries@.take(i as int)),
        decreases entries@.len() - i,
    {
        assert(entries@.take(i + 1).drop_last() =~= entries@.take(i as int));
        assert(entries@.take(i + 1).last() == entries@[i as int]);
        match &entries[i] {
            DirEntry::Dir(inner) => {
                assert(decreases_to!(entries => entries@[i as int]));
                let mut below = scan_dir(inner);
                found.append(&mut below);
            },
            DirEntry::File { name, id } => {
                if has_plugin_name(name) {
                    let ghost before = found@;
                    found.push(*id);
                    assert(before.push(*id) =~= before + seq![*id]);
                } else {
                    assert(found@ + Seq::<usize>::empty() =~= found@);
                }
            },
        }
        i = i + 1;
    }
    assert(entries@.take(entries@.len() as int) =~= entries@);
    found
}

/// Kinds of path components, in the order in which they sort: prefix, root,
/// current and parent directory, names.
pub const RANK_PREFIX: u8 = 0;

pub const RANK_ROOT: u8 = 1;

pub const RANK_CURRENT: u8 = 2;

pub const RANK_PARENT: u8 = 3;

pub const RANK_NAME: u8 = 4;

/// One component of a path: its kind and its bytes.
pub struct PathPart {
    pub rank: u8,
    pub name: Vec<u8>,
}

/// The path of a found file, by components, and the number under which the
/// program keeps it.
pub struct FoundPath {
    pub parts: Vec<PathPart>,
    pub id: usize,
}

/// A component as it is compared.
pub open spec fn part_key(part: PathPart) -> (u8, Seq<u8>) {
    (part.rank, part.name@)
}

/// A path as it is compared.
pub open spec fn path_key(path: FoundPath) -> Seq<(u8, Seq<u8>)> {
    path.parts@.map_values(|p: PathPart| part_key(p))
}

/// Components sort by kind, then by their bytes.
pub open spec fn part_less() -> spec_fn((u8, Seq<u8>), (u8, Seq<u8>)) -> bool {
    |x: (u8, Seq<u8>), y: (u8, Seq<u8>)|
        x.0 < y.0 || (x.0 == y.0 && crate::order::lex_less(x.1, y.1, crate::order::byte_less()))
}

/// Paths sort component by component.
pub open spec fn path_less(a: Seq<(u8, Seq<u8>)>, b: Seq<(u8, Seq<u8>)>) -> bool {
    crate::order::lex_less(a, b, part_less())
}

proof fn parts_are_ordered()
    ensures
        crate::order::strict_order(part_less()),
{
    let bytes = crate::order::byte_less();
    assert(crate::order::strict_order(bytes));
    let less = part_less();
    assert forall|x: (u8, Seq<u8>), y: (u8, Seq<u8>)| #[trigger] less(x, y) implies x != y && !less(
        y,
        x,
    ) by {
        crate::order::lex_decides(x.1, y.1, bytes);
    }
    assert forall|x: (u8, Seq<u8>), y: (u8, Seq<u8>), z: (u8, Seq<u8>)| #[trigger]
        less(x, y) && #[trigger] less(y, z) implies less(x, z) by {
        if x.0 == y.0 && y.0 == z.0 {
            crate::order::lex_chains(x.1, y.1, z.1, bytes);
        }
    }
    assert forall|x: (u8, Seq<u8>), y: (u8, Seq<u8>)| x != y implies #[trigger] less(x, y) || less(
        y,
        x,
    ) by {
        crate::order::lex_decides(x.1, y.1, bytes);
    }
}

fn part_is_less(a: &PathPart, b: &PathPart) -> (r: bool)
    ensures
        r == part_less()(part_key(*a), part_key(*b)),
{
    a.rank < b.rank || (a.rank == b.rank && bytes_less(a.name.as_slice(), b.name.as_slice()))
}

fn path_is_less(a: &FoundPath, b: &FoundPath) -> (r: bool)
    ensures
        r == path_less(path_key(*a), path_key(*b)),
{
    let ghost x = path_key(*a);
    let ghost y = path_key(*b);
    let ghost less = part_less();
    let mut i: usize = 0;
    assert(x.skip(0) =~= x);
    assert(y.skip(0) =~= y);
    proof {
        parts_are_ordered();
    }
    while i < a.parts.len() && i < b.parts.len()
        invariant
            x == path_key(*a),
            y == path_key(*b),
            less == part_less(),
            crate::order::strict_order(less),
            i <= a.parts@.len(),
            i <= b.parts@.len(),
            path_less(x, y) == path_less(x.skip(i as int), y.skip(i as int)),
        decreases a.parts@.len() - i,
    {
        let ghost p = x.skip(i as int)[0];
        let ghost q = y.skip(i as int)[0];
        if part_is_less(&a.parts[i], &b.parts[i]) {
            assert(less(p, q));
            return true;
        }
        if part_is_less(&b.parts[i], &a.parts[i]) {
            assert(less(q, p));
            return false;
        }
        assert(!less(p, q) && !less(q, p));
        assert(p == q);
        assert(x.skip(i as int).skip(1) =~= x.skip(i + 1));
        assert(y.skip(i as int).skip(1) =~= y.skip(i + 1));
        i = i + 1;
    }
    i < b.parts.len()
}

/// The list is sorted and holds no path twice.
pub open spec fn strictly_sorted(list: Seq<FoundPath>) -> bool {
    forall|i: int, j: int|
        0 <= i < j < list.len() ==> path_less(
            path_key(#[trigger] list[i]),
            path_key(#[trigger] list[j]),
        )
}

/// Place of the first path that is the same path as `path`; the length where
/// there is none.
pub open spec fn first_same(list: Seq<FoundPath>, key: Seq<(u8, Seq<u8>)>) -> nat
    decreases list.len(),
{
    if list.len() == 0 || path_key(list[0]) == key {
        0
    } else {
        1 + first_same(list.skip(1), key)
    }
}

/// Every path of `all` is in `list`, and every path in `list` is the one of
/// `all` that came first among those equal to it.
pub open spec fn keeps_the_first(list: Seq<FoundPath>, all: Seq<FoundPath>) -> bool {
    &&& forall|i: int|
        0 <= i < all.len() ==> exists|j: int|
            0 <= j < list.len() && path_key(#[trigger] list[j]) == path_key(#[trigger] all[i])
    &&& forall|j: int|
        0 <= j < list.len() ==> {
            let at = first_same(all, path_key(#[trigger] list[j]));
            at < all.len() && list[j] == all[at as int]
        }
}

proof fn first_same_grows(all: Seq<FoundPath>, added: FoundPath, key: Seq<(u8, Seq<u8>)>)
    ensures
        first_same(all, key) <= all.len(),
        first_same(all, key) < all.len() ==> {
            &&& path_key(all[first_same(all, key) as int]) == key
            &&& first_same(all.push(added), key) == first_same(all, key)
        },
        first_same(all, key) == all.len() ==> {
            &&& forall|i: int| 0 <= i < all.len() ==> path_key(#[trigger] all[i]) != key
            &&& path_key(added) == key ==> first_same(all.push(added), key) == all.len()
        },
    decreases all.len(),
{
    if all.len() == 0 {
        assert(all.push(added)[0] == added);
    } else if path_key(all[0]) != key {
        let rest = all.skip(1);
        first_same_grows(rest, added, key);
        assert(all.push(added).skip(1) =~= rest.push(added));
        assert(all.push(added)[0] == all[0]);
        assert forall|i: int| 0 <= i < all.len() && first_same(all, key) == all.len() implies
            path_key(#[trigger] all[i]) != key by {
            if i > 0 {
                assert(rest[i - 1] == all[i]);
            }
        }
    } else {
        assert(all.push(added)[0] == all[0]);
    }
}

/// Insert a path at its place unless the list holds it already.
fn insert_path(list: &mut Vec<FoundPath>, path: FoundPath, Ghost(all): Ghost<Seq<FoundPath>>)
    requires
        strictly_sorted(old(list)@),
        keeps_the_first(old(list)@, all),
    ensures
        strictly_sorted(final(list)@),
        keeps_the_first(final(list)@, all.push(path)),
{
    let ghost key = path_key(path);
    let ghost before = list@;
    proof {
        parts_are_ordered();
    }
    let mut at: usize = 0;
    while at < list.len() && path_is_less(&list[at], &path)
        invariant
            list@ == before,
            key == path_key(path),
            at <= list@.len(),
            forall|k: int| 0 <= k < at ==> path_less(path_key(#[trigger] before[k]), key),
        ensures
            list@ == before,
            at <= list@.len(),
            forall|k: int| 0 <= k < at ==> path_less(path_key(#[trigger] before[k]), key),
            at < list@.len() ==> !path_less(path_key(before[at as int]), key),
        decreases list@.len() - at,
    {
        at = at + 1;
    }
    let known = at < list.len() && !path_is_less(&path, &list[at]);
    let ghost longer = all.push(path);
    proof {
        assert forall|k: int| 0 <= k < before.len() implies {
            let i = first_same(longer, path_key(#[trigger] before[k]));
            i < longer.len() && before[k] == longer[i as int]
        } by {
            first_same_grows(all, path, path_key(before[k]));
            let i = first_same(all, path_key(before[k]));
            assert(longer[i as int] == all[i as int]);
        }
    }
    if known {
        proof {
            crate::order::lex_decides(path_key(before[at as int]), key, part_less());
            assert(path_key(before[at as int]) == key);
            assert forall|i: int| 0 <= i < longer.len() implies exists|j: int|
                0 <= j < before.len() && path_key(#[trigger] before[j]) == path_key(
                    #[trigger] longer[i],
                ) by {
                if i < all.len() {
                    assert(longer[i] == all[i]);
                } else {
                    assert(path_key(before[at as int]) == path_key(longer[i]));
                }
            }
        }
        return;
    }
    list.insert(at, path);
    proof {
        let after = list@;
        assert(after == before.insert(at as int, path));
        assert forall|k: int| at <= k < before.len() implies path_less(
            key,
            path_key(#[trigger] before[k]),
        ) by {
            crate::order::lex_decides(path_key(before[at as int]), key, part_less());
            if k > at {
                assert(path_less(path_key(before[at as int]), path_key(before[k])));
                crate::order::lex_chains(
                    key,
                    path_key(before[at as int]),
                    path_key(before[k]),
                    part_less(),
                );
            }
        }
        assert forall|i: int, j: int| 0 <= i < j < after.len() implies path_less(
            path_key(#[trigger] after[i]),
            path_key(#[trigger] after[j]),
        ) by {
            let oi = if i < at {
                i
            } else {
                i - 1
            };
            let oj = if j < at {
                j
            } else {
                j - 1
            };
            if i != at {
                assert(after[i] == before[oi]);
            }
            if j != at {
                assert(after[j] == before[oj]);
            }
        }
        assert forall|i: int| 0 <= i < longer.len() implies exists|j: int|
            0 <= j < after.len() && path_key(#[trigger] after[j]) == path_key(
                #[trigger] longer[i],
            ) by {
            if i < all.len() {
                assert(longer[i] == all[i]);
                let j = choose|j: int|
                    0 <= j < before.len() && path_key(#[trigger] before[j]) == path_key(all[i]);
                if j < at {
                    assert(after[j] == before[j]);
                } else {
                    assert(after[j + 1] == before[j]);
                }
            } else {
                assert(after[at as int] == path);
            }
        }
        first_same_grows(all, path, key);
        assert forall|j: int| 0 <= j < after.len() implies {
            let i = first_same(longer, path_key(#[trigger] after[j]));
            i < longer.len() && after[j] == longer[i as int]
        } by {
            if j < at {
                assert(after[j] == before[j]);
            } else if j > at {
                assert(after[j] == before[j - 1]);
            } else {
                let i = first_same(all, key);
                if i < all.len() {
                    let k = choose|k: int|
                        0 <= k < before.len() && path_key(#[trigger] before[k]) == path_key(
                            all[i as int],
                        );
                    crate::order::lex_decides(path_key(before[k]), key, part_less());
                    assert(k < at || k >= at);
                    assert(false);
                }
            }
        }
    }
}

/// All found plugin files, sorted and with every path once: the first found of
/// equal paths stays.
pub fn scan(found: Vec<FoundPath>) -> (list: Vec<FoundPath>)
    ensures
        strictly_sorted(list@),
        keeps_the_first(list@, found@),
{
    let mut found = found;
    let ghost all = found@;
    let mut list: Vec<FoundPath> = Vec::new();
    let mut rest: Vec<FoundPath> = Vec::new();
    // Taken from the front one by one: reverse, then pop.
    while found.len() > 0
        invariant
            found@.len() + rest@.len() == all.len(),
            found@ == all.take(found@.len() as int),
            rest@ == all.skip(found@.len() as int).reverse(),
        decreases found@.len(),
    {
        let ghost n = found@.len() as int;
        if let Some(path) = found.pop() {
            rest.push(path);
            assert(found@ =~= all.take(n - 1));
            assert(rest@ =~= all.skip(n - 1).reverse());
        }
    }
    assert(all.skip(0) =~= all);
    let ghost mut done: int = 0;
    assert(rest@ =~= all.skip(0).reverse());
    while rest.len() > 0
        invariant
            0 <= done <= all.len(),
            rest@ == all.skip(done).reverse(),
            strictly_sorted(list@),
            keeps_the_first(list@, all.take(done)),
        decreases rest@.len(),
    {
        if let Some(path) = rest.pop() {
            assert(path == all[done]);
            assert(all.take(done).push(path) =~= all.take(done + 1));
            insert_path(&mut list, path, Ghost(all.take(done)));
            proof {
                assert(rest@ =~= all.skip(done + 1).reverse());
                done = done + 1;
            }
        }
    }
    assert(all.take(done) =~= all);
    list
}

/// Law: the result of a scan is determined by what was found: two lists that
/// are sorted and keep the first of equal paths are the same list.
pub proof fn scans_are_determined(a: Seq<FoundPath>, b: Seq<FoundPath>, found: Seq<FoundPath>)
    requires
        strictly_sorted(a),
        strictly_sorted(b),
        keeps_the_first(a, found),
        keeps_the_first(b, found),
    ensures
        a == b,
    decreases a.len(),
{
    same_place(a, b, found, a.len() as int);
    same_place(b, a, found, b.len() as int);
    assert(a =~= b);
}

/// The first `n` paths of `a` lie at the same places of `b`.
proof fn same_place(a: Seq<FoundPath>, b: Seq<FoundPath>, found: Seq<FoundPath>, n: int)
    requires
        strictly_sorted(a),
        strictly_sorted(b),
        keeps_the_first(a, found),
        keeps_the_first(b, found),
        0 <= n <= a.len(),
    ensures
        n <= b.len(),
        forall|i: int| 0 <= i < n ==> #[trigger] a[i] == b[i],
    decreases n,
{
    if n > 0 {
        let m = n - 1;
        same_place(a, b, found, m);
        parts_are_ordered();
        let at = first_same(found, path_key(a[m]));
        let k = choose|k: int|
            0 <= k < b.len() && path_key(#[trigger] b[k]) == path_key(found[at as int]);
        if k < m {
            assert(a[k] == b[k]);
            crate::order::lex_decides(path_key(a[k]), path_key(a[m]), part_less());
        }
        if k > m {
            assert(m < b.len());
            let bt = first_same(found, path_key(b[m]));
            let j = choose|j: int|
                0 <= j < a.len() && path_key(#[trigger] a[j]) == path_key(found[bt as int]);
            if j < m {
                assert(a[j] == b[j]);
                crate::order::lex_decides(path_key(b[j]), path_key(b[m]), part_less());
            } else if j == m {
                crate::order::lex_decides(path_key(b[m]), path_key(b[k]), part_less());
            } else {
                crate::order::lex_chains(
                    path_key(a[m]),
                    path_key(a[j]),
                    path_key(b[k]),
                    part_less(),
                );
                crate::order::lex_decides(path_key(a[m]), path_key(b[k]), part_less());
            }
        }
        assert(k == m);
    }
}

/// Law: directories are looked through to any depth, and every plugin file in
/// them is found once. What a directory holds is found as if its entries stood in
/// its place, what stands side by side is found one after the other, and a file
/// is found exactly if it has the name of a plugin file.
pub proof fn directories_are_looked_through(
    before: Seq<DirEntry>,
    after: Seq<DirEntry>,
    inner: Vec<DirEntry>,
    name: Vec<u8>,
    id: usize,
)
    ensures
        plugin_files(Seq::empty()) == Seq::<usize>::empty(),
        plugin_files(before + after) == plugin_files(before) + plugin_files(after),
        plugin_files(seq![DirEntry::Dir(inner)]) == plugin_files(inner@),
        is_plugin_name(name@) ==> plugin_files(seq![DirEntry::File { name, id }]) == seq![id],
        !is_plugin_name(name@) ==> plugin_files(seq![DirEntry::File { name, id }]).len() == 0,
        plugin_files(before + seq![DirEntry::Dir(inner)] + after) == plugin_files(
            before + inner@ + after,
        ),
{
    found_side_by_side(before, after);
    let (dir, file) = (seq![DirEntry::Dir(inner)], seq![DirEntry::File { name, id }]);
    assert(dir.drop_last() =~= Seq::empty());
    assert(file.drop_last() =~= Seq::empty());
    assert(plugin_files(dir.drop_last()) =~= Seq::empty());
    assert(plugin_files(file.drop_last()) =~= Seq::empty());
    assert(plugin_files(dir) =~= plugin_files(inner@));
    assert(is_plugin_name(name@) ==> plugin_files(file) =~= seq![id]);
    found_side_by_side(before, dir);
    found_side_by_side(before + dir, after);
    found_side_by_side(before, inner@);
    found_side_by_side(before + inner@, after);
}

proof fn found_side_by_side(a: Seq<DirEntry>, b: Seq<DirEntry>)
    ensures
        plugin_files(a + b) == plugin_files(a) + plugin_files(b),
    decreases b.len(),
{
    if b.len() > 0 {
        found_side_by_side(a, b.drop_last());
        assert((a + b).drop_last() =~= a + b.drop_last());
        assert((a + b).last() == b.last());
    } else {
        assert(a + b =~= a);
    }
    assert(plugin_files(a + b) =~= plugin_files(a) + plugin_files(b));
}

/// The entry that a walk leads to: each step names a place in the directory
/// that the steps before led into.
pub open spec fn entry_at(entries: Seq<DirEntry>, steps: Seq<int>) -> Option<DirEntry>
    decreases steps.len(),
{
    if steps.len() == 0 || steps[0] < 0 || steps[0] >= entries.len() {
        None
    } else if steps.len() == 1 {
        Some(entries[steps[0]])
    } else {
        match entries[steps[0]] {
            DirEntry::Dir(inner) => entry_at(inner@, steps.skip(1)),
            DirEntry::File { .. } => None,
        }
    }
}

/// A walk leads to a file with this number and the name of a plugin file.
pub open spec fn leads_to_plugin(entries: Seq<DirEntry>, steps: Seq<int>, id: usize) -> bool {
    entry_at(entries, steps) matches Some(DirEntry::File { name, id: found }) && found == id
        && name@.len() > 5 && name@.skip(name@.len() - 5) == seq![
        0x2eu8,
        0x63u8,
        0x6cu8,
        0x61u8,
        0x70u8,
    ]
}

/// Law: a file is found exactly if it lies somewhere below, at whatever depth and
/// whatever stands beside it, and has the name of a plugin file.
pub proof fn every_plugin_file_is_found(entries: Seq<DirEntry>, id: usize)
    ensures
        plugin_files(entries).contains(id) <==> exists|steps: Seq<int>| #[trigger]
            leads_to_plugin(entries, steps, id),
    decreases entries,
{
    let all = plugin_files(entries);
    if entries.len() > 0 {
        let front = entries.drop_last();
        let last = entries.len() - 1;
        let before = plugin_files(front);
        every_plugin_file_is_found(front, id);
        if let DirEntry::Dir(inner) = entries.last() {
            every_plugin_file_is_found(inner@, id);
        }
        if all.contains(id) {
            let j = choose|j: int| 0 <= j < all.len() && all[j] == id;
            if j < before.len() {
                assert(before[j] == id);
                let steps = choose|steps: Seq<int>| #[trigger] leads_to_plugin(front, steps, id);
                assert(leads_to_plugin(entries, steps, id));
            } else {
                match entries.last() {
                    DirEntry::Dir(inner) => {
                        let below = plugin_files(inner@);
                        assert(below[j - before.len()] == id);
                        let rest = choose|rest: Seq<int>| #[trigger]
                            leads_to_plugin(inner@, rest, id);
                        let steps = seq![last] + rest;
                        assert(steps.skip(1) =~= rest);
                        assert(leads_to_plugin(entries, steps, id));
                    },
                    DirEntry::File { name, id: found } => {
                        assert(leads_to_plugin(entries, seq![last], id));
                    },
                }
            }
        }
        if exists|steps: Seq<int>| #[trigger] leads_to_plugin(entries, steps, id) {
            let steps = choose|steps: Seq<int>| #[trigger] leads_to_plugin(entries, steps, id);
            if steps[0] < last {
                assert(front[steps[0]] == entries[steps[0]]);
                assert(leads_to_plugin(front, steps, id));
                let j = choose|j: int| 0 <= j < before.len() && before[j] == id;
                assert(all[j] == id);
            } else {
                match entries.last() {
                    DirEntry::Dir(inner) => {
                        let below = plugin_files(inner@);
                        assert(leads_to_plugin(inner@, steps.skip(1), id));
                        let j = choose|j: int| 0 <= j < below.len() && below[j] == id;
                        assert(all[before.len() + j] == id);
                    },
                    DirEntry::File { name, id: found } => {
                        assert(steps.len() == 1);
                        assert(all[before.len() as int] == id);
                    },
                }
            }
        }
    } else {
        assert forall|steps: Seq<int>| !#[trigger] leads_to_plugin(entries, steps, id) by {}
    }
}

/// Law: a plugin file is one whose name is something with `.clap` behind it.
pub proof fn plugin_names_end_in_clap(stem: Seq<u8>, name: Seq<u8>)
    ensures
        is_plugin_name(stem + seq![0x2eu8, 0x63u8, 0x6cu8, 0x61u8, 0x70u8]) <==> stem.len() > 0,
        is_plugin_name(name) ==> name.take(name.len() - 5) + seq![
            0x2eu8,
            0x63u8,
            0x6cu8,
            0x61u8,
            0x70u8,
        ] == name,
{
    let ext = seq![0x2eu8, 0x63u8, 0x6cu8, 0x61u8, 0x70u8];
    let full = stem + ext;
    assert(full.skip(full.len() - 5) =~= ext);
    if is_plugin_name(name) {
        assert(name.take(name.len() - 5) + name.skip(name.len() - 5) =~= name);
    }
}

/// Law: a scan lists every path that was found, each once, sorted component by
/// component, and of equal paths the one that was found first.
pub proof fn scans_list_everything_once(
    list: Seq<FoundPath>,
    found: Seq<FoundPath>,
    i: int,
    j: int,
    k: int,
)
    requires
        strictly_sorted(list),
        keeps_the_first(list, found),
        0 <= i < list.len(),
        0 <= k < found.len(),
    ensures
        i < j < list.len() ==> crate::order::lex_less(
            path_key(list[i]),
            path_key(list[j]),
            part_less(),
        ),
        i < j < list.len() ==> path_key(list[i]) != path_key(list[j]),
        exists|m: int| 0 <= m < list.len() && path_key(#[trigger] list[m]) == path_key(found[k]),
        found.contains(list[i]),
        path_key(found[k]) == path_key(list[i]) && (forall|m: int|
            0 <= m < k ==> path_key(#[trigger] found[m]) != path_key(found[k])) ==> list[i]
            == found[k],
{
    parts_are_ordered();
    if i < j < list.len() {
        assert(path_less(path_key(list[i]), path_key(list[j])));
        crate::order::lex_decides(path_key(list[i]), path_key(list[j]), part_less());
    }
    let key = path_key(list[i]);
    let at = first_same(found, key) as int;
    assert(list[i] == found[at]);
    first_same_is_first(found, key);
    if path_key(found[k]) == key && (forall|m: int|
        0 <= m < k ==> path_key(#[trigger] found[m]) != path_key(found[k])) {
        assert(at == k);
    }
}

proof fn first_same_is_first(all: Seq<FoundPath>, key: Seq<(u8, Seq<u8>)>)
    ensures
        first_same(all, key) <= all.len(),
        first_same(all, key) < all.len() ==> path_key(all[first_same(all, key) as int]) == key,
        forall|m: int| 0 <= m < first_same(all, key) ==> path_key(#[trigger] all[m]) != key,
    decreases all.len(),
{
    if all.len() > 0 && path_key(all[0]) != key {
        let rest = all.skip(1);
        first_same_is_first(rest, key);
        assert forall|m: int| 0 <= m < first_same(all, key) implies path_key(#[trigger] all[m])
            != key by {
            if m > 0 {
                assert(rest[m - 1] == all[m]);
            }
        }
    }
}

/// Law: a path is compared by all its components, and a component by its kind and
/// then by the order of its bytes.
pub proof fn paths_are_compared_by_components(
    path: FoundPath,
    i: int,
    x: (u8, Seq<u8>),
    y: (u8, Seq<u8>),
)
    requires
        0 <= i < path.parts@.len(),
    ensures
        path_key(path).len() == path.parts@.len(),
        path_key(path)[i] == (path.parts@[i].rank, path.parts@[i].name@),
        x.0 < y.0 ==> part_less()(x, y),
        x.0 > y.0 ==> !part_less()(x, y),
        x.0 == y.0 ==> part_less()(x, y) == crate::order::lex_less(
            x.1,
            y.1,
            crate::order::byte_less(),
        ),
{
}

/// Law: each system is searched in its own directories, those of the user where
/// the environment names their home.
pub proof fn systems_have_their_directories(env: SearchEnv)
    ensures
        ({
            let dirs = system_dirs(Platform::Unix, env);
            &&& dirs.len() == if env.home is Some {
                3
            } else {
                2nat
            }
            &&& dirs[0] == seq!["/usr/lib/clap"@]
            &&& dirs[1] == seq!["/usr/local/lib/clap"@]
            &&& env.home is Some ==> dirs[2] == seq![env.home->0@, ".clap"@]
        }),
        ({
            let dirs = system_dirs(Platform::MacOs, env);
            &&& dirs.len() == if env.home is Some {
                2
            } else {
                1nat
            }
            &&& dirs[0] == seq!["/Library/Audio/Plug-Ins/CLAP"@]
            &&& env.home is Some ==> dirs[1] == seq![
                env.home->0@,
                "Library/Audio/Plug-Ins/CLAP"@,
            ]
        }),
        ({
            let dirs = system_dirs(Platform::Windows, env);
            let common = env.common_program_files;
            let local = env.local_app_data;
            &&& common is Some ==> dirs[0] == seq![common->0@, "CLAP"@]
            &&& local is Some ==> dirs.last() == seq![
                local->0@,
                "Programs"@,
                "Common"@,
                "CLAP"@,
            ]
            &&& dirs.len() == (if common is Some {
                1nat
            } else {
                0
            }) + (if local is Some {
                1nat
            } else {
                0
            })
        }),
{
    if env.home is Some {
        assert(seq![env.home->0@] + seq![".clap"@] =~= seq![env.home->0@, ".clap"@]);
        assert(seq![env.home->0@] + seq!["Library/Audio/Plug-Ins/CLAP"@] =~= seq![
            env.home->0@,
            "Library/Audio/Plug-Ins/CLAP"@,
        ]);
    }
    if env.common_program_files is Some {
        assert(seq![env.common_program_files->0@] + seq!["CLAP"@] =~= seq![
            env.common_program_files->0@,
            "CLAP"@,
        ]);
    }
    if env.local_app_data is Some {
        let dirs = system_dirs(Platform::Windows, env);
        let local = below(env.local_app_data, seq!["Programs"@, "Common"@, "CLAP"@]);
        assert(dirs.last() == local[0]);
        assert(seq![env.local_app_data->0@] + seq!["Programs"@, "Common"@, "CLAP"@] =~= seq![
            env.local_app_data->0@,
            "Programs"@,
            "Common"@,
            "CLAP"@,
        ]);
    }
}

/// Law: `CLAP_PATH` adds each of its pieces that is not blank, without the white
/// space around it and in order; a semicolon separates them on Windows, a colon
/// elsewhere.
pub proof fn every_piece_is_searched(platform: Platform, env: SearchEnv)
    ensures
        env.clap_path is None ==> extra_dirs(platform, env).len() == 0,
        env.clap_path is Some ==> extra_dirs(platform, env) == crate::text::split(
            env.clap_path->0@,
            if platform is Windows {
                ';'
            } else {
                ':'
            },
        ).filter_map(
            |piece: Seq<char>|
                if crate::text::trimmed(piece).len() > 0 {
                    Some(seq![crate::text::trimmed(piece)])
                } else {
                    None
                },
        ),
{
    if env.clap_path is Some {
        pieces_are_kept(crate::text::split(env.clap_path->0@, separator(platform)));
    }
}

proof fn pieces_are_kept(pieces: Seq<Seq<char>>)
    ensures
        named_dirs(pieces) == pieces.filter_map(
            |piece: Seq<char>|
                if crate::text::trimmed(piece).len() > 0 {
                    Some(seq![crate::text::trimmed(piece)])
                } else {
                    None
                },
        ),
    decreases pieces.len(),
{
    let kept = |piece: Seq<char>|
        if crate::text::trimmed(piece).len() > 0 {
            Some(seq![crate::text::trimmed(piece)])
        } else {
            None
        };
    if pieces.len() > 0 {
        pieces_are_kept(pieces.drop_last());
    }
    assert(named_dirs(pieces) =~= pieces.filter_map(kept));
}

} // verus!
