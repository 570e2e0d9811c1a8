//! Paths by their text: their parts, what they come to when `..` is taken
//! away, and which paths lie under which. The separator is `/`.

use crate::text;
use vstd::prelude::*;
use vstd::string::*;

verus! {

/// A path as its parts. A rooted path starts at `/`.
#[derive(Debug, Clone, PartialEq, Eq)]
pub struct PlainPath {
    pub rooted: bool,
    pub parts: Vec<String>,
}

/// A path, by its contents.
pub struct Route {
    pub rooted: bool,
    pub parts: Seq<Seq<char>>,
}

impl View for PlainPath {
    type V = Route;

    open spec fn view(&self) -> Route {
        Route { rooted: self.rooted, parts: text::texts(self.parts@) }
    }
}

/// Whether a path starts at `/`.
pub open spec fn rooted(s: Seq<char>) -> bool {
    s.len() > 0 && s[0] == '/'
}

/// The names that count: not the empty one, and not `.`.
pub open spec fn named(f: Seq<Seq<char>>) -> Seq<Seq<char>>
    decreases f.len(),
{
    if f.len() == 0 {
        Seq::empty()
    } else if f.last().len() == 0 || f.last() == "."@ {
        named(f.drop_last())
    } else {
        named(f.drop_last()).push(f.last())
    }
}

/// A path as it is written.
pub open spec fn route(s: Seq<char>) -> Route {
    Route { rooted: rooted(s), parts: named(text::fields(s, '/')) }
}

/// What is left when each `..` takes the name before it away. Above the root
/// there is nothing; above the start of a relative path a `..` stays.
pub open spec fn resolved(parts: Seq<Seq<char>>, rooted: bool) -> Seq<Seq<char>>
    decreases parts.len(),
{
    if parts.len() == 0 {
        Seq::empty()
    } else {
        let before = resolved(parts.drop_last(), rooted);
        if parts.last() != ".."@ {
            before.push(parts.last())
        } else if before.len() > 0 {
            before.drop_last()
        } else if rooted {
            before
        } else {
            before.push(".."@)
        }
    }
}

/// What a path comes to.
pub open spec fn normal(s: Seq<char>) -> Route {
    Route { rooted: rooted(s), parts: resolved(route(s).parts, rooted(s)) }
}

/// Whether a path is `dir` or lies below it, part by part.
pub open spec fn under(path: Route, dir: Route) -> bool {
    &&& path.rooted == dir.rooted
    &&& dir.parts.len() <= path.parts.len()
    &&& path.parts.take(dir.parts.len() as int) == dir.parts
}

fn has_root(s: &str) -> (r: bool)
    ensures
        r == rooted(s@),
{
    let cs = text::chars_of(s);
    cs.len() > 0 && cs[0] == '/'
}

/// The parts of a path.
pub fn split_path(s: &str) -> (r: PlainPath)
    ensures
        r@ == route(s@),
{
    let fields = text::split_on(s, '/');
    let mut parts: Vec<String> = Vec::new();
    let mut i: usize = 0;
    while i < fields.len()
        invariant
            i <= fields.len(),
            text::texts(parts@) == named(text::texts(fields@).take(i as int)),
        decreases fields.len() - i,
    {
        let ghost before = text::texts(fields@).take(i as int);
        let name = fields[i].clone();
        let ghost n = name@;
        let counts = !name.as_str().is_empty() && !text::same_text(name.as_str(), ".");
        let ghost had = text::texts(parts@);
        if counts {
            parts.push(name);
            assert(text::texts(parts@) =~= had.push(n));
        }
        i = i + 1;
        proof {
            let now = text::texts(fields@).take(i as int);
            assert(now.drop_last() =~= before);
            assert(now.last() == n);
        }
    }
    assert(text::texts(fields@).take(fields.len() as int) =~= text::texts(fields@));
    PlainPath { rooted: has_root(s), parts }
}

/// What a path comes to, without a look at the file system.
pub fn lexical_normalize_path(s: &str) -> (r: PlainPath)
    ensures
        r@ == normal(s@),
{
    let path = split_path(s);
    let mut parts: Vec<String> = Vec::new();
    let mut i: usize = 0;
    while i < path.parts.len()
        invariant
            i <= path.parts.len(),
            text::texts(parts@) == resolved(
                text::texts(path.parts@).take(i as int),
                path.rooted,
            ),
        decreases path.parts.len() - i,
    {
        let ghost before = text::texts(path.parts@).take(i as int);
        let ghost had = text::texts(parts@);
        let name = path.parts[i].clone();
        let ghost n = name@;
        if !text::same_text(name.as_str(), "..") {
            parts.push(name);
            assert(text::texts(parts@) =~= had.push(n));
        } else if parts.len() > 0 {
            let _gone = parts.pop();
            assert(text::texts(parts@) =~= had.drop_last());
        } else if !path.rooted {
            parts.push(name);
            assert(text::texts(parts@) =~= had.push(n));
        }
        i = i + 1;
        proof {
            let now = text::texts(path.parts@).take(i as int);
            assert(now.drop_last() =~= before);
            assert(now.last() == n);
        }
    }
    assert(text::texts(path.parts@).take(path.parts.len() as int) =~= text::texts(path.parts@));
    PlainPath { rooted: path.rooted, parts }
}

/// Whether `path` is `dir` or lies below it.
pub fn lies_under(path: &PlainPath, dir: &PlainPath) -> (r: bool)
    ensures
        r == under(path@, dir@),
{
    if path.rooted != dir.rooted || dir.parts.len() > path.parts.len() {
        return false;
    }
    let ghost head = path@.parts.take(dir@.parts.len() as int);
    let mut i: usize = 0;
    while i < dir.parts.len()
        invariant
            i <= dir.parts.len(),
            dir.parts.len() <= path.parts.len(),
            head == path@.parts.take(dir@.parts.len() as int),
            forall|j: int| 0 <= j < i ==> #[trigger] path@.parts[j] == dir@.parts[j],
        decreases dir.parts.len() - i,
    {
        if !text::same_text(path.parts[i].as_str(), dir.parts[i].as_str()) {
            assert(head[i as int] != dir@.parts[i as int]);
            return false;
        }
        i = i + 1;
    }
    assert(head =~= dir@.parts);
    true
}

/// Whether a path lies under one of `dirs`, as all of them are written.
pub open spec fn under_any(path: Seq<char>, dirs: Seq<Seq<char>>) -> bool {
    exists|i: int| 0 <= i < dirs.len() && under(route(path), route(#[trigger] dirs[i]))
}

/// Whether what a path comes to lies under what one of `dirs` comes to.
pub open spec fn lexically_under_any(path: Seq<char>, dirs: Seq<Seq<char>>) -> bool {
    exists|i: int| 0 <= i < dirs.len() && under(normal(path), normal(#[trigger] dirs[i]))
}

/// Whether a path, already resolved, lies under one of these directories.
pub fn path_is_under_any(path: &str, dirs: &Vec<String>) -> (r: bool)
    ensures
        r == under_any(path@, text::texts(dirs@)),
{
    let p = split_path(path);
    let mut i: usize = 0;
    while i < dirs.len()
        invariant
            i <= dirs.len(),
            p@ == route(path@),
            forall|j: int|
                0 <= j < i ==> !under(route(path@), route(#[trigger] text::texts(dirs@)[j])),
        decreases dirs.len() - i,
    {
        let d = split_path(dirs[i].as_str());
        if lies_under(&p, &d) {
            assert(under(route(path@), route(text::texts(dirs@)[i as int])));
            return true;
        }
        i = i + 1;
    }
    false
}

/// Whether what a path comes to lies under one of these directories.
pub fn path_is_lexically_allowed(path: &str, dirs: &Vec<String>) -> (r: bool)
    ensures
        r == lexically_under_any(path@, text::texts(dirs@)),
{
    let p = lexical_normalize_path(path);
    let mut i: usize = 0;
    while i < dirs.len()
        invariant
            i <= dirs.len(),
            p@ == normal(path@),
            forall|j: int|
                0 <= j < i ==> !under(normal(path@), normal(#[trigger] text::texts(dirs@)[j])),
        decreases dirs.len() - i,
    {
        let d = lexical_normalize_path(dirs[i].as_str());
        if lies_under(&p, &d) {
            assert(under(normal(path@), normal(text::texts(dirs@)[i as int])));
            return true;
        }
        i = i + 1;
    }
    false
}

/// `dir` and `name` as one path. A rooted name stands alone.
pub open spec fn joined_path(dir: Seq<char>, name: Seq<char>) -> Seq<char> {
    if rooted(name) || dir.len() == 0 {
        name
    } else if dir.last() == '/' {
        dir + name
    } else {
        dir + "/"@ + name
    }
}

/// Joins a directory and a name.
pub fn join_path(dir: &str, name: &str) -> (r: String)
    ensures
        r@ == joined_path(dir@, name@),
{
    if has_root(name) || dir.is_empty() {
        return name.to_string();
    }
    let cs = text::chars_of(dir);
    if cs[cs.len() - 1] == '/' {
        text::cat2(dir, name)
    } else {
        text::cat3(dir, "/", name)
    }
}

/// The path as text.
pub open spec fn route_text(r: Route) -> Seq<char> {
    (if r.rooted {
        "/"@
    } else {
        ""@
    }) + text::joined(r.parts, "/"@)
}

impl PlainPath {
    /// The path as text.
    pub fn to_text(&self) -> (r: String)
        ensures
            r@ == route_text(self@),
    {
        let inner = text::join(&self.parts, "/");
        if self.rooted {
            text::cat2("/", inner.as_str())
        } else {
            text::cat2("", inner.as_str())
        }
    }
}

/// What a rooted path comes to has no `..` left in it.
pub proof fn lemma_no_parent_left(parts: Seq<Seq<char>>)
    ensures
        !resolved(parts, true).contains(".."@),
    decreases parts.len(),
{
    if parts.len() > 0 {
        lemma_no_parent_left(parts.drop_last());
        let before = resolved(parts.drop_last(), true);
        let now = resolved(parts, true);
        if now.contains(".."@) {
            let i = choose|i: int| 0 <= i < now.len() && now[i] == ".."@;
            if i < before.len() {
                assert(before[i] == now[i]);
                assert(before.contains(".."@));
            }
        }
    }
}

/// Without a `..` in it a list of names is what it comes to.
pub proof fn lemma_resolved_is_settled(parts: Seq<Seq<char>>, rooted: bool)
    requires
        !parts.contains(".."@),
    ensures
        resolved(parts, rooted) == parts,
    decreases parts.len(),
{
    if parts.len() > 0 {
        let before = parts.drop_last();
        assert(!before.contains(".."@)) by {
            if before.contains(".."@) {
                let i = choose|i: int| 0 <= i < before.len() && before[i] == ".."@;
                assert(parts[i] == ".."@);
            }
        }
        lemma_resolved_is_settled(before, rooted);
        assert(parts.contains(parts.last())) by {
            assert(parts[parts.len() - 1] == parts.last());
        }
        assert(before.push(parts.last()) =~= parts);
    }
}

/// To normalise the parts of a rooted path twice changes nothing more.
pub proof fn lemma_normal_is_idempotent(parts: Seq<Seq<char>>)
    ensures
        resolved(resolved(parts, true), true) == resolved(parts, true),
{
    lemma_no_parent_left(parts);
    lemma_resolved_is_settled(resolved(parts, true), true);
}

/// A rooted path that is allowed cannot climb out: it comes to an allowed
/// directory followed by plain names.
pub proof fn lemma_allowed_stays_inside(path: Seq<char>, dirs: Seq<Seq<char>>)
    requires
        rooted(path),
        lexically_under_any(path, dirs),
    ensures
        exists|i: int|
            0 <= i < dirs.len() && {
                let d = normal(#[trigger] dirs[i]).parts;
                let p = normal(path).parts;
                &&& d.len() <= p.len()
                &&& p == d + p.skip(d.len() as int)
                &&& !p.contains(".."@)
            },
{
    lemma_no_parent_left(route(path).parts);
    let i = choose|i: int| 0 <= i < dirs.len() && under(normal(path), normal(#[trigger] dirs[i]));
    let d = normal(dirs[i]).parts;
    let p = normal(path).parts;
    assert(p =~= d + p.skip(d.len() as int)) by {
        assert(p.take(d.len() as int) == d);
        assert forall|k: int| 0 <= k < p.len() implies p[k] == (d + p.skip(d.len() as int))[k] by {
            if k < d.len() {
                assert(p.take(d.len() as int)[k] == p[k]);
            }
        }
    }
}

/// A path that starts at the root stays what it is; any other is taken from the
/// directory, with one slash between them at the least.
pub proof fn lemma_paths_are_joined(dir: Seq<char>, name: Seq<char>)
    ensures
        rooted(name) ==> joined_path(dir, name) == name,
        !rooted(name) && dir.len() > 0 ==> text::starts(joined_path(dir, name), dir) && text::ends(
            joined_path(dir, name),
            name,
        ) && rooted(joined_path(dir, name)) == rooted(dir),
        !rooted(name) && dir.len() > 0 && dir.last() != '/' ==> joined_path(dir, name).len()
            == dir.len() + 1 + name.len() && joined_path(dir, name)[dir.len() as int] == '/',
{
    reveal_strlit("/");
    let j = joined_path(dir, name);
    if !rooted(name) && dir.len() > 0 {
        assert(j.subrange(0, dir.len() as int) =~= dir);
        assert(j.subrange(j.len() - name.len(), j.len() as int) =~= name);
    }
}

/// A path lies under a directory exactly if it starts with all of its names, and
/// from the same root; so every path lies under itself, and nothing lies under
/// what is longer.
pub proof fn lemma_what_lies_under(path: Route, dir: Route, i: int)
    ensures
        under(path, dir) ==> path.rooted == dir.rooted && path.parts.len() >= dir.parts.len() && (
        0 <= i < dir.parts.len() ==> path.parts[i] == dir.parts[i]),
        under(path, path),
        path.parts.len() < dir.parts.len() ==> !under(path, dir),
        path.rooted != dir.rooted ==> !under(path, dir),
        0 <= i < dir.parts.len() && i < path.parts.len() && path.parts[i] != dir.parts[i]
            ==> !under(path, dir),
{
    assert(path.parts.take(path.parts.len() as int) =~= path.parts);
    if under(path, dir) && 0 <= i < dir.parts.len() {
        assert(path.parts.take(dir.parts.len() as int)[i] == path.parts[i]);
    }
}

/// A step up undoes the step before it.
pub proof fn lemma_a_step_up_undoes_a_step(parts: Seq<Seq<char>>, name: Seq<char>, rooted: bool)
    requires
        name != ".."@,
    ensures
        resolved(parts.push(name).push(".."@), rooted) == resolved(parts, rooted),
        resolved(parts.push(name), rooted) == resolved(parts, rooted).push(name),
{
    let a = parts.push(name);
    let b = a.push(".."@);
    assert(a.drop_last() =~= parts);
    assert(b.drop_last() =~= a);
    assert(a.last() == name && b.last() == ".."@);
    assert(resolved(a, rooted) == resolved(parts, rooted).push(name));
    assert(resolved(b, rooted) == resolved(a, rooted).drop_last());
    assert(resolved(parts, rooted).push(name).drop_last() =~= resolved(parts, rooted));
}

/// A path is rooted exactly if it begins with a slash, and of its names those
/// count that are neither empty nor a dot.
pub proof fn lemma_names_of_a_path_count(s: Seq<char>, f: Seq<Seq<char>>, n: Seq<char>)
    ensures
        route(s).rooted <==> text::starts(s, "/"@),
        named(f).contains(n) <==> f.contains(n) && n.len() > 0 && n != "."@,
        named(f).len() <= f.len(),
    decreases f.len(),
{
    reveal_strlit("/");
    if s.len() > 0 && s[0] == '/' {
        assert(s.subrange(0, 1) =~= "/"@);
    }
    if text::starts(s, "/"@) {
        assert(s.subrange(0, 1)[0] == "/"@[0]);
    }
    if f.len() > 0 {
        let before = f.drop_last();
        lemma_names_of_a_path_count(s, before, n);
        let all = named(f);
        if all.contains(n) {
            let i = choose|i: int| 0 <= i < all.len() && all[i] == n;
            if i < named(before).len() {
                assert(named(before)[i] == n);
                let j = choose|j: int| 0 <= j < before.len() && before[j] == n;
                assert(f[j] == n);
            } else {
                assert(f[f.len() - 1] == n);
            }
        }
        if f.contains(n) && n.len() > 0 && n != "."@ {
            let j = choose|j: int| 0 <= j < f.len() && f[j] == n;
            if j < before.len() {
                assert(before[j] == n);
                let i = choose|i: int| 0 <= i < named(before).len() && named(before)[i] == n;
                assert(all[i] == n);
            } else {
                assert(all[all.len() - 1] == n);
            }
        }
    }
}

} // verus!
