//! Resolving references to paths below the root of the container.
//!
//! A reference may climb with leading `../` steps, but never higher than
//! the directory it starts from lies below the root: this is the guard that
//! keeps every resource inside the container, for readers and writers alike.

use crate::error::EpubError;
use crate::text::{
    chars_of, concat3, join_first, joined, lemma_joined_starts, lemma_words, matches_at, owned,
    skip_chars, split_words, starts_with, string_of_range, words, Delim,
};
use vstd::prelude::*;

verus! {

/// One step up: `../`.
pub open spec fn up_step() -> Seq<char> {
    seq!['.', '.', '/']
}

/// How many `../` steps `reference` begins with.
pub open spec fn up_steps(reference: Seq<char>) -> nat
    decreases reference.len(),
{
    if up_step().is_prefix_of(reference) {
        1 + up_steps(reference.skip(3))
    } else {
        0
    }
}

/// What is left of `reference` behind its leading `../` steps.
pub open spec fn after_up_steps(reference: Seq<char>) -> Seq<char>
    decreases reference.len(),
{
    if up_step().is_prefix_of(reference) {
        after_up_steps(reference.skip(3))
    } else {
        reference
    }
}

/// The names of the directories that `dir` passes through, from the root.
pub open spec fn components(dir: Seq<char>) -> Seq<Seq<char>> {
    words(dir, Delim::Char('/'))
}

/// `name` below the directory made of `parts`.
pub open spec fn below(parts: Seq<Seq<char>>, name: Seq<char>) -> Seq<char> {
    if parts.len() == 0 {
        name
    } else {
        joined(parts, seq!['/']) + seq!['/'] + name
    }
}

/// Where `reference` leads from the directory `dir`: one directory up for
/// each leading `../`, then down along the rest. `None` where the steps
/// would leave the root.
pub open spec fn climbed(dir: Seq<char>, reference: Seq<char>) -> Option<Seq<char>> {
    let parts = components(dir);
    let up = up_steps(reference);
    if up > parts.len() {
        None
    } else {
        Some(below(parts.take(parts.len() - up), after_up_steps(reference)))
    }
}

/// The directory that holds the file at `path`.
pub open spec fn parent_of(path: Seq<char>) -> Seq<char> {
    let parts = components(path);
    if parts.len() == 0 {
        Seq::empty()
    } else {
        joined(parts.drop_last(), seq!['/'])
    }
}

/// The path that `reference`, found in a file of the directory `dir`,
/// leads to; `None` where it climbs above the root. A reference that
/// begins with a step up climbs from `dir`; one that begins with a slash
/// starts at the root; any other is taken below `dir`.
pub open spec fn reached(dir: Seq<char>, reference: Seq<char>) -> Option<Seq<char>> {
    if up_step().is_prefix_of(reference) {
        climbed(dir, reference)
    } else if reference.len() > 0 && reference[0] == '/' {
        Some(reference.skip(1))
    } else {
        Some(below(components(dir), reference))
    }
}

/// The path from the root that `reference`, found in a file of the
/// directory `dir`, stands for; `None` where it leaves the container: where
/// it climbs above the root, or leads to a path that begins with a step
/// up.
pub open spec fn resolved(dir: Seq<char>, reference: Seq<char>) -> Option<Seq<char>> {
    match reached(dir, reference) {
        Some(path) => if up_step().is_prefix_of(path) {
            None
        } else {
            Some(path)
        },
        None => None,
    }
}

/// `path` without one slash at its start.
pub open spec fn without_leading_slash(path: Seq<char>) -> Seq<char> {
    if path.len() > 0 && path[0] == '/' {
        path.skip(1)
    } else {
        path
    }
}

/// A string begins with the one-character string `/` exactly if its first
/// character is a slash.
pub proof fn lemma_slash_prefix(path: Seq<char>)
    ensures
        "/"@.is_prefix_of(path) <==> (path.len() > 0 && path[0] == '/'),
{
    reveal_strlit("/");
    assert("/"@ =~= seq!['/']);
    if path.len() > 0 && path[0] == '/' {
        assert("/"@ =~= path.subrange(0, 1));
    }
    if "/"@.is_prefix_of(path) {
        assert(path.subrange(0, 1)[0] == '/');
    }
}

/// Resolves a reference that climbs with `../` from the directory
/// `current_dir`, and refuses one that climbs out of the container.
pub fn check_realtive_link_leakage(current_dir: &str, check_file: &str) -> (r: Option<String>)
    ensures
        r.deep_view() == climbed(current_dir@, check_file@),
{
    let v = chars_of(check_file);
    let step = chars_of("../");
    proof {
        reveal_strlit("../");
        assert(step@ =~= up_step());
        assert(v@.skip(0) =~= v@);
    }
    let parts = split_words(current_dir, &Delim::Char('/'));
    let mut depth: usize = 0;
    let mut at: usize = 0;
    while at < v.len() && matches_at(&v, at, &step)
        invariant
            at <= v.len(),
            step@ == up_step(),
            v@ == check_file@,
            parts.deep_view() == components(current_dir@),
            depth <= parts.len(),
            up_steps(v@) == depth + up_steps(v@.skip(at as int)),
            after_up_steps(v@) == after_up_steps(v@.skip(at as int)),
        decreases v.len() - at,
    {
        proof {
            assert(v@.skip(at as int).skip(3) =~= v@.skip(at + 3));
        }
        if depth == parts.len() {
            return None;
        }
        depth += 1;
        at += 3;
    }
    proof {
        if at == v.len() {
            assert(!up_step().is_prefix_of(v@.skip(at as int)));
        }
        reveal_strlit("/");
        assert("/"@ =~= seq!['/']);
    }
    let kept = parts.len() - depth;
    let rest = string_of_range(&v, at, v.len());
    if kept == 0 {
        Some(rest)
    } else {
        let prefix = join_first(&parts, kept, "/");
        Some(concat3(prefix.as_str(), "/", rest.as_str()))
    }
}

/// The directory that holds the file at `path`, without a slash at its end.
pub fn parent_dir(path: &str) -> (r: String)
    ensures
        r@ == parent_of(path@),
{
    let parts = split_words(path, &Delim::Char('/'));
    proof {
        reveal_strlit("/");
        assert("/"@ =~= seq!['/']);
    }
    if parts.len() == 0 {
        String::new()
    } else {
        join_first(&parts, parts.len() - 1, "/")
    }
}

/// Removes one slash from the start of `path`, if it has one.
pub fn remove_leading_slash(path: &str) -> (r: String)
    ensures
        r@ == without_leading_slash(path@),
{
    proof {
        lemma_slash_prefix(path@);
    }
    if starts_with(path, "/") {
        skip_chars(path, 1)
    } else {
        owned(path)
    }
}

/// Turns the reference `path`, found in a file of the directory `base`,
/// into a path from the root of the container.
///
/// A reference that begins with `../` climbs from `base`; one that begins
/// with `/` starts at the root; any other is taken below `base`. The only
/// failure is a reference that leaves the container: one that climbs
/// above the root, or leads to a path that begins with `../`.
pub fn normalize_manifest_path(base: &str, path: &str) -> (r: Result<String, EpubError>)
    ensures
        match resolved(base@, path@) {
            Some(target) => r matches Ok(found) && found@ == target,
            None => r matches Err(EpubError::RealtiveLinkLeakage { path: refused }) && refused@
                == path@,
        },
{
    proof {
        reveal_strlit("../");
        reveal_strlit("/");
        assert("../"@ =~= up_step());
        assert("/"@ =~= seq!['/']);
        lemma_slash_prefix(path@);
    }
    let found = if starts_with(path, "../") {
        match check_realtive_link_leakage(base, path) {
            Some(found) => found,
            None => {
                return Err(EpubError::RealtiveLinkLeakage { path: owned(path) });
            },
        }
    } else if starts_with(path, "/") {
        skip_chars(path, 1)
    } else {
        let parts = split_words(base, &Delim::Char('/'));
        if parts.len() == 0 {
            owned(path)
        } else {
            let prefix = join_first(&parts, parts.len(), "/");
            proof {
                assert(parts.deep_view().take(parts.len() as int) =~= parts.deep_view());
            }
            concat3(prefix.as_str(), "/", path)
        }
    };
    assert(reached(base@, path@) == Some(found@));
    if starts_with(found.as_str(), "../") {
        Err(EpubError::RealtiveLinkLeakage { path: owned(path) })
    } else {
        Ok(found)
    }
}

/// What is left behind the leading steps up does not begin with a step up.
pub proof fn lemma_after_up_steps(reference: Seq<char>)
    ensures
        !up_step().is_prefix_of(after_up_steps(reference)),
    decreases reference.len(),
{
    if up_step().is_prefix_of(reference) {
        lemma_after_up_steps(reference.skip(3));
    }
}

/// A name below a directory that has at least one component, none of them
/// `..`, does not begin with a step up.
pub proof fn lemma_below_stays_inside(parts: Seq<Seq<char>>, name: Seq<char>)
    requires
        parts.len() > 0,
        parts[0].len() > 0,
        parts[0] != seq!['.', '.'],
        forall|j: int| 0 <= j < parts[0].len() ==> parts[0][j] != '/',
    ensures
        !up_step().is_prefix_of(below(parts, name)),
{
    let path = below(parts, name);
    let first = parts[0];
    let head = first + seq!['/'];
    lemma_joined_starts(parts, seq!['/']);
    let inner = joined(parts, seq!['/']);
    assert(head.is_prefix_of(path)) by {
        if parts.len() > 1 {
            assert(head =~= inner.subrange(0, head.len() as int));
            assert(head =~= path.subrange(0, head.len() as int));
        } else {
            assert(inner == first);
            assert(head =~= path.subrange(0, head.len() as int));
        }
    }
    if up_step().is_prefix_of(path) {
        let n = first.len() as int;
        assert(path.subrange(0, 3)[0] == '.' && path.subrange(0, 3)[1] == '.' && path.subrange(
            0,
            3,
        )[2] == '/');
        assert forall|j: int| 0 <= j <= n implies path[j] == head[j] by {
            assert(path.subrange(0, head.len() as int)[j] == head[j]);
        }
        assert(path[n] == '/');
        if n >= 3 {
            assert(path[2] == first[2]);
        } else if n == 2 {
            assert(first =~= seq!['.', '.']);
        } else {
            assert(path[1] == '/');
        }
    }
}

/// Containment: a reference that is resolved never leads to a path that
/// begins with a step up.
pub proof fn lemma_resolved_stays_inside(dir: Seq<char>, reference: Seq<char>)
    ensures
        resolved(dir, reference) matches Some(path) ==> !up_step().is_prefix_of(path),
{
}

/// From a directory none of whose components is `..`, a reference that
/// does not start at the root with a step up is refused exactly where it
/// climbs above the root; any other leads where it is resolved to.
pub proof fn lemma_refused_above_root(dir: Seq<char>, reference: Seq<char>)
    requires
        forall|i: int| 0 <= i < components(dir).len() ==> components(dir)[i] != seq!['.', '.'],
        !(reference.len() > 0 && reference[0] == '/' && up_step().is_prefix_of(reference.skip(1))),
    ensures
        resolved(dir, reference) == reached(dir, reference),
        resolved(dir, reference) is None <==> up_steps(reference) > components(dir).len(),
{
    let parts = components(dir);
    lemma_words(dir, Delim::Char('/'));
    if up_step().is_prefix_of(reference) {
        lemma_after_up_steps(reference);
        let up = up_steps(reference);
        if up <= parts.len() {
            let kept = parts.take(parts.len() - up);
            if kept.len() > 0 {
                assert(kept[0] == parts[0]);
                lemma_below_stays_inside(kept, after_up_steps(reference));
            }
        }
    } else if reference.len() > 0 && reference[0] == '/' {
    } else {
        if parts.len() > 0 {
            lemma_below_stays_inside(parts, reference);
        }
    }
}

} // verus!
