//! Paths as text, with `/` between their parts.

use crate::text::{
    ends_with, join, joined, same_text, split_at_char, split_char, starts_with, views,
};
use vstd::prelude::*;

verus! {

/// `base` and `relative` below it.
pub open spec fn path_below(base: Seq<char>, relative: Seq<char>) -> Seq<char> {
    if base.len() == 0 || "/"@.is_suffix_of(base) {
        base + relative
    } else {
        base + "/"@ + relative
    }
}

/// Whether the text at place `i` between the separators of a path is a part of it: one without
/// characters is not, and a dot only where the path starts with it.
pub open spec fn is_part(pieces: Seq<Seq<char>>, i: int) -> bool {
    pieces[i].len() > 0 && (pieces[i] != "."@ || i == 0)
}

/// The places of the parts among the first `n` of `pieces`.
pub open spec fn part_places(pieces: Seq<Seq<char>>, n: nat) -> Seq<int>
    decreases n,
{
    if n == 0 {
        seq![]
    } else if is_part(pieces, n - 1) {
        part_places(pieces, (n - 1) as nat).push(n - 1)
    } else {
        part_places(pieces, (n - 1) as nat)
    }
}

/// The parts of a path.
pub open spec fn path_parts(path: Seq<char>) -> Seq<Seq<char>> {
    let pieces = split_at_char(path, '/');
    part_places(pieces, pieces.len()).map_values(|i: int| pieces[i])
}

/// Whether a path starts at the root.
pub open spec fn is_absolute(path: Seq<char>) -> bool {
    "/"@.is_prefix_of(path)
}

/// Whether `path` is `base` or lies below it. Every path lies below the empty one.
pub open spec fn is_within(path: Seq<char>, base: Seq<char>) -> bool {
    if is_absolute(path) == is_absolute(base) {
        path_parts(base).is_prefix_of(path_parts(path))
    } else {
        !is_absolute(base) && path_parts(base).len() == 0
    }
}

/// The way from `base` to `path`, which lies below it: what stands in `path` from its first part
/// behind those of `base` up to its last part.
pub open spec fn path_from(path: Seq<char>, base: Seq<char>) -> Seq<char> {
    let pieces = split_at_char(path, '/');
    let places = part_places(pieces, pieces.len());
    let skipped = path_parts(base).len() as int;
    let from_root = is_absolute(path) && !is_absolute(base);
    if skipped < places.len() {
        let start = if from_root {
            0
        } else {
            places[skipped]
        };
        joined(pieces.subrange(start, places.last() + 1), "/"@)
    } else if from_root {
        "/"@
    } else {
        seq![]
    }
}

/// The last part of a path, or the path where that is not a name.
pub open spec fn last_part(path: Seq<char>) -> Seq<char> {
    let parts = path_parts(path);
    if parts.len() > 0 && parts.last() != ".."@ && parts.last() != "."@ {
        parts.last()
    } else {
        path
    }
}

/// How a path is shown: from the working directory, from the home directory, or by its last
/// part.
pub open spec fn label_of(path: Seq<char>, cwd: Seq<char>, home: Seq<char>) -> Seq<char> {
    if is_within(path, cwd) {
        if path_from(path, cwd).len() == 0 {
            "."@
        } else {
            path_from(path, cwd)
        }
    } else if is_within(path, home) {
        if path_from(path, home).len() == 0 {
            "~"@
        } else {
            "~/"@ + path_from(path, home)
        }
    } else {
        last_part(path)
    }
}

/// `base` and `relative` below it.
pub fn join_path(base: &str, relative: &str) -> (r: String)
    ensures
        r@ == path_below(base@, relative@),
{
    if base.is_empty() || ends_with(base, "/") {
        base.to_owned().concat(relative)
    } else {
        base.to_owned().concat("/").concat(relative)
    }
}

proof fn lemma_part_places(pieces: Seq<Seq<char>>, n: nat)
    ensures
        ({
            let places = part_places(pieces, n);
            &&& forall|k: int| 0 <= k < places.len() ==> 0 <= #[trigger] places[k] < n
            &&& forall|k: int, l: int|
                0 <= k < l < places.len() ==> #[trigger] places[k] < #[trigger] places[l]
        }),
    decreases n,
{
    if n > 0 {
        lemma_part_places(pieces, (n - 1) as nat);
        let before = part_places(pieces, (n - 1) as nat);
        let places = part_places(pieces, n);
        assert forall|k: int| 0 <= k < before.len() implies #[trigger] places[k] == before[k] by {}
        assert(forall|k: int| 0 <= k < before.len() ==> 0 <= #[trigger] before[k] < n - 1);
    }
}

fn places_of(pieces: &Vec<String>) -> (r: Vec<usize>)
    ensures
        r@.map_values(|i: usize| i as int) == part_places(views(pieces@), pieces@.len()),
{
    let ghost texts = views(pieces@);
    let mut out: Vec<usize> = Vec::new();
    let mut i: usize = 0;
    assert(out@.map_values(|i: usize| i as int) =~= part_places(texts, 0));
    while i < pieces.len()
        invariant
            i <= pieces@.len(),
            texts == views(pieces@),
            out@.map_values(|i: usize| i as int) == part_places(texts, i as nat),
        decreases pieces@.len() - i,
    {
        assert(texts[i as int] == pieces@[i as int]@);
        if !pieces[i].as_str().is_empty() && (i == 0 || !same_text(pieces[i].as_str(), ".")) {
            let ghost before = out@;
            out.push(i);
            assert(out@.map_values(|i: usize| i as int) =~= before.map_values(
                |i: usize| i as int,
            ).push(i as int));
        }
        i += 1;
    }
    out
}

fn parts_of(path: &str) -> (r: Vec<String>)
    ensures
        views(r@) == path_parts(path@),
{
    let pieces: Vec<String> = split_char(path, '/');
    let places: Vec<usize> = places_of(&pieces);
    let ghost texts = views(pieces@);
    let ghost at = part_places(texts, texts.len());
    let mut out: Vec<String> = Vec::new();
    let mut i: usize = 0;
    proof {
        lemma_part_places(texts, texts.len());
        assert(places@.map_values(|i: usize| i as int).len() == places@.len());
        assert(views(out@) =~= path_parts(path@).take(0));
    }
    while i < places.len()
        invariant
            i <= places@.len(),
            places@.len() == at.len(),
            texts == views(pieces@),
            texts == split_at_char(path@, '/'),
            at == part_places(texts, texts.len()),
            places@.map_values(|i: usize| i as int) == at,
            forall|k: int| 0 <= k < at.len() ==> 0 <= #[trigger] at[k] < texts.len(),
            views(out@) == path_parts(path@).take(i as int),
        decreases places@.len() - i,
    {
        let ghost before = out@;
        proof {
            assert(places@.map_values(|i: usize| i as int)[i as int] == places@[i as int] as int);
            assert(at[i as int] == places@[i as int]);
            assert(path_parts(path@)[i as int] == texts[at[i as int]]);
        }
        let part: String = pieces[places[i]].clone();
        out.push(part);
        proof {
            assert(views(out@) =~= views(before).push(part@));
            assert(path_parts(path@).take(i + 1) =~= path_parts(path@).take(i as int).push(
                path_parts(path@)[i as int],
            ));
        }
        i += 1;
    }
    assert(path_parts(path@).take(i as int) =~= path_parts(path@));
    out
}

fn starts_with_parts(whole: &Vec<String>, front: &Vec<String>) -> (r: bool)
    ensures
        r == views(front@).is_prefix_of(views(whole@)),
{
    if front.len() > whole.len() {
        assert(views(front@).len() > views(whole@).len());
        return false;
    }
    let mut i: usize = 0;
    while i < front.len()
        invariant
            i <= front@.len() <= whole@.len(),
            forall|j: int| 0 <= j < i ==> front@[j]@ == whole@[j]@,
        decreases front@.len() - i,
    {
        if !same_text(front[i].as_str(), whole[i].as_str()) {
            proof {
                assert(views(front@)[i as int] == front@[i as int]@);
                assert(views(whole@)[i as int] == whole@[i as int]@);
                if views(front@).is_prefix_of(views(whole@)) {
                    assert(views(whole@).subrange(0, front@.len() as int)[i as int]
                        == whole@[i as int]@);
                }
            }
            return false;
        }
        i += 1;
    }
    assert(views(front@) =~= views(whole@).subrange(0, front@.len() as int));
    true
}

/// The way from `base` to `path`, where `path` is `base` or lies below it.
pub fn strip_path(path: &str, base: &str) -> (r: Option<String>)
    ensures
        match r {
            Some(rest) => is_within(path@, base@) && rest@ == path_from(path@, base@),
            None => !is_within(path@, base@),
        },
{
    let from_root: bool = starts_with(path, "/") && !starts_with(base, "/");
    let front: Vec<String> = parts_of(base);
    assert(views(front@).len() == front@.len());
    if starts_with(path, "/") == starts_with(base, "/") {
        if !starts_with_parts(&parts_of(path), &front) {
            return None;
        }
    } else if starts_with(base, "/") || front.len() > 0 {
        return None;
    }
    let mut pieces: Vec<String> = split_char(path, '/');
    let total: usize = pieces.len();
    let places: Vec<usize> = places_of(&pieces);
    let ghost texts = views(pieces@);
    let ghost at = part_places(texts, texts.len());
    proof {
        lemma_part_places(texts, texts.len());
        assert(places@.map_values(|i: usize| i as int).len() == places@.len());
    }
    if front.len() >= places.len() {
        return Some(
            if from_root {
                "/".to_owned()
            } else {
                String::new()
            },
        );
    }
    proof {
        assert(places@.map_values(|i: usize| i as int)[front@.len() as int]
            == places@[front@.len() as int] as int);
        assert(places@.map_values(|i: usize| i as int)[places@.len() - 1]
            == places@[places@.len() - 1] as int);
        assert(at[front@.len() as int] == places@[front@.len() as int]);
        assert(at.last() == places@[places@.len() - 1]);
        assert(at[at.len() - 1] < texts.len());
        assert(places@[places@.len() - 1] < total);
    }
    let start: usize = if from_root {
        0
    } else {
        places[front.len()]
    };
    let end: usize = places[places.len() - 1] + 1;
    assert(start < end <= pieces@.len());
    pieces.truncate(end);
    let tail: Vec<String> = pieces.split_off(start);
    assert(views(tail@) =~= texts.subrange(start as int, end as int));
    Some(join(&tail, "/"))
}

/// The last part of a path, or the path where that is not a name.
pub fn file_label(path: &str) -> (r: String)
    ensures
        r@ == last_part(path@),
{
    let parts: Vec<String> = parts_of(path);
    assert(views(parts@).len() == parts@.len());
    if parts.len() > 0 {
        let last: &String = &parts[parts.len() - 1];
        assert(views(parts@).last() == last@);
        if !same_text(last.as_str(), "..") && !same_text(last.as_str(), ".") {
            return last.clone();
        }
    }
    path.to_owned()
}

/// How a path is shown.
pub fn display_label(path: &str, cwd: &str, home: &str) -> (r: String)
    ensures
        r@ == label_of(path@, cwd@, home@),
{
    match strip_path(path, cwd) {
        Some(relative) => {
            if relative.as_str().is_empty() {
                ".".to_owned()
            } else {
                relative
            }
        },
        None => match strip_path(path, home) {
            Some(relative) => {
                if relative.as_str().is_empty() {
                    "~".to_owned()
                } else {
                    "~/".to_owned().concat(relative.as_str())
                }
            },
            None => file_label(path),
        },
    }
}

} // verus!
