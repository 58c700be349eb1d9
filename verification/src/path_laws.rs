//! What holds of paths.

use crate::paths::{
    is_absolute, is_part, is_within, label_of, last_part, part_places, path_below, path_from,
    path_parts,
};
use crate::text::{index_of, lemma_index_of, lemma_index_of_unique, split_at_char};
use crate::text_laws::cut_text_is_put_together;
use vstd::prelude::*;

verus! {

proof fn lemma_cut_of_two(a: Seq<char>, b: Seq<char>, c: char)
    ensures
        split_at_char(a + seq![c] + b, c) == split_at_char(a, c) + split_at_char(b, c),
    decreases a.len(),
{
    let s = a + seq![c] + b;
    lemma_index_of(a, c);
    lemma_index_of(s, c);
    let at = index_of(a, c);
    if at >= a.len() {
        assert(s[a.len() as int] == c);
        lemma_index_of_unique(s, c, a.len() as int);
        assert(s.take(a.len() as int) =~= a);
        assert(s.skip(a.len() as int + 1) =~= b);
    } else {
        lemma_index_of_unique(s, c, at);
        let rest = a.skip(at + 1);
        lemma_cut_of_two(rest, b, c);
        assert(s.take(at) =~= a.take(at));
        assert(s.skip(at + 1) =~= rest + seq![c] + b);
        assert(seq![a.take(at)] + (split_at_char(rest, c) + split_at_char(b, c)) =~= seq![
            a.take(at),
        ] + split_at_char(rest, c) + split_at_char(b, c));
    }
}

proof fn lemma_places_of_prefix(a: Seq<Seq<char>>, b: Seq<Seq<char>>, n: nat)
    requires
        n <= a.len(),
    ensures
        part_places(a + b, n) == part_places(a, n),
        forall|k: int|
            0 <= k < part_places(a, n).len() ==> 0 <= #[trigger] part_places(a, n)[k] < n,
    decreases n,
{
    if n > 0 {
        lemma_places_of_prefix(a, b, (n - 1) as nat);
        assert((a + b)[n - 1] == a[n - 1]);
    }
}

proof fn lemma_places_behind(a: Seq<Seq<char>>, b: Seq<Seq<char>>, n: nat)
    requires
        a.len() > 0,
        n <= b.len(),
        forall|i: int| 0 <= i < b.len() ==> (#[trigger] b[i]).len() > 0 && b[i] != "."@,
    ensures
        part_places(a + b, a.len() + n) == part_places(a, a.len()) + Seq::new(
            n,
            |k: int| a.len() + k,
        ),
    decreases n,
{
    let places = part_places(a, a.len());
    if n > 0 {
        lemma_places_behind(a, b, (n - 1) as nat);
        let last = a.len() + n - 1;
        assert((a + b)[last] == b[n - 1]);
        assert(is_part(a + b, last));
        assert((a.len() + n - 1) as nat == a.len() + (n - 1) as nat);
        assert((places + Seq::new((n - 1) as nat, |k: int| a.len() + k)).push(last) =~= places
            + Seq::new(n, |k: int| a.len() + k));
    } else {
        lemma_places_of_prefix(a, b, a.len());
        assert(places + Seq::new(0, |k: int| a.len() + k) =~= places);
    }
}

/// Whether a path is made of names alone: it does not start at the root, and between its
/// separators stands neither nothing nor a single dot.
pub open spec fn is_plain(path: Seq<char>) -> bool {
    forall|i: int|
        0 <= i < split_at_char(path, '/').len() ==> (#[trigger] split_at_char(path, '/')[i]).len()
            > 0 && split_at_char(path, '/')[i] != "."@
}

proof fn lemma_below(base: Seq<char>, rel: Seq<char>)
    requires
        base.len() > 0,
        is_plain(rel),
    ensures
        ({
            let path = path_below(base, rel);
            let parts = split_at_char(rel, '/');
            &&& path_parts(path) == path_parts(base) + parts
            &&& is_absolute(path) == is_absolute(base)
            &&& path_from(path, base) == rel
        }),
{
    reveal_strlit("/");
    assert("/"@ =~= seq!['/']);
    let path = path_below(base, rel);
    let ends = "/"@.is_suffix_of(base);
    if ends {
        assert(base.last() == '/') by {
            assert(base.skip(base.len() - 1)[0] == base.last());
        }
    }
    let a = if ends {
        base.drop_last()
    } else {
        base
    };
    if ends {
        assert(base =~= a + seq!['/']);
    }
    assert(path =~= a + seq!['/'] + rel);
    let pa = split_at_char(a, '/');
    let pb = split_at_char(rel, '/');
    cut_text_is_put_together(a, '/');
    cut_text_is_put_together(rel, '/');
    lemma_cut_of_two(a, rel, '/');
    let pieces = split_at_char(path, '/');
    assert(pieces == pa + pb);
    lemma_places_behind(pa, pb, pb.len());
    lemma_places_of_prefix(pa, pb, pa.len());
    let own = part_places(pa, pa.len());
    let behind = Seq::new(pb.len(), |k: int| pa.len() + k);
    let places = part_places(pieces, pieces.len());
    assert(places == own + behind);
    // What the base is made of is what stands in front.
    let pieces_of_base = split_at_char(base, '/');
    if ends {
        let none = Seq::<char>::empty();
        lemma_cut_of_two(a, none, '/');
        assert(a + seq!['/'] + none =~= base);
        lemma_index_of(none, '/');
        assert(split_at_char(none, '/') =~= seq![none]);
        assert(pieces_of_base =~= pa.push(none));
        lemma_places_of_prefix(pa, seq![none], pa.len());
        assert(pa + seq![none] =~= pa.push(none));
        assert(!is_part(pieces_of_base, pa.len() as int));
        assert(part_places(pieces_of_base, pieces_of_base.len()) == own);
    } else {
        assert(part_places(pieces_of_base, pieces_of_base.len()) == own);
    }
    assert(path_parts(base) =~= own.map_values(|i: int| pa[i])) by {
        assert forall|k: int| 0 <= k < own.len() implies pieces_of_base[#[trigger] own[k]]
            == pa[own[k]] by {}
    }
    assert(path_parts(path) =~= path_parts(base) + pb) by {
        assert forall|k: int| 0 <= k < places.len() implies #[trigger] pieces[places[k]] == (
        path_parts(base) + pb)[k] by {
            if k < own.len() {
                assert(places[k] == own[k]);
                assert(pieces[own[k]] == pa[own[k]]);
            } else {
                assert(places[k] == pa.len() + (k - own.len()));
                assert(pieces[places[k]] == pb[k - own.len()]);
            }
        }
    }
    assert(is_absolute(path) == is_absolute(base)) by {
        assert(path[0] == base[0]);
        if is_absolute(base) {
            assert(base.take(1)[0] == base[0]);
            assert(path.take(1) =~= seq!['/']);
        }
        if is_absolute(path) {
            assert(path.take(1)[0] == path[0]);
            assert(base.take(1) =~= seq!['/']);
        }
    }
    assert(path_parts(base).len() == own.len());
    assert(places[own.len() as int] == pa.len());
    assert(places.last() == pa.len() + pb.len() - 1);
    assert(pieces.subrange(pa.len() as int, pieces.len() as int) =~= pb);
}

/// A file below a directory lies within it, and the way to it from there is the way that was
/// gone.
pub proof fn way_below_is_found_again(base: Seq<char>, rel: Seq<char>)
    requires
        base.len() > 0,
        is_plain(rel),
    ensures
        is_within(path_below(base, rel), base),
        path_from(path_below(base, rel), base) == rel,
        path_parts(path_below(base, rel)) == path_parts(base) + path_parts(rel),
{
    lemma_below(base, rel);
    let pb = split_at_char(rel, '/');
    assert(path_parts(rel) =~= pb) by {
        lemma_all_are_parts(pb, pb.len());
    }
    let all = path_parts(path_below(base, rel));
    assert(all.take(path_parts(base).len() as int) =~= path_parts(base));
}

proof fn lemma_all_are_parts(pieces: Seq<Seq<char>>, n: nat)
    requires
        n <= pieces.len(),
        forall|i: int|
            0 <= i < pieces.len() ==> (#[trigger] pieces[i]).len() > 0 && pieces[i] != "."@,
    ensures
        part_places(pieces, n) == Seq::new(n, |k: int| k),
    decreases n,
{
    if n > 0 {
        lemma_all_are_parts(pieces, (n - 1) as nat);
        assert(is_part(pieces, n - 1));
        assert(Seq::new((n - 1) as nat, |k: int| k).push(n - 1) =~= Seq::new(n, |k: int| k));
    } else {
        assert(part_places(pieces, n) =~= Seq::new(n, |k: int| k));
    }
}

/// A file below the working directory is shown by the way from there, and one below the home
/// directory, but not below the working directory, by the way from there behind a tilde.
pub proof fn file_is_shown_by_its_way(dir: Seq<char>, other: Seq<char>, rel: Seq<char>)
    requires
        dir.len() > 0,
        is_plain(rel),
    ensures
        label_of(path_below(dir, rel), dir, other) == rel,
        !is_within(path_below(dir, rel), other) ==> label_of(path_below(dir, rel), other, dir)
            == "~/"@ + rel,
{
    way_below_is_found_again(dir, rel);
    cut_text_is_put_together(rel, '/');
    if rel.len() == 0 {
        lemma_index_of(rel, '/');
        assert(split_at_char(rel, '/')[0].len() == 0);
    }
}

/// The working directory itself is shown by a dot, and the home directory, where it does not lie
/// below the working directory, by a tilde.
pub proof fn directories_are_shown(cwd: Seq<char>, home: Seq<char>)
    ensures
        label_of(cwd, cwd, home) == "."@,
        !is_within(home, cwd) ==> label_of(home, cwd, home) == "~"@,
{
    assert(path_parts(cwd).take(path_parts(cwd).len() as int) =~= path_parts(cwd));
    assert(path_parts(home).take(path_parts(home).len() as int) =~= path_parts(home));
    assert(path_from(cwd, cwd).len() == 0);
    assert(path_from(home, home).len() == 0);
}

/// Any other file is shown by its own name.
pub proof fn other_file_is_shown_by_its_name(
    dir: Seq<char>,
    name: Seq<char>,
    cwd: Seq<char>,
    home: Seq<char>,
)
    requires
        dir.len() > 0,
        name.len() > 0,
        !name.contains('/'),
        name != "."@,
        name != ".."@,
        !is_within(path_below(dir, name), cwd),
        !is_within(path_below(dir, name), home),
    ensures
        last_part(path_below(dir, name)) == name,
        label_of(path_below(dir, name), cwd, home) == name,
{
    lemma_index_of(name, '/');
    if index_of(name, '/') < name.len() {
        assert(name.contains(name[index_of(name, '/')]));
    }
    assert(split_at_char(name, '/') =~= seq![name]);
    assert(is_plain(name));
    lemma_below(dir, name);
    assert(path_parts(path_below(dir, name)).last() == name);
}

} // verus!
