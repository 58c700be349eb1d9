//! What holds of texts that are cut, put together and written.

use crate::text::{
    char_replaced, decimal, digits_value, index_of, is_blank, is_digits, is_space, joined,
    lemma_index_of, lines_of, occurs_at, split_at_char, text_replaced, trim_end, trim_start,
    trimmed, without_cr,
};
use vstd::prelude::*;

verus! {

/// Whether `part` stands somewhere in `whole`, in one piece.
pub open spec fn is_part_of(part: Seq<char>, whole: Seq<char>) -> bool {
    exists|before: Seq<char>, after: Seq<char>| whole == #[trigger] (before + part + after)
}

/// What is found between two texts is part of the three together.
pub proof fn middle_is_part(before: Seq<char>, part: Seq<char>, after: Seq<char>)
    ensures
        is_part_of(part, before + part + after),
{
}

/// What is part of a part is part of the whole.
pub proof fn part_of_part(small: Seq<char>, part: Seq<char>, whole: Seq<char>)
    requires
        is_part_of(small, part),
        is_part_of(part, whole),
    ensures
        is_part_of(small, whole),
{
    let (a, b) = choose|before: Seq<char>, after: Seq<char>| part == #[trigger] (before + small
        + after);
    let (c, d) = choose|before: Seq<char>, after: Seq<char>| whole == #[trigger] (before + part
        + after);
    assert(whole =~= (c + a) + small + (b + d));
}

/// Each of the parts that are put together stands in the result.
pub proof fn joined_holds_each_part(parts: Seq<Seq<char>>, sep: Seq<char>, i: int)
    requires
        0 <= i < parts.len(),
    ensures
        is_part_of(parts[i], joined(parts, sep)),
    decreases parts.len(),
{
    let whole = joined(parts, sep);
    let none = Seq::<char>::empty();
    if parts.len() == 1 {
        assert(whole =~= none + parts[i] + none);
    } else if i == parts.len() - 1 {
        let front = joined(parts.drop_last(), sep) + sep;
        assert(whole =~= front + parts[i] + none);
    } else {
        joined_holds_each_part(parts.drop_last(), sep, i);
        let front = joined(parts.drop_last(), sep);
        assert(whole =~= none + front + (sep + parts.last()));
        part_of_part(parts[i], front, whole);
    }
}

proof fn lemma_joined_first(first: Seq<char>, rest: Seq<Seq<char>>, sep: Seq<char>)
    requires
        rest.len() > 0,
    ensures
        joined(seq![first] + rest, sep) == first + sep + joined(rest, sep),
    decreases rest.len(),
{
    let all = seq![first] + rest;
    assert(all.last() == rest.last());
    assert(all.drop_last() =~= seq![first] + rest.drop_last());
    if rest.len() == 1 {
        assert(all.drop_last() =~= seq![first]);
        assert(joined(all.drop_last(), sep) == first);
        assert(joined(rest, sep) == rest[0]);
        assert(joined(all, sep) =~= first + sep + rest[0]);
    } else {
        lemma_joined_first(first, rest.drop_last(), sep);
        assert(joined(all, sep) =~= first + sep + (joined(rest.drop_last(), sep) + sep
            + rest.last()));
    }
}

/// A text that is cut at a character, and put together again with that character, is the same
/// text, and the character stands in none of the pieces.
pub proof fn cut_text_is_put_together(s: Seq<char>, c: char)
    ensures
        split_at_char(s, c).len() > 0,
        joined(split_at_char(s, c), seq![c]) == s,
        forall|i: int| 0 <= i < split_at_char(s, c).len() ==> !(#[trigger] split_at_char(
            s,
            c,
        )[i]).contains(c),
    decreases s.len(),
{
    let at = index_of(s, c);
    let pieces = split_at_char(s, c);
    lemma_index_of(s, c);
    if at < s.len() {
        let rest = s.skip(at + 1);
        cut_text_is_put_together(rest, c);
        lemma_joined_first(s.take(at), split_at_char(rest, c), seq![c]);
        assert(pieces == seq![s.take(at)] + split_at_char(rest, c));
        assert(s =~= s.take(at) + seq![c] + rest);
        assert forall|i: int| 0 <= i < pieces.len() implies !(#[trigger] pieces[i]).contains(
            c,
        ) by {
            if i > 0 {
                assert(pieces[i] == split_at_char(rest, c)[i - 1]);
            }
        }
    }
}

/// No line holds a line feed, and a text without carriage returns is its lines with line feeds
/// between them, and perhaps one at the end.
pub proof fn lines_make_up_the_text(s: Seq<char>)
    ensures
        forall|i: int| 0 <= i < lines_of(s).len() ==> !(#[trigger] lines_of(s)[i]).contains('\n'),
        !s.contains('\r') ==> s == joined(lines_of(s), seq!['\n']) || s == joined(
            lines_of(s),
            seq!['\n'],
        ) + seq!['\n'],
    decreases s.len(),
{
    let at = index_of(s, '\n');
    let lines = lines_of(s);
    let feed = seq!['\n'];
    lemma_index_of(s, '\n');
    if s.len() == 0 {
        assert(s =~= joined(lines, feed));
    } else if at < s.len() {
        let rest = s.skip(at + 1);
        let first = without_cr(s.take(at));
        lines_make_up_the_text(rest);
        assert(lines == seq![first] + lines_of(rest));
        assert forall|i: int| 0 <= i < lines.len() implies !(#[trigger] lines[i]).contains(
            '\n',
        ) by {
            if i > 0 {
                assert(lines[i] == lines_of(rest)[i - 1]);
            } else if first.contains('\n') {
                let k = choose|k: int| 0 <= k < first.len() && first[k] == '\n';
                assert(s[k] == '\n');
            }
        }
        if !s.contains('\r') {
            if s.take(at).len() > 0 && s.take(at).last() == '\r' {
                assert(s[at - 1] == '\r');
            }
            assert(first == s.take(at));
            if rest.contains('\r') {
                let k = choose|k: int| 0 <= k < rest.len() && rest[k] == '\r';
                assert(s[at + 1 + k] == '\r');
            }
            assert(s =~= s.take(at) + feed + rest);
            if rest.len() == 0 {
                assert(lines =~= seq![first]);
                assert(s =~= joined(lines, feed) + feed);
            } else {
                assert(lines_of(rest).len() > 0);
                lemma_joined_first(first, lines_of(rest), feed);
                if rest == joined(lines_of(rest), feed) {
                    assert(s =~= joined(lines, feed));
                } else {
                    assert(s =~= joined(lines, feed) + feed);
                }
            }
        }
    }
}

proof fn lemma_trim_start_cut(s: Seq<char>)
    ensures
        trim_start(s).len() <= s.len(),
        s.skip(s.len() - trim_start(s).len()) == trim_start(s),
        is_blank(s.take(s.len() - trim_start(s).len())),
        trim_start(s).len() > 0 ==> !is_space(trim_start(s)[0]),
    decreases s.len(),
{
    if s.len() > 0 && is_space(s[0]) {
        let rest = s.drop_first();
        lemma_trim_start_cut(rest);
        let cut = s.take(s.len() - trim_start(s).len());
        assert(s.skip(s.len() - trim_start(s).len()) =~= rest.skip(
            rest.len() - trim_start(rest).len(),
        ));
        assert forall|i: int| 0 <= i < cut.len() implies is_space(#[trigger] cut[i]) by {
            if i > 0 {
                assert(cut[i] == rest.take(rest.len() - trim_start(rest).len())[i - 1]);
            }
        }
    } else {
        assert(s.skip(0) =~= s);
    }
}

proof fn lemma_trim_end_cut(s: Seq<char>)
    ensures
        trim_end(s).len() <= s.len(),
        s.take(trim_end(s).len() as int) == trim_end(s),
        is_blank(s.skip(trim_end(s).len() as int)),
        trim_end(s).len() > 0 ==> !is_space(trim_end(s).last()),
    decreases s.len(),
{
    if s.len() > 0 && is_space(s.last()) {
        let rest = s.drop_last();
        lemma_trim_end_cut(rest);
        let n = trim_end(s).len() as int;
        assert(s.take(n) =~= rest.take(n));
        let cut = s.skip(n);
        assert forall|i: int| 0 <= i < cut.len() implies is_space(#[trigger] cut[i]) by {
            if i < cut.len() - 1 {
                assert(cut[i] == rest.skip(n)[i]);
            }
        }
    } else {
        assert(s.take(s.len() as int) =~= s);
    }
}

/// Trimming takes away white space at the two ends, all of it, and nothing else.
pub proof fn trimming_takes_only_white_space(s: Seq<char>)
    ensures
        exists|before: Seq<char>, after: Seq<char>|
            is_blank(before) && is_blank(after) && s == #[trigger] (before + trimmed(s) + after),
        trimmed(s).len() > 0 ==> !is_space(trimmed(s)[0]) && !is_space(trimmed(s).last()),
{
    let inner = trim_start(s);
    lemma_trim_start_cut(s);
    lemma_trim_end_cut(inner);
    let before = s.take(s.len() - inner.len());
    let after = inner.skip(trimmed(s).len() as int);
    assert(s =~= before + trimmed(s) + after);
    if trimmed(s).len() > 0 {
        assert(trimmed(s)[0] == inner[0]);
    }
}

/// Replacing a character replaces each of them, and keeps all others in their places.
pub proof fn each_character_is_replaced(s: Seq<char>, c: char, with: Seq<char>)
    ensures
        char_replaced(s, c, with) == s.map_values(
            |x: char| if x == c { with } else { seq![x] },
        ).flatten(),
    decreases s.len(),
{
    let f = |x: char| if x == c { with } else { seq![x] };
    if s.len() > 0 {
        each_character_is_replaced(s.drop_last(), c, with);
        assert(s.map_values(f) =~= s.drop_last().map_values(f).push(f(s.last())));
        s.drop_last().map_values(f).lemma_flatten_push(f(s.last()));
    }
}

/// Replacing a text that does not occur changes nothing; else the first that occurs is replaced,
/// what stands before it stays, and what stands behind it is gone through in the same way.
pub proof fn first_occurrence_is_replaced(s: Seq<char>, pat: Seq<char>, with: Seq<char>, at: int)
    requires
        pat.len() > 0,
        0 <= at <= s.len(),
        forall|i: int| 0 <= i < at ==> !occurs_at(s, pat, i),
        at == s.len() || occurs_at(s, pat, at),
    ensures
        text_replaced(s, pat, with) == if at == s.len() {
            s
        } else {
            s.take(at) + with + text_replaced(s.skip(at + pat.len()), pat, with)
        },
    decreases s.len(),
{
    if s.len() >= pat.len() {
        if at == 0 {
            assert(s.take(0) + with =~= with);
        } else {
            let rest = s.drop_first();
            assert(!occurs_at(s, pat, 0));
            assert forall|i: int| 0 <= i < at - 1 implies !occurs_at(rest, pat, i) by {
                if occurs_at(rest, pat, i) {
                    assert(s.subrange(i + 1, i + 1 + pat.len()) =~= rest.subrange(
                        i,
                        i + pat.len(),
                    ));
                    assert(occurs_at(s, pat, i + 1));
                }
            }
            if at < s.len() {
                assert(rest.subrange(at - 1, at - 1 + pat.len()) =~= s.subrange(
                    at,
                    at + pat.len(),
                ));
                assert(rest.skip(at - 1 + pat.len()) =~= s.skip(at + pat.len()));
            }
            first_occurrence_is_replaced(rest, pat, with, at - 1);
            let tail = text_replaced(s.skip(at + pat.len()), pat, with);
            if at == s.len() {
                assert(seq![s[0]] + rest =~= s);
            } else {
                assert(seq![s[0]] + (rest.take(at - 1) + with + tail) =~= s.take(at) + with + tail);
            }
        }
    } else if at < s.len() {
        assert(false);
    }
}

/// A number in decimal is made of digits, without a needless zero in front, and stands for that
/// number.
pub proof fn decimal_stands_for_its_number(n: nat)
    ensures
        is_digits(decimal(n)),
        digits_value(decimal(n)) == n,
        decimal(n).len() == 1 || decimal(n)[0] != '0',
    decreases n,
{
    reveal_with_fuel(digits_value, 2);
    if n >= 10 {
        decimal_stands_for_its_number(n / 10);
        assert(decimal(n).drop_last() =~= decimal(n / 10));
        if decimal(n / 10).len() == 1 {
            reveal_with_fuel(decimal, 2);
            assert(decimal(n)[0] != '0');
        }
    } else {
        assert(decimal(n).drop_last().len() == 0);
    }
}

} // verus!
