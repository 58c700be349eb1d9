//! Operations on text, stated over the sequence of characters that a string holds.

use vstd::prelude::*;

verus! {

/// `String::push` appends one character to the end of the string.
pub assume_specification[ String::push ](s: &mut String, c: char)
    ensures
        final(s)@ == old(s)@.push(c),
;

/// The characters with the Unicode property `White_Space`.
pub open spec fn is_space(c: char) -> bool {
    let n = c as int;
    ||| 0x9 <= n <= 0xD
    ||| n == 0x20
    ||| n == 0x85
    ||| n == 0xA0
    ||| n == 0x1680
    ||| 0x2000 <= n <= 0x200A
    ||| n == 0x2028
    ||| n == 0x2029
    ||| n == 0x202F
    ||| n == 0x205F
    ||| n == 0x3000
}

/// `s` without its leading white space.
pub open spec fn trim_start(s: Seq<char>) -> Seq<char>
    decreases s.len(),
{
    if s.len() > 0 && is_space(s[0]) {
        trim_start(s.drop_first())
    } else {
        s
    }
}

/// `s` without its trailing white space.
pub open spec fn trim_end(s: Seq<char>) -> Seq<char>
    decreases s.len(),
{
    if s.len() > 0 && is_space(s.last()) {
        trim_end(s.drop_last())
    } else {
        s
    }
}

/// `s` without white space at either end.
pub open spec fn trimmed(s: Seq<char>) -> Seq<char> {
    trim_end(trim_start(s))
}

/// Whether `s` holds nothing but white space.
pub open spec fn is_blank(s: Seq<char>) -> bool {
    forall|i: int| 0 <= i < s.len() ==> is_space(#[trigger] s[i])
}

/// Whether `needle` occurs in `s` at position `i`.
pub open spec fn occurs_at(s: Seq<char>, needle: Seq<char>, i: int) -> bool {
    0 <= i && i + needle.len() <= s.len() && s.subrange(i, i + needle.len()) == needle
}

/// Whether `needle` occurs somewhere in `s`.
pub open spec fn has_text(s: Seq<char>, needle: Seq<char>) -> bool {
    exists|i: int| occurs_at(s, needle, i)
}

/// The position of the first `c` in `s`, or the length of `s` where there is none.
pub open spec fn index_of(s: Seq<char>, c: char) -> int
    decreases s.len(),
{
    if s.len() == 0 || s[0] == c {
        0
    } else {
        1 + index_of(s.drop_first(), c)
    }
}

/// A line that ended in a line feed, without the carriage return before it.
pub open spec fn without_cr(line: Seq<char>) -> Seq<char> {
    if line.len() > 0 && line.last() == '\r' {
        line.drop_last()
    } else {
        line
    }
}

/// The lines of `s`: each ends at a line feed or a carriage return and a line feed, and the
/// last ending is optional.
pub open spec fn lines_of(s: Seq<char>) -> Seq<Seq<char>>
    decreases s.len(),
    via lines_of_decreases
{
    if s.len() == 0 {
        seq![]
    } else if index_of(s, '\n') >= s.len() {
        seq![s]
    } else {
        seq![without_cr(s.take(index_of(s, '\n')))] + lines_of(s.skip(index_of(s, '\n') + 1))
    }
}

#[via_fn]
proof fn lines_of_decreases(s: Seq<char>) {
    lemma_index_of(s, '\n');
}

/// The parts of `s` between the places where `c` stands.
pub open spec fn split_at_char(s: Seq<char>, c: char) -> Seq<Seq<char>>
    decreases s.len(),
    via split_decreases
{
    if index_of(s, c) >= s.len() {
        seq![s]
    } else {
        seq![s.take(index_of(s, c))] + split_at_char(s.skip(index_of(s, c) + 1), c)
    }
}

#[via_fn]
proof fn split_decreases(s: Seq<char>, c: char) {
    lemma_index_of(s, c);
}

/// `s` without the `c` at either end.
pub open spec fn char_trimmed(s: Seq<char>, c: char) -> Seq<char>
    decreases s.len(),
{
    if s.len() > 0 && s[0] == c {
        char_trimmed(s.drop_first(), c)
    } else if s.len() > 0 && s.last() == c {
        char_trimmed(s.drop_last(), c)
    } else {
        s
    }
}

/// `parts` in order, with `sep` between each two.
pub open spec fn joined(parts: Seq<Seq<char>>, sep: Seq<char>) -> Seq<char>
    decreases parts.len(),
{
    if parts.len() == 0 {
        seq![]
    } else if parts.len() == 1 {
        parts[0]
    } else {
        joined(parts.drop_last(), sep) + sep + parts.last()
    }
}

/// `s` with each `c` replaced by `with`.
pub open spec fn char_replaced(s: Seq<char>, c: char, with: Seq<char>) -> Seq<char>
    decreases s.len(),
{
    if s.len() == 0 {
        seq![]
    } else {
        char_replaced(s.drop_last(), c, with) + if s.last() == c {
            with
        } else {
            seq![s.last()]
        }
    }
}

/// `s` with each occurrence of `pat`, found from the left without overlap, replaced by `with`.
pub open spec fn text_replaced(s: Seq<char>, pat: Seq<char>, with: Seq<char>) -> Seq<char>
    decreases s.len(),
{
    if pat.len() == 0 || s.len() < pat.len() {
        s
    } else if occurs_at(s, pat, 0) {
        with + text_replaced(s.skip(pat.len() as int), pat, with)
    } else {
        seq![s[0]] + text_replaced(s.drop_first(), pat, with)
    }
}

/// The decimal digit with value `d`.
pub open spec fn digit(d: int) -> char {
    (48 + d) as u8 as char
}

/// `n` written in decimal.
pub open spec fn decimal(n: nat) -> Seq<char>
    decreases n,
{
    if n < 10 {
        seq![digit(n as int)]
    } else {
        decimal(n / 10).push(digit((n % 10) as int))
    }
}

/// `c` with `A` to `Z` mapped to `a` to `z`.
pub open spec fn ascii_lower_char(c: char) -> char {
    if 65 <= c as int <= 90 {
        (c as int + 32) as u8 as char
    } else {
        c
    }
}

/// `s` with `A` to `Z` mapped to `a` to `z`.
pub open spec fn ascii_lower(s: Seq<char>) -> Seq<char> {
    s.map_values(|c: char| ascii_lower_char(c))
}

/// `c` with `a` to `z` mapped to `A` to `Z`.
pub open spec fn ascii_upper_char(c: char) -> char {
    if 97 <= c as int <= 122 {
        (c as int - 32) as u8 as char
    } else {
        c
    }
}

/// `s` with `a` to `z` mapped to `A` to `Z`.
pub open spec fn ascii_upper(s: Seq<char>) -> Seq<char> {
    s.map_values(|c: char| ascii_upper_char(c))
}

/// Whether `a` comes before `b` in the order of their characters.
pub open spec fn text_less(a: Seq<char>, b: Seq<char>) -> bool
    decreases a.len(),
{
    if b.len() == 0 {
        false
    } else if a.len() == 0 {
        true
    } else if a[0] == b[0] {
        text_less(a.drop_first(), b.drop_first())
    } else {
        (a[0] as int) < (b[0] as int)
    }
}

/// The views of a sequence of strings.
pub open spec fn views(v: Seq<String>) -> Seq<Seq<char>> {
    v.map_values(|s: String| s@)
}

/// The view of an optional string.
pub open spec fn opt_view(s: Option<String>) -> Option<Seq<char>> {
    match s {
        Some(t) => Some(t@),
        None => None,
    }
}

pub proof fn lemma_index_of(s: Seq<char>, c: char)
    ensures
        0 <= index_of(s, c) <= s.len(),
        forall|i: int| 0 <= i < index_of(s, c) ==> s[i] != c,
        index_of(s, c) < s.len() ==> s[index_of(s, c)] == c,
    decreases s.len(),
{
    if s.len() > 0 && s[0] != c {
        lemma_index_of(s.drop_first(), c);
        assert forall|i: int| 0 <= i < index_of(s, c) implies s[i] != c by {
            if i > 0 {
                assert(s.drop_first()[i - 1] == s[i]);
            }
        }
    }
}

/// The first `c` is where nothing before is `c`.
pub proof fn lemma_index_of_unique(s: Seq<char>, c: char, i: int)
    requires
        0 <= i <= s.len(),
        forall|j: int| 0 <= j < i ==> s[j] != c,
        i < s.len() ==> s[i] == c,
    ensures
        index_of(s, c) == i,
{
    lemma_index_of(s, c);
}

/// The order of texts is a strict total order: no text comes before itself.
pub proof fn text_less_irreflexive(a: Seq<char>)
    ensures
        !text_less(a, a),
    decreases a.len(),
{
    if a.len() > 0 {
        text_less_irreflexive(a.drop_first());
    }
}

/// The order of texts is a strict total order: it is transitive.
pub proof fn text_less_transitive(a: Seq<char>, b: Seq<char>, c: Seq<char>)
    requires
        text_less(a, b),
        text_less(b, c),
    ensures
        text_less(a, c),
    decreases a.len(),
{
    if a.len() > 0 && a[0] == b[0] && b[0] == c[0] {
        text_less_transitive(a.drop_first(), b.drop_first(), c.drop_first());
    }
}

/// The order of texts is a strict total order: of two different texts one comes first.
pub proof fn text_less_total(a: Seq<char>, b: Seq<char>)
    ensures
        text_less(a, b) || text_less(b, a) || a == b,
    decreases a.len(),
{
    if a.len() > 0 && b.len() > 0 {
        if a[0] == b[0] {
            text_less_total(a.drop_first(), b.drop_first());
            if a.drop_first() == b.drop_first() {
                assert(a =~= seq![a[0]] + a.drop_first());
                assert(b =~= seq![b[0]] + b.drop_first());
            }
        }
    } else if a.len() == 0 && b.len() == 0 {
        assert(a =~= b);
    }
}

/// The characters of `s` in order.
pub fn chars_of(s: &str) -> (r: Vec<char>)
    ensures
        r@ == s@,
{
    let mut out: Vec<char> = Vec::new();
    for c in it: s.chars()
        invariant
            it.seq() == s@,
            out@ == s@.take(it.index() as int),
    {
        out.push(c);
    }
    out
}

/// The string that holds `chars` from `from` to `to`.
pub fn string_of(chars: &Vec<char>, from: usize, to: usize) -> (r: String)
    requires
        from <= to <= chars@.len(),
    ensures
        r@ == chars@.subrange(from as int, to as int),
{
    let mut out: String = String::new();
    let mut i: usize = from;
    while i < to
        invariant
            from <= i <= to <= chars@.len(),
            out@ == chars@.subrange(from as int, i as int),
        decreases to - i,
    {
        out.push(chars[i]);
        i += 1;
    }
    out
}

/// Whether two strings hold the same text.
pub fn same_text(a: &str, b: &str) -> (r: bool)
    ensures
        r == (a@ == b@),
{
    a.to_owned() == b.to_owned()
}

/// Whether `c` is white space.
pub fn is_space_char(c: char) -> (r: bool)
    ensures
        r == is_space(c),
{
    let n: u32 = c as u32;
    (0x9 <= n && n <= 0xD) || n == 0x20 || n == 0x85 || n == 0xA0 || n == 0x1680 || (0x2000 <= n
        && n <= 0x200A) || n == 0x2028 || n == 0x2029 || n == 0x202F || n == 0x205F || n == 0x3000
}

/// `s` without white space at either end.
pub fn trim(s: &str) -> (r: String)
    ensures
        r@ == trimmed(s@),
{
    let chars: Vec<char> = chars_of(s);
    let mut from: usize = 0;
    assert(chars@.skip(0) =~= chars@);
    while from < chars.len() && is_space_char(chars[from])
        invariant
            from <= chars@.len(),
            trim_start(chars@.skip(from as int)) == trim_start(chars@),
        decreases chars@.len() - from,
    {
        assert(chars@.skip(from as int).drop_first() =~= chars@.skip(from + 1));
        from += 1;
    }
    assert(trim_start(chars@) == chars@.skip(from as int));
    let mut to: usize = chars.len();
    while to > from && is_space_char(chars[to - 1])
        invariant
            from <= to <= chars@.len(),
            trim_end(chars@.subrange(from as int, to as int)) == trim_end(
                chars@.skip(from as int),
            ),
        decreases to,
    {
        let ghost here = chars@.subrange(from as int, to as int);
        assert(here.drop_last() =~= chars@.subrange(from as int, to - 1));
        assert(here.last() == chars@[to - 1]);
        to -= 1;
    }
    proof {
        let here = chars@.subrange(from as int, to as int);
        if to > from {
            assert(here.last() == chars@[to - 1]);
        }
    }
    string_of(&chars, from, to)
}

proof fn lemma_trim_start_of_blank(s: Seq<char>)
    ensures
        is_blank(s) == (trim_start(s).len() == 0),
    decreases s.len(),
{
    if s.len() > 0 {
        let t = s.drop_first();
        lemma_trim_start_of_blank(t);
        if is_space(s[0]) {
            if is_blank(t) {
                assert forall|i: int| 0 <= i < s.len() implies is_space(#[trigger] s[i]) by {
                    if i > 0 {
                        assert(s[i] == t[i - 1]);
                    }
                }
            } else {
                let j = choose|j: int| 0 <= j < t.len() && !is_space(#[trigger] t[j]);
                assert(s[j + 1] == t[j]);
            }
        }
    }
}

proof fn lemma_trim_end_nonempty(s: Seq<char>)
    requires
        s.len() > 0,
        !is_space(s[0]),
    ensures
        trim_end(s).len() > 0,
    decreases s.len(),
{
    if is_space(s.last()) {
        assert(s.len() > 1);
        assert(s.drop_last()[0] == s[0]);
        lemma_trim_end_nonempty(s.drop_last());
    }
}

proof fn lemma_trim_start_head(s: Seq<char>)
    ensures
        trim_start(s).len() > 0 ==> !is_space(trim_start(s)[0]),
    decreases s.len(),
{
    if s.len() > 0 && is_space(s[0]) {
        lemma_trim_start_head(s.drop_first());
    }
}

/// Trimming leaves nothing exactly where there is nothing but white space.
pub proof fn trimmed_empty_iff_blank(s: Seq<char>)
    ensures
        (trimmed(s).len() == 0) == is_blank(s),
{
    lemma_trim_start_of_blank(s);
    lemma_trim_start_head(s);
    if trim_start(s).len() > 0 {
        lemma_trim_end_nonempty(trim_start(s));
    }
}

proof fn lemma_trim_end_shape(s: Seq<char>)
    ensures
        trim_end(s).is_prefix_of(s),
        trim_end(s).len() > 0 ==> !is_space(trim_end(s).last()),
    decreases s.len(),
{
    if s.len() > 0 && is_space(s.last()) {
        lemma_trim_end_shape(s.drop_last());
        let kept = trim_end(s.drop_last());
        assert(kept =~= s.take(kept.len() as int));
    }
}

/// To trim again changes nothing.
pub proof fn trim_twice_is_once(s: Seq<char>)
    ensures
        trimmed(trimmed(s)) == trimmed(s),
{
    lemma_trim_start_head(s);
    lemma_trim_end_shape(trim_start(s));
    let kept = trimmed(s);
    if kept.len() > 0 {
        assert(kept[0] == trim_start(s)[0]);
    }
}

/// Whether `s` holds nothing but white space.
pub fn blank(s: &str) -> (r: bool)
    ensures
        r == is_blank(s@),
{
    for c in it: s.chars()
        invariant
            it.seq() == s@,
            forall|i: int| 0 <= i < it.index() ==> is_space(#[trigger] s@[i]),
    {
        if !is_space_char(c) {
            return false;
        }
    }
    true
}

/// Whether `needle` occurs in `chars` at position `at`.
fn matches_at(chars: &Vec<char>, needle: &Vec<char>, at: usize) -> (r: bool)
    requires
        at + needle@.len() <= chars@.len(),
    ensures
        r == occurs_at(chars@, needle@, at as int),
{
    let mut j: usize = 0;
    let size: usize = chars.len();
    while j < needle.len()
        invariant
            j <= needle@.len(),
            at + needle@.len() <= size == chars@.len(),
            forall|k: int| 0 <= k < j ==> chars@[at + k] == needle@[k],
        decreases needle@.len() - j,
    {
        if chars[at + j] != needle[j] {
            assert(chars@.subrange(at as int, at + needle@.len())[j as int] != needle@[j as int]);
            return false;
        }
        j += 1;
    }
    assert(chars@.subrange(at as int, at + needle@.len()) =~= needle@);
    true
}

/// Whether `needle` occurs in `s`.
pub fn contains(s: &str, needle: &str) -> (r: bool)
    ensures
        r == has_text(s@, needle@),
{
    let chars: Vec<char> = chars_of(s);
    let pat: Vec<char> = chars_of(needle);
    if pat.len() > chars.len() {
        return false;
    }
    let last: usize = chars.len() - pat.len();
    let mut i: usize = 0;
    while i <= last
        invariant
            i <= last,
            last + pat@.len() == chars@.len(),
            chars@ == s@,
            pat@ == needle@,
            forall|j: int| 0 <= j < i ==> !occurs_at(chars@, pat@, j),
        decreases last - i,
    {
        if matches_at(&chars, &pat, i) {
            return true;
        }
        if i == last {
            return false;
        }
        i += 1;
    }
    false
}

/// Whether `s` begins with `prefix`.
pub fn starts_with(s: &str, prefix: &str) -> (r: bool)
    ensures
        r == prefix@.is_prefix_of(s@),
{
    let chars: Vec<char> = chars_of(s);
    let pat: Vec<char> = chars_of(prefix);
    if pat.len() > chars.len() {
        return false;
    }
    let r: bool = matches_at(&chars, &pat, 0);
    assert(occurs_at(s@, prefix@, 0) == prefix@.is_prefix_of(s@));
    r
}

/// Whether `s` ends with `suffix`.
pub fn ends_with(s: &str, suffix: &str) -> (r: bool)
    ensures
        r == suffix@.is_suffix_of(s@),
{
    let chars: Vec<char> = chars_of(s);
    let pat: Vec<char> = chars_of(suffix);
    if pat.len() > chars.len() {
        return false;
    }
    let at: usize = chars.len() - pat.len();
    let r: bool = matches_at(&chars, &pat, at);
    assert(occurs_at(s@, suffix@, at as int) == suffix@.is_suffix_of(s@));
    r
}

/// What follows `prefix` in `s`, where `s` begins with it.
pub fn strip_prefix(s: &str, prefix: &str) -> (r: Option<String>)
    ensures
        match r {
            Some(rest) => s@ == prefix@ + rest@,
            None => !prefix@.is_prefix_of(s@),
        },
{
    if !starts_with(s, prefix) {
        return None;
    }
    let chars: Vec<char> = chars_of(s);
    let pat: Vec<char> = chars_of(prefix);
    let rest: String = string_of(&chars, pat.len(), chars.len());
    assert(s@ =~= prefix@ + rest@);
    Some(rest)
}

/// The lines of `s`.
pub fn lines(s: &str) -> (r: Vec<String>)
    ensures
        views(r@) == lines_of(s@),
{
    let chars: Vec<char> = chars_of(s);
    let mut out: Vec<String> = Vec::new();
    let mut start: usize = 0;
    let mut i: usize = 0;
    assert(chars@.skip(0) =~= chars@);
    assert(views(out@) + lines_of(chars@) =~= lines_of(chars@));
    while i < chars.len()
        invariant
            start <= i <= chars@.len(),
            forall|j: int| start <= j < i ==> chars@[j] != '\n',
            views(out@) + lines_of(chars@.skip(start as int)) == lines_of(chars@),
        decreases chars@.len() - i,
    {
        if chars[i] == '\n' {
            let ghost rest = chars@.skip(start as int);
            proof {
                assert forall|j: int| 0 <= j < i - start implies rest[j] != '\n' by {
                    assert(rest[j] == chars@[start + j]);
                }
                assert(rest[i - start] == chars@[i as int]);
                lemma_index_of_unique(rest, '\n', i - start);
                assert(rest.take(i - start) =~= chars@.subrange(start as int, i as int));
                assert(rest.skip(i - start + 1) =~= chars@.skip(i + 1));
            }
            let end: usize = if i > start && chars[i - 1] == '\r' {
                i - 1
            } else {
                i
            };
            let line: String = string_of(&chars, start, end);
            proof {
                let full = chars@.subrange(start as int, i as int);
                assert(line@ =~= without_cr(full));
                assert(views(out@.push(line)) =~= views(out@).push(line@));
                assert(views(out@) + lines_of(rest) =~= views(out@).push(line@) + lines_of(
                    chars@.skip(i + 1),
                ));
            }
            out.push(line);
            start = i + 1;
        }
        i += 1;
    }
    let ghost rest = chars@.skip(start as int);
    if start < chars.len() {
        let line: String = string_of(&chars, start, chars.len());
        proof {
            assert forall|j: int| 0 <= j < rest.len() implies rest[j] != '\n' by {
                assert(rest[j] == chars@[start + j]);
            }
            lemma_index_of_unique(rest, '\n', rest.len() as int);
            assert(line@ =~= rest);
            assert(views(out@.push(line)) =~= views(out@) + lines_of(rest));
        }
        out.push(line);
    } else {
        assert(rest =~= seq![]);
        assert(views(out@) + lines_of(rest) =~= views(out@));
    }
    out
}

/// The strings of `parts` in order, with `sep` between each two.
pub fn join(parts: &Vec<String>, sep: &str) -> (r: String)
    ensures
        r@ == joined(views(parts@), sep@),
{
    let mut out: String = String::new();
    let mut i: usize = 0;
    while i < parts.len()
        invariant
            i <= parts@.len(),
            out@ == joined(views(parts@).take(i as int), sep@),
        decreases parts@.len() - i,
    {
        proof {
            let next = views(parts@).take(i + 1);
            assert(next.drop_last() =~= views(parts@).take(i as int));
            assert(next.last() == parts@[i as int]@);
            if i == 0 {
                assert(out@ + parts@[0]@ =~= parts@[0]@);
            }
        }
        if i > 0 {
            out.append(sep);
        }
        out.append(parts[i].as_str());
        i += 1;
    }
    assert(views(parts@).take(i as int) =~= views(parts@));
    out
}

/// `s` with each `c` replaced by `with`.
pub fn replace_char(s: &str, c: char, with: &str) -> (r: String)
    ensures
        r@ == char_replaced(s@, c, with@),
{
    let chars: Vec<char> = chars_of(s);
    let mut out: String = String::new();
    let mut i: usize = 0;
    while i < chars.len()
        invariant
            i <= chars@.len(),
            out@ == char_replaced(chars@.take(i as int), c, with@),
        decreases chars@.len() - i,
    {
        proof {
            let next = chars@.take(i + 1);
            assert(next.drop_last() =~= chars@.take(i as int));
            assert(next.last() == chars@[i as int]);
        }
        let ghost before = out@;
        if chars[i] == c {
            out.append(with);
        } else {
            out.push(chars[i]);
            assert(out@ =~= before + seq![chars@[i as int]]);
        }
        i += 1;
    }
    assert(chars@.take(i as int) =~= chars@);
    out
}

/// `s` with each occurrence of `pat`, found from the left without overlap, replaced by `with`.
pub fn replace(s: &str, pat: &str, with: &str) -> (r: String)
    requires
        pat@.len() > 0,
    ensures
        r@ == text_replaced(s@, pat@, with@),
{
    let chars: Vec<char> = chars_of(s);
    let needle: Vec<char> = chars_of(pat);
    let mut out: String = String::new();
    let mut i: usize = 0;
    assert(chars@.skip(0) =~= chars@);
    assert(out@ + text_replaced(chars@, needle@, with@) =~= text_replaced(
        chars@,
        needle@,
        with@,
    ));
    while i < chars.len()
        invariant
            i <= chars@.len(),
            needle@.len() > 0,
            out@ + text_replaced(chars@.skip(i as int), needle@, with@) == text_replaced(
                chars@,
                needle@,
                with@,
            ),
        decreases chars@.len() - i,
    {
        let ghost rest = chars@.skip(i as int);
        let ghost before = out@;
        if needle.len() <= chars.len() - i && matches_at(&chars, &needle, i) {
            proof {
                assert(rest.subrange(0, needle@.len() as int) =~= chars@.subrange(
                    i as int,
                    i + needle@.len(),
                ));
                assert(occurs_at(rest, needle@, 0));
                assert(rest.skip(needle@.len() as int) =~= chars@.skip(i + needle@.len()));
            }
            out.append(with);
            i += needle.len();
            assert(out@ + text_replaced(chars@.skip(i as int), needle@, with@) =~= before
                + text_replaced(rest, needle@, with@));
        } else {
            proof {
                if needle@.len() <= rest.len() {
                    assert(rest.subrange(0, needle@.len() as int) =~= chars@.subrange(
                        i as int,
                        i + needle@.len(),
                    ));
                    assert(!occurs_at(rest, needle@, 0));
                }
                assert(rest.drop_first() =~= chars@.skip(i + 1));
                assert(rest =~= seq![rest[0]] + rest.drop_first());
            }
            out.push(chars[i]);
            i += 1;
            assert(out@ + text_replaced(chars@.skip(i as int), needle@, with@) =~= before
                + text_replaced(rest, needle@, with@));
        }
    }
    assert(chars@.skip(i as int) =~= seq![]);
    assert(out@ + text_replaced(chars@.skip(i as int), needle@, with@) =~= out@);
    out
}

/// `n` written in decimal.
pub fn decimal_of(n: u64) -> (r: String)
    ensures
        r@ == decimal(n as nat),
    decreases n,
{
    let d: u8 = (n % 10) as u8;
    let c: char = (48 + d) as char;
    if n < 10 {
        let mut out: String = String::new();
        out.push(c);
        assert(out@ =~= seq![digit(n as int)]);
        out
    } else {
        let mut out: String = decimal_of(n / 10);
        out.push(c);
        out
    }
}

/// `s` with `A` to `Z` mapped to `a` to `z`.
pub fn to_ascii_lower(s: &str) -> (r: String)
    ensures
        r@ == ascii_lower(s@),
{
    let chars: Vec<char> = chars_of(s);
    let mut out: String = String::new();
    let mut i: usize = 0;
    while i < chars.len()
        invariant
            i <= chars@.len(),
            out@ == ascii_lower(chars@.take(i as int)),
        decreases chars@.len() - i,
    {
        let c: char = chars[i];
        let n: u32 = c as u32;
        let lower: char = if 65 <= n && n <= 90 {
            (n as u8 + 32) as char
        } else {
            c
        };
        assert(lower == ascii_lower_char(c));
        assert(ascii_lower(chars@.take(i + 1)) =~= ascii_lower(chars@.take(i as int)).push(
            ascii_lower_char(c),
        ));
        out.push(lower);
        i += 1;
    }
    assert(chars@.take(i as int) =~= chars@);
    out
}

/// `s` with `a` to `z` mapped to `A` to `Z`.
pub fn to_ascii_upper(s: &str) -> (r: String)
    ensures
        r@ == ascii_upper(s@),
{
    let chars: Vec<char> = chars_of(s);
    let mut out: String = String::new();
    let mut i: usize = 0;
    while i < chars.len()
        invariant
            i <= chars@.len(),
            out@ == ascii_upper(chars@.take(i as int)),
        decreases chars@.len() - i,
    {
        let c: char = chars[i];
        let n: u32 = c as u32;
        let upper: char = if 97 <= n && n <= 122 {
            (n as u8 - 32) as char
        } else {
            c
        };
        assert(upper == ascii_upper_char(c));
        assert(ascii_upper(chars@.take(i + 1)) =~= ascii_upper(chars@.take(i as int)).push(
            ascii_upper_char(c),
        ));
        out.push(upper);
        i += 1;
    }
    assert(chars@.take(i as int) =~= chars@);
    out
}

/// The code point of `c`.
fn code_point(c: char) -> (r: u32)
    ensures
        r == c as int,
{
    c as u32
}

/// Whether `a` comes before `b`.
pub fn less(a: &str, b: &str) -> (r: bool)
    ensures
        r == text_less(a@, b@),
{
    let x: Vec<char> = chars_of(a);
    let y: Vec<char> = chars_of(b);
    let mut i: usize = 0;
    assert(x@.skip(0) =~= x@);
    assert(y@.skip(0) =~= y@);
    while i < x.len() && i < y.len()
        invariant
            i <= x@.len(),
            i <= y@.len(),
            x@ == a@,
            y@ == b@,
            text_less(x@, y@) == text_less(x@.skip(i as int), y@.skip(i as int)),
        decreases x@.len() - i,
    {
        assert(x@.skip(i as int).drop_first() =~= x@.skip(i + 1));
        assert(y@.skip(i as int).drop_first() =~= y@.skip(i + 1));
        let c: char = x[i];
        let d: char = y[i];
        if c != d {
            return code_point(c) < code_point(d);
        }
        i += 1;
    }
    i < y.len()
}

/// Whether `v` holds the text of `s`.
pub fn holds(v: &Vec<String>, s: &str) -> (r: bool)
    ensures
        r == views(v@).contains(s@),
{
    let mut i: usize = 0;
    while i < v.len()
        invariant
            i <= v@.len(),
            forall|j: int| 0 <= j < i ==> v@[j]@ != s@,
        decreases v@.len() - i,
    {
        if same_text(v[i].as_str(), s) {
            assert(views(v@)[i as int] == s@);
            return true;
        }
        i += 1;
    }
    assert forall|j: int| 0 <= j < views(v@).len() implies views(v@)[j] != s@ by {}
    false
}

/// A copy of `v`.
pub fn clone_strings(v: &Vec<String>) -> (r: Vec<String>)
    ensures
        r@ == v@,
        views(r@) == views(v@),
{
    let mut out: Vec<String> = Vec::new();
    let mut i: usize = 0;
    while i < v.len()
        invariant
            i <= v@.len(),
            out@ == v@.take(i as int),
        decreases v@.len() - i,
    {
        out.push(v[i].clone());
        i += 1;
    }
    assert(v@.take(i as int) =~= v@);
    out
}

/// The parts of `s` between the places where `c` stands.
pub fn split_char(s: &str, c: char) -> (r: Vec<String>)
    ensures
        views(r@) == split_at_char(s@, c),
{
    let chars: Vec<char> = chars_of(s);
    let mut out: Vec<String> = Vec::new();
    let mut start: usize = 0;
    let mut i: usize = 0;
    assert(chars@.skip(0) =~= chars@);
    assert(views(out@) + split_at_char(chars@, c) =~= split_at_char(chars@, c));
    while i < chars.len()
        invariant
            start <= i <= chars@.len(),
            forall|j: int| start <= j < i ==> chars@[j] != c,
            views(out@) + split_at_char(chars@.skip(start as int), c) == split_at_char(chars@, c),
        decreases chars@.len() - i,
    {
        if chars[i] == c {
            let ghost rest = chars@.skip(start as int);
            let part: String = string_of(&chars, start, i);
            proof {
                assert forall|j: int| 0 <= j < i - start implies rest[j] != c by {
                    assert(rest[j] == chars@[start + j]);
                }
                assert(rest[i - start] == chars@[i as int]);
                lemma_index_of_unique(rest, c, i - start);
                assert(rest.take(i - start) =~= part@);
                assert(rest.skip(i - start + 1) =~= chars@.skip(i + 1));
                assert(views(out@.push(part)) =~= views(out@).push(part@));
                assert(views(out@) + split_at_char(rest, c) =~= views(out@).push(part@)
                    + split_at_char(chars@.skip(i + 1), c));
            }
            out.push(part);
            start = i + 1;
        }
        i += 1;
    }
    let ghost rest = chars@.skip(start as int);
    let part: String = string_of(&chars, start, chars.len());
    proof {
        assert forall|j: int| 0 <= j < rest.len() implies rest[j] != c by {
            assert(rest[j] == chars@[start + j]);
        }
        lemma_index_of_unique(rest, c, rest.len() as int);
        assert(part@ =~= rest);
        assert(views(out@.push(part)) =~= views(out@) + split_at_char(rest, c));
    }
    out.push(part);
    out
}

/// `s` without the `c` at either end.
pub fn trim_char(s: &str, c: char) -> (r: String)
    ensures
        r@ == char_trimmed(s@, c),
{
    let chars: Vec<char> = chars_of(s);
    let mut from: usize = 0;
    let mut to: usize = chars.len();
    assert(chars@.subrange(0, to as int) =~= chars@);
    while from < to && chars[from] == c
        invariant
            from <= to == chars@.len(),
            char_trimmed(chars@.subrange(from as int, to as int), c) == char_trimmed(chars@, c),
        decreases to - from,
    {
        assert(chars@.subrange(from as int, to as int).drop_first() =~= chars@.subrange(
            from + 1,
            to as int,
        ));
        from += 1;
    }
    while to > from && chars[to - 1] == c
        invariant
            from <= to <= chars@.len(),
            from < to ==> chars@[from as int] != c,
            char_trimmed(chars@.subrange(from as int, to as int), c) == char_trimmed(chars@, c),
        decreases to,
    {
        let ghost here = chars@.subrange(from as int, to as int);
        assert(here.drop_last() =~= chars@.subrange(from as int, to - 1));
        assert(here.last() == chars@[to - 1]);
        to -= 1;
    }
    proof {
        let here = chars@.subrange(from as int, to as int);
        if to > from {
            assert(here.last() == chars@[to - 1]);
            assert(here[0] == chars@[from as int]);
        }
    }
    string_of(&chars, from, to)
}

/// A copy of an optional string.
pub fn clone_opt(s: &Option<String>) -> (r: Option<String>)
    ensures
        r == *s,
{
    match s {
        Some(t) => Some(t.clone()),
        None => None,
    }
}

/// What `std` writes for a string with the format `{:?}`.
pub uninterp spec fn debug_text_of(text: Seq<char>) -> Seq<char>;

/// Formats `text` with `{:?}`, as `impl Debug for str` writes it: between quotation marks, with
/// special characters escaped. The result depends on `text` alone.
#[verifier::external_body]
pub(crate) fn debug_text(text: &str) -> (r: String)
    ensures
        r@ == debug_text_of(text@),
{
    format!("{:?}", text)
}

/// The number that a sequence of decimal digits stands for.
pub open spec fn digits_value(digits: Seq<char>) -> nat
    decreases digits.len(),
{
    if digits.len() == 0 {
        0
    } else {
        digits_value(digits.drop_last()) * 10 + (digits.last() as int - '0' as int) as nat
    }
}

/// Whether a text is a number written in decimal digits alone.
pub open spec fn is_digits(text: Seq<char>) -> bool {
    &&& text.len() > 0
    &&& forall|i: int| 0 <= i < text.len() ==> '0' as int <= #[trigger] text[i] as int <= '9' as int
}

/// More digits do not make a number smaller.
proof fn lemma_digits_grow(digits: Seq<char>, n: int)
    requires
        0 <= n <= digits.len(),
    ensures
        digits_value(digits.take(n)) <= digits_value(digits),
    decreases digits.len(),
{
    if n < digits.len() {
        lemma_digits_grow(digits.drop_last(), n);
        assert(digits.drop_last().take(n) =~= digits.take(n));
    } else {
        assert(digits.take(n) =~= digits);
    }
}

/// The number that a text of decimal digits stands for, where it is one and not too great.
pub fn parse_digits(text: &str) -> (r: Option<u64>)
    ensures
        match r {
            Some(n) => is_digits(text@) && digits_value(text@) == n,
            None => !(is_digits(text@) && digits_value(text@) <= u64::MAX),
        },
{
    let chars: Vec<char> = chars_of(text);
    if chars.len() == 0 {
        return None;
    }
    let mut value: u128 = 0;
    let mut i: usize = 0;
    assert(text@.take(0).len() == 0);
    while i < chars.len()
        invariant
            i <= chars@.len(),
            chars@ == text@,
            value == digits_value(text@.take(i as int)),
            value <= u64::MAX,
            forall|k: int|
                0 <= k < i ==> '0' as int <= #[trigger] text@[k] as int <= '9' as int,
        decreases chars@.len() - i,
    {
        let c: char = chars[i];
        assert(c == text@[i as int]);
        if c < '0' || c > '9' {
            return None;
        }
        assert(text@.take(i + 1).drop_last() =~= text@.take(i as int));
        value = value * 10 + (c as u128 - '0' as u128);
        i += 1;
        if value > u64::MAX as u128 {
            proof {
                lemma_digits_grow(text@, i as int);
            }
            return None;
        }
    }
    assert(text@.take(i as int) =~= text@);
    Some(value as u64)
}

} // verus!
