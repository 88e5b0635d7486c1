//! Character-level text operations with their mathematical models.
//!
//! Every function here states its result over `Seq<char>`, the view of a string.
use vstd::prelude::*;
use vstd::string::*;

verus! {

/// The views of a sequence of strings.
pub open spec fn strs(v: Seq<String>) -> Seq<Seq<char>> {
    Seq::new(v.len(), |i: int| v[i]@)
}

/// Whether `c` has the Unicode property `White_Space`.
pub open spec fn is_whitespace(c: char) -> bool {
    let n = c as u32;
    ||| 0x09 <= n <= 0x0d
    ||| n == 0x20
    ||| n == 0x85
    ||| n == 0xa0
    ||| n == 0x1680
    ||| 0x2000 <= n <= 0x200a
    ||| n == 0x2028
    ||| n == 0x2029
    ||| n == 0x202f
    ||| n == 0x205f
    ||| n == 0x3000
}

/// The index of the first occurrence of `c` in `s`, or `s.len()` if there is none.
pub open spec fn find_char(s: Seq<char>, c: char) -> int
    decreases s.len(),
{
    if s.len() == 0 {
        0
    } else if s[0] == c {
        0
    } else {
        1 + find_char(s.drop_first(), c)
    }
}

/// The index of the first character of `s` that is not whitespace, or `s.len()`.
pub open spec fn first_non_whitespace(s: Seq<char>) -> int
    decreases s.len(),
{
    if s.len() == 0 {
        0
    } else if !is_whitespace(s[0]) {
        0
    } else {
        1 + first_non_whitespace(s.drop_first())
    }
}

/// One past the index of the last character of `s` that is not whitespace, or 0.
pub open spec fn trimmed_end(s: Seq<char>) -> int
    decreases s.len(),
{
    if s.len() == 0 {
        0
    } else if !is_whitespace(s.last()) {
        s.len() as int
    } else {
        trimmed_end(s.drop_last())
    }
}

/// `s` without its leading whitespace.
pub open spec fn trim_start(s: Seq<char>) -> Seq<char> {
    s.skip(first_non_whitespace(s))
}

/// `s` without its trailing whitespace.
pub open spec fn trim_end(s: Seq<char>) -> Seq<char> {
    s.take(trimmed_end(s))
}

/// `s` without its leading and trailing whitespace.
pub open spec fn trim(s: Seq<char>) -> Seq<char> {
    trim_end(trim_start(s))
}

/// `s` without one trailing carriage return.
pub open spec fn strip_cr(s: Seq<char>) -> Seq<char> {
    if s.len() > 0 && s.last() == '\r' {
        s.drop_last()
    } else {
        s
    }
}

/// The pieces of `s` between occurrences of `c`. There is always at least one piece.
pub open spec fn split(s: Seq<char>, c: char) -> Seq<Seq<char>>
    decreases s.len(),
{
    let i = find_char(s, c);
    if 0 <= i < s.len() {
        seq![s.take(i)] + split(s.skip(i + 1), c)
    } else {
        seq![s]
    }
}

/// The lines of `s`. A line ends at a line feed or at the end of the text; a carriage
/// return just before the line feed belongs to the line ending. A text that ends with
/// a line ending has no empty last line.
pub open spec fn lines(s: Seq<char>) -> Seq<Seq<char>>
    decreases s.len(),
{
    let i = find_char(s, '\n');
    if s.len() == 0 {
        Seq::empty()
    } else if 0 <= i < s.len() {
        seq![strip_cr(s.take(i))] + lines(s.skip(i + 1))
    } else {
        seq![s]
    }
}

/// The parts joined with `sep` between each two neighbours.
pub open spec fn join(parts: Seq<Seq<char>>, sep: Seq<char>) -> Seq<char>
    decreases parts.len(),
{
    if parts.len() == 0 {
        Seq::empty()
    } else if parts.len() == 1 {
        parts[0]
    } else {
        join(parts.drop_last(), sep) + sep + parts.last()
    }
}

/// `s` with each occurrence of `c` replaced by `with`.
pub open spec fn replace_char(s: Seq<char>, c: char, with: Seq<char>) -> Seq<char>
    decreases s.len(),
{
    if s.len() == 0 {
        s
    } else if s.last() == c {
        replace_char(s.drop_last(), c, with) + with
    } else {
        replace_char(s.drop_last(), c, with).push(s.last())
    }
}

/// Each part behind `prefix`.
pub open spec fn prefixed(parts: Seq<Seq<char>>, prefix: Seq<char>) -> Seq<Seq<char>> {
    Seq::new(parts.len(), |i: int| prefix + parts[i])
}

/// Each part before `suffix`.
pub open spec fn suffixed(parts: Seq<Seq<char>>, suffix: Seq<char>) -> Seq<Seq<char>> {
    Seq::new(parts.len(), |i: int| parts[i] + suffix)
}

/// `find_char` lies within the text, no earlier character is `c`, and the one found is.
pub proof fn lemma_find_char(s: Seq<char>, c: char)
    ensures
        0 <= find_char(s, c) <= s.len(),
        forall|k: int| 0 <= k < find_char(s, c) ==> s[k] != c,
        find_char(s, c) < s.len() ==> s[find_char(s, c)] == c,
    decreases s.len(),
{
    if s.len() > 0 && s[0] != c {
        lemma_find_char(s.drop_first(), c);
        assert forall|k: int| 0 <= k < find_char(s, c) implies s[k] != c by {
            if k > 0 {
                assert(s[k] == s.drop_first()[k - 1]);
            }
        }
    }
}

/// The first index with the properties of `find_char` is `find_char`.
pub proof fn lemma_find_char_is(s: Seq<char>, c: char, i: int)
    requires
        0 <= i <= s.len(),
        forall|k: int| 0 <= k < i ==> s[k] != c,
        i < s.len() ==> s[i] == c,
    ensures
        find_char(s, c) == i,
{
    lemma_find_char(s, c);
    let j = find_char(s, c);
    if j < i {
        assert(s[j] != c);
    } else if i < j {
        assert(s[i] != c);
    }
}

/// `first_non_whitespace` lies within the text, all before it is whitespace, and the
/// character found is not.
pub proof fn lemma_first_non_whitespace(s: Seq<char>)
    ensures
        0 <= first_non_whitespace(s) <= s.len(),
        forall|k: int| 0 <= k < first_non_whitespace(s) ==> is_whitespace(s[k]),
        first_non_whitespace(s) < s.len() ==> !is_whitespace(s[first_non_whitespace(s)]),
    decreases s.len(),
{
    if s.len() > 0 && is_whitespace(s[0]) {
        lemma_first_non_whitespace(s.drop_first());
        assert forall|k: int| 0 <= k < first_non_whitespace(s) implies is_whitespace(s[k]) by {
            if k > 0 {
                assert(s[k] == s.drop_first()[k - 1]);
            }
        }
    }
}

/// The first index with the properties of `first_non_whitespace` is it.
pub proof fn lemma_first_non_whitespace_is(s: Seq<char>, i: int)
    requires
        0 <= i <= s.len(),
        forall|k: int| 0 <= k < i ==> is_whitespace(s[k]),
        i < s.len() ==> !is_whitespace(s[i]),
    ensures
        first_non_whitespace(s) == i,
{
    lemma_first_non_whitespace(s);
    let j = first_non_whitespace(s);
    if j < i {
        assert(is_whitespace(s[j]));
    } else if i < j {
        assert(is_whitespace(s[i]));
    }
}

/// `trimmed_end` lies within the text, all from it on is whitespace, and the character
/// before it is not.
pub proof fn lemma_trimmed_end(s: Seq<char>)
    ensures
        0 <= trimmed_end(s) <= s.len(),
        forall|k: int| trimmed_end(s) <= k < s.len() ==> is_whitespace(s[k]),
        trimmed_end(s) > 0 ==> !is_whitespace(s[trimmed_end(s) - 1]),
    decreases s.len(),
{
    if s.len() > 0 && is_whitespace(s.last()) {
        lemma_trimmed_end(s.drop_last());
        assert forall|k: int| trimmed_end(s) <= k < s.len() implies is_whitespace(s[k]) by {
            if k < s.len() - 1 {
                assert(s[k] == s.drop_last()[k]);
            }
        }
    }
}

/// The last index with the properties of `trimmed_end` is it.
pub proof fn lemma_trimmed_end_is(s: Seq<char>, i: int)
    requires
        0 <= i <= s.len(),
        forall|k: int| i <= k < s.len() ==> is_whitespace(s[k]),
        i > 0 ==> !is_whitespace(s[i - 1]),
    ensures
        trimmed_end(s) == i,
{
    lemma_trimmed_end(s);
    let j = trimmed_end(s);
    if j < i {
        assert(is_whitespace(s[i - 1]));
    } else if i < j {
        assert(is_whitespace(s[j - 1]));
    }
}

/// Whether no character of `s` is `c`.
pub open spec fn lacks(s: Seq<char>, c: char) -> bool {
    forall|k: int| 0 <= k < s.len() ==> s[k] != c
}

/// There is at least one piece, and no piece holds the character that the text was
/// split at.
pub proof fn lemma_split_pieces(s: Seq<char>, c: char)
    ensures
        split(s, c).len() >= 1,
        forall|i: int| 0 <= i < split(s, c).len() ==> lacks(#[trigger] split(s, c)[i], c),
    decreases s.len(),
{
    lemma_find_char(s, c);
    let i = find_char(s, c);
    if i < s.len() {
        let rest = split(s.skip(i + 1), c);
        lemma_split_pieces(s.skip(i + 1), c);
        assert forall|k: int| 0 <= k < split(s, c).len() implies lacks(
            #[trigger] split(s, c)[k],
            c,
        ) by {
            if k == 0 {
                assert(split(s, c)[0] == s.take(i));
            } else {
                assert(split(s, c)[k] == rest[k - 1]);
            }
        }
    }
}

/// The parts joined are the first part, the separator and the other parts joined.
pub proof fn lemma_join_first(parts: Seq<Seq<char>>, sep: Seq<char>)
    requires
        parts.len() >= 2,
    ensures
        join(parts, sep) == parts[0] + sep + join(parts.drop_first(), sep),
    decreases parts.len(),
{
    let front = parts.drop_last();
    let back = parts.drop_first();
    assert(join(parts, sep) == join(front, sep) + sep + parts.last());
    if parts.len() == 2 {
        assert(join(front, sep) == parts[0]);
        assert(join(back, sep) == parts[1]);
    } else {
        lemma_join_first(front, sep);
        assert(back.drop_last() =~= front.drop_first());
        assert(back.last() == parts.last());
        assert(front[0] == parts[0]);
        assert(join(back, sep) == join(front.drop_first(), sep) + sep + parts.last());
        assert(parts[0] + sep + join(front.drop_first(), sep) + sep + parts.last() =~= parts[0]
            + sep + (join(front.drop_first(), sep) + sep + parts.last()));
    }
}

/// Parts that do not hold `c`, joined by `c` and split at `c`, are the parts again.
pub proof fn lemma_split_join(parts: Seq<Seq<char>>, c: char)
    requires
        parts.len() >= 1,
        forall|i: int| 0 <= i < parts.len() ==> lacks(#[trigger] parts[i], c),
    ensures
        split(join(parts, seq![c]), c) == parts,
    decreases parts.len(),
{
    let first = parts[0];
    assert(lacks(first, c));
    if parts.len() == 1 {
        lemma_find_char_is(first, c, first.len() as int);
        assert(split(first, c) =~= parts);
    } else {
        let others = parts.drop_first();
        let rest = join(others, seq![c]);
        let all = join(parts, seq![c]);
        lemma_join_first(parts, seq![c]);
        assert(all == first + seq![c] + rest);
        assert forall|k: int| 0 <= k < first.len() implies all[k] != c by {
            assert(all[k] == first[k]);
        }
        assert(all[first.len() as int] == c);
        lemma_find_char_is(all, c, first.len() as int);
        assert(all.take(first.len() as int) =~= first);
        assert(all.skip(first.len() as int + 1) =~= rest);
        assert forall|i: int| 0 <= i < others.len() implies lacks(#[trigger] others[i], c) by {
            assert(others[i] == parts[i + 1]);
        }
        lemma_split_join(others, c);
        assert(seq![first] + others =~= parts);
    }
}

/// The lines of parts joined by line feeds are the parts, but for an empty last part,
/// which is no line. The parts hold no line feed and end in no carriage return.
pub proof fn lemma_lines_of_join(parts: Seq<Seq<char>>)
    requires
        parts.len() >= 1,
        forall|i: int|
            0 <= i < parts.len() ==> lacks(#[trigger] parts[i], '\n') && strip_cr(parts[i])
                == parts[i],
    ensures
        lines(join(parts, seq!['\n'])) == if parts.last().len() == 0 {
            parts.drop_last()
        } else {
            parts
        },
    decreases parts.len(),
{
    let first = parts[0];
    assert(lacks(first, '\n') && strip_cr(first) == first);
    if parts.len() == 1 {
        if first.len() == 0 {
            assert(parts.drop_last() =~= Seq::<Seq<char>>::empty());
        } else {
            lemma_find_char_is(first, '\n', first.len() as int);
            assert(lines(first) =~= parts);
        }
    } else {
        let others = parts.drop_first();
        let rest = join(others, seq!['\n']);
        let all = join(parts, seq!['\n']);
        lemma_join_first(parts, seq!['\n']);
        assert(all == first + seq!['\n'] + rest);
        assert forall|k: int| 0 <= k < first.len() implies all[k] != '\n' by {
            assert(all[k] == first[k]);
        }
        assert(all[first.len() as int] == '\n');
        lemma_find_char_is(all, '\n', first.len() as int);
        assert(all.take(first.len() as int) =~= first);
        assert(all.skip(first.len() as int + 1) =~= rest);
        assert forall|i: int| 0 <= i < others.len() implies lacks(#[trigger] others[i], '\n')
            && strip_cr(others[i]) == others[i] by {
            assert(others[i] == parts[i + 1]);
        }
        lemma_lines_of_join(others);
        assert(others.last() == parts.last());
        assert(lines(all) == seq![first] + lines(rest));
        if parts.last().len() == 0 {
            assert(seq![first] + others.drop_last() =~= parts.drop_last());
        } else {
            assert(seq![first] + others =~= parts);
        }
    }
}

/// A text without trailing whitespace ends in no carriage return.
pub proof fn lemma_trimmed_has_no_cr(s: Seq<char>)
    requires
        trim_end(s) == s,
    ensures
        strip_cr(s) == s,
        s.len() > 0 ==> !is_whitespace(s.last()),
{
    lemma_trimmed_end(s);
    if s.len() > 0 {
        assert(trim_end(s).len() == trimmed_end(s));
    }
}

/// A text that ends in a character other than whitespace has no trailing whitespace.
pub proof fn lemma_ends_in_text(s: Seq<char>)
    requires
        s.len() > 0 ==> !is_whitespace(s.last()),
    ensures
        trim_end(s) == s,
{
    lemma_trimmed_end_is(s, s.len() as int);
    assert(s.take(s.len() as int) =~= s);
}

/// Trailing whitespace is removed once: a text without it has none to lose.
pub proof fn lemma_trim_end_twice(s: Seq<char>)
    ensures
        trim_end(trim_end(s)) == trim_end(s),
{
    lemma_trimmed_end(s);
    let e = trimmed_end(s);
    let t = s.take(e);
    lemma_trimmed_end_is(t, e);
    assert(t.take(e) =~= t);
}

/// Appends one character to a string.
///
/// Calls `String::push` of the standard library, which is documented to append the
/// given character to the end of the string; that is all the contract claims.
#[verifier::external_body]
pub(crate) fn push_char(s: &mut String, c: char)
    ensures
        final(s)@ == old(s)@.push(c),
{
    s.push(c);
}

/// The characters of a string.
pub fn to_chars(s: &str) -> (v: Vec<char>)
    ensures
        v@ == s@,
{
    broadcast use vstd::string::group_string_axioms;

    let mut v: Vec<char> = Vec::new();
    for c in it: s.chars()
        invariant
            it.seq() == s@,
            v@ == it.seq().take(it.index()),
    {
        v.push(c);
        proof {
            assert(v@ =~= it.seq().take(it.index() + 1));
        }
    }
    proof {
        assert(v@ =~= s@);
    }
    v
}

/// The string made of the characters `chars[from..to]`.
pub fn from_chars(chars: &Vec<char>, from: usize, to: usize) -> (r: String)
    requires
        from <= to <= chars@.len(),
    ensures
        r@ == chars@.subrange(from as int, to as int),
{
    let mut r = String::new();
    let mut i: usize = from;
    while i < to
        invariant
            from <= i <= to <= chars@.len(),
            r@ == chars@.subrange(from as int, i as int),
        decreases to - i,
    {
        push_char(&mut r, chars[i]);
        proof {
            assert(r@ =~= chars@.subrange(from as int, i + 1));
        }
        i = i + 1;
    }
    r
}

/// Whether `c` is whitespace.
pub fn is_whitespace_char(c: char) -> (b: bool)
    ensures
        b == is_whitespace(c),
{
    let n: u32 = c as u32;
    (0x09 <= n && n <= 0x0d) || n == 0x20 || n == 0x85 || n == 0xa0 || n == 0x1680 || (0x2000 <= n
        && n <= 0x200a) || n == 0x2028 || n == 0x2029 || n == 0x202f || n == 0x205f || n == 0x3000
}

/// Whether two strings hold the same characters.
pub fn str_eq(a: &str, b: &str) -> (r: bool)
    ensures
        r == (a@ == b@),
{
    let x = to_chars(a);
    let y = to_chars(b);
    if x.len() != y.len() {
        return false;
    }
    let mut i: usize = 0;
    while i < x.len()
        invariant
            i <= x@.len(),
            x@.len() == y@.len(),
            x@ == a@,
            y@ == b@,
            forall|k: int| 0 <= k < i ==> x@[k] == y@[k],
        decreases x.len() - i,
    {
        if x[i] != y[i] {
            return false;
        }
        i = i + 1;
    }
    proof {
        assert(x@ =~= y@);
    }
    true
}

/// Whether `s` begins with `prefix`.
pub fn starts_with(s: &str, prefix: &str) -> (r: bool)
    ensures
        r == prefix@.is_prefix_of(s@),
{
    let x = to_chars(s);
    let y = to_chars(prefix);
    if y.len() > x.len() {
        return false;
    }
    let mut i: usize = 0;
    while i < y.len()
        invariant
            i <= y@.len() <= x@.len(),
            x@ == s@,
            y@ == prefix@,
            forall|k: int| 0 <= k < i ==> x@[k] == y@[k],
        decreases y.len() - i,
    {
        if x[i] != y[i] {
            proof {
                assert(x@.subrange(0, y@.len() as int)[i as int] == x@[i as int]);
            }
            return false;
        }
        i = i + 1;
    }
    proof {
        assert(y@ =~= x@.subrange(0, y@.len() as int));
    }
    true
}

/// `a` followed by `b`.
pub fn concat2(a: &str, b: &str) -> (r: String)
    ensures
        r@ == a@ + b@,
{
    let mut r = String::from_str(a);
    r.append(b);
    r
}

/// `a`, `b` and `c` in a row.
pub fn concat3(a: &str, b: &str, c: &str) -> (r: String)
    ensures
        r@ == a@ + b@ + c@,
{
    let mut r = String::from_str(a);
    r.append(b);
    r.append(c);
    r
}

/// `s` without its leading and trailing whitespace.
pub fn trim_str(s: &str) -> (r: String)
    ensures
        r@ == trim(s@),
{
    let chars = to_chars(s);
    let n = chars.len();
    let mut start: usize = 0;
    while start < n && is_whitespace_char(chars[start])
        invariant
            start <= n == chars@.len(),
            forall|k: int| 0 <= k < start ==> is_whitespace(chars@[k]),
        decreases n - start,
    {
        start = start + 1;
    }
    let mut end: usize = n;
    while end > start && is_whitespace_char(chars[end - 1])
        invariant
            start <= end <= n == chars@.len(),
            forall|k: int| end <= k < n ==> is_whitespace(chars@[k]),
        decreases end,
    {
        end = end - 1;
    }
    proof {
        lemma_first_non_whitespace_is(chars@, start as int);
        let t = chars@.skip(start as int);
        assert(t == trim_start(s@));
        assert forall|k: int| end - start <= k < t.len() implies is_whitespace(t[k]) by {
            assert(t[k] == chars@[k + start]);
        }
        if end > start {
            assert(t[end - start - 1] == chars@[end - 1]);
        }
        lemma_trimmed_end_is(t, end - start);
        assert(t.take(end - start) =~= chars@.subrange(start as int, end as int));
    }
    from_chars(&chars, start, end)
}

/// `s` without its trailing whitespace.
pub fn trim_end_str(s: &str) -> (r: String)
    ensures
        r@ == trim_end(s@),
{
    let chars = to_chars(s);
    let n = chars.len();
    let mut end: usize = n;
    while end > 0 && is_whitespace_char(chars[end - 1])
        invariant
            end <= n == chars@.len(),
            forall|k: int| end <= k < n ==> is_whitespace(chars@[k]),
        decreases end,
    {
        end = end - 1;
    }
    proof {
        lemma_trimmed_end_is(chars@, end as int);
        assert(chars@.take(end as int) =~= chars@.subrange(0, end as int));
    }
    from_chars(&chars, 0, end)
}

/// The pieces of `s` between occurrences of `c`.
pub fn split_on(s: &str, c: char) -> (r: Vec<String>)
    ensures
        strs(r@) == split(s@, c),
{
    let chars = to_chars(s);
    let n = chars.len();
    let mut out: Vec<String> = Vec::new();
    let mut start: usize = 0;
    let mut i: usize = 0;
    proof {
        assert(s@.skip(0) =~= s@);
        assert(strs(out@) =~= Seq::<Seq<char>>::empty());
        assert(Seq::<Seq<char>>::empty() + split(s@, c) =~= split(s@, c));
    }
    while i < n
        invariant
            start <= i <= n == chars@.len(),
            chars@ == s@,
            forall|k: int| start <= k < i ==> chars@[k] != c,
            split(s@, c) == strs(out@) + split(s@.skip(start as int), c),
        decreases n - i,
    {
        if chars[i] == c {
            let piece = from_chars(&chars, start, i);
            proof {
                let rest = s@.skip(start as int);
                assert forall|k: int| 0 <= k < i - start implies rest[k] != c by {
                    assert(rest[k] == chars@[k + start]);
                }
                assert(rest[i - start] == chars@[i as int]);
                lemma_find_char_is(rest, c, i - start);
                assert(rest.take(i - start) =~= chars@.subrange(start as int, i as int));
                assert(rest.skip(i - start + 1) =~= s@.skip(i + 1));
                assert(strs(out@.push(piece)) =~= strs(out@) + seq![piece@]);
                assert(strs(out@) + (seq![piece@] + split(s@.skip(i + 1), c)) =~= strs(out@) + seq![
                    piece@,
                ] + split(s@.skip(i + 1), c));
            }
            out.push(piece);
            start = i + 1;
        }
        i = i + 1;
    }
    let piece = from_chars(&chars, start, n);
    proof {
        let rest = s@.skip(start as int);
        assert forall|k: int| 0 <= k < rest.len() implies rest[k] != c by {
            assert(rest[k] == chars@[k + start]);
        }
        lemma_find_char_is(rest, c, rest.len() as int);
        assert(rest =~= chars@.subrange(start as int, n as int));
        assert(strs(out@.push(piece)) =~= strs(out@) + seq![piece@]);
    }
    out.push(piece);
    out
}

/// The lines of `s`.
pub fn split_lines(s: &str) -> (r: Vec<String>)
    ensures
        strs(r@) == lines(s@),
{
    let chars = to_chars(s);
    let n = chars.len();
    let mut out: Vec<String> = Vec::new();
    let mut start: usize = 0;
    let mut i: usize = 0;
    proof {
        assert(s@.skip(0) =~= s@);
        assert(strs(out@) =~= Seq::<Seq<char>>::empty());
        assert(Seq::<Seq<char>>::empty() + lines(s@) =~= lines(s@));
    }
    while i < n
        invariant
            start <= i <= n == chars@.len(),
            chars@ == s@,
            forall|k: int| start <= k < i ==> chars@[k] != '\n',
            lines(s@) == strs(out@) + lines(s@.skip(start as int)),
        decreases n - i,
    {
        if chars[i] == '\n' {
            let end: usize = if i > start && chars[i - 1] == '\r' {
                i - 1
            } else {
                i
            };
            let piece = from_chars(&chars, start, end);
            proof {
                let rest = s@.skip(start as int);
                assert forall|k: int| 0 <= k < i - start implies rest[k] != '\n' by {
                    assert(rest[k] == chars@[k + start]);
                }
                assert(rest[i - start] == chars@[i as int]);
                lemma_find_char_is(rest, '\n', i - start);
                let line = rest.take(i - start);
                assert(line =~= chars@.subrange(start as int, i as int));
                assert(strip_cr(line) =~= piece@);
                assert(rest.skip(i - start + 1) =~= s@.skip(i + 1));
                assert(strs(out@.push(piece)) =~= strs(out@) + seq![piece@]);
                assert(strs(out@) + (seq![piece@] + lines(s@.skip(i + 1))) =~= strs(out@) + seq![
                    piece@,
                ] + lines(s@.skip(i + 1)));
            }
            out.push(piece);
            start = i + 1;
        }
        i = i + 1;
    }
    if start < n {
        let piece = from_chars(&chars, start, n);
        proof {
            let rest = s@.skip(start as int);
            assert forall|k: int| 0 <= k < rest.len() implies rest[k] != '\n' by {
                assert(rest[k] == chars@[k + start]);
            }
            lemma_find_char_is(rest, '\n', rest.len() as int);
            assert(rest =~= chars@.subrange(start as int, n as int));
            assert(strs(out@.push(piece)) =~= strs(out@) + seq![piece@]);
        }
        out.push(piece);
    } else {
        proof {
            assert(s@.skip(start as int).len() == 0);
            assert(strs(out@) + Seq::<Seq<char>>::empty() =~= strs(out@));
        }
    }
    out
}

/// The parts joined with `sep` between each two neighbours.
pub fn join_strings(parts: &Vec<String>, sep: &str) -> (r: String)
    ensures
        r@ == join(strs(parts@), sep@),
{
    let mut r = String::new();
    let mut i: usize = 0;
    while i < parts.len()
        invariant
            i <= parts@.len(),
            r@ == join(strs(parts@).take(i as int), sep@),
        decreases parts.len() - i,
    {
        proof {
            let next = strs(parts@).take(i + 1);
            assert(next.drop_last() =~= strs(parts@).take(i as int));
            assert(next.last() == parts@[i as int]@);
            if i == 0 {
                assert(Seq::<char>::empty() + parts@[i as int]@ =~= parts@[i as int]@);
            }
        }
        if i > 0 {
            r.append(sep);
        }
        r.append(parts[i].as_str());
        i = i + 1;
    }
    proof {
        assert(strs(parts@).take(parts@.len() as int) =~= strs(parts@));
    }
    r
}

/// `s` with each occurrence of `c` replaced by `with`.
pub fn replace_char_str(s: &str, c: char, with: &str) -> (r: String)
    ensures
        r@ == replace_char(s@, c, with@),
{
    let chars = to_chars(s);
    let mut r = String::new();
    let mut i: usize = 0;
    while i < chars.len()
        invariant
            i <= chars@.len(),
            chars@ == s@,
            r@ == replace_char(s@.take(i as int), c, with@),
        decreases chars.len() - i,
    {
        proof {
            let next = s@.take(i + 1);
            assert(next.drop_last() =~= s@.take(i as int));
            assert(next.last() == chars@[i as int]);
        }
        if chars[i] == c {
            r.append(with);
        } else {
            push_char(&mut r, chars[i]);
        }
        i = i + 1;
    }
    proof {
        assert(s@.take(chars@.len() as int) =~= s@);
    }
    r
}

/// Each part behind `prefix`.
pub fn with_prefix(parts: &Vec<String>, prefix: &str) -> (r: Vec<String>)
    ensures
        strs(r@) == prefixed(strs(parts@), prefix@),
{
    let mut out: Vec<String> = Vec::new();
    let mut i: usize = 0;
    while i < parts.len()
        invariant
            i <= parts@.len(),
            out@.len() == i,
            forall|k: int| 0 <= k < i ==> (#[trigger] out@[k])@ == prefix@ + parts@[k]@,
        decreases parts.len() - i,
    {
        out.push(concat2(prefix, parts[i].as_str()));
        i = i + 1;
    }
    proof {
        assert(strs(out@) =~= prefixed(strs(parts@), prefix@));
    }
    out
}

/// Each part before `suffix`.
pub fn with_suffix(parts: &Vec<String>, suffix: &str) -> (r: Vec<String>)
    ensures
        strs(r@) == suffixed(strs(parts@), suffix@),
{
    let mut out: Vec<String> = Vec::new();
    let mut i: usize = 0;
    while i < parts.len()
        invariant
            i <= parts@.len(),
            out@.len() == i,
            forall|k: int| 0 <= k < i ==> (#[trigger] out@[k])@ == parts@[k]@ + suffix@,
        decreases parts.len() - i,
    {
        out.push(concat2(parts[i].as_str(), suffix));
        i = i + 1;
    }
    proof {
        assert(strs(out@) =~= suffixed(strs(parts@), suffix@));
    }
    out
}

} // verus!
