//! Documentation comments and indentation of generated text.
use crate::text::{
    concat2, concat3, find_char, first_non_whitespace, from_chars, is_whitespace,
    is_whitespace_char, join, join_strings, lacks, lemma_ends_in_text, lemma_find_char,
    lemma_first_non_whitespace, lemma_first_non_whitespace_is, lemma_join_first,
    lemma_lines_of_join, lemma_split_join, lemma_split_pieces, lemma_trim_end_twice,
    lemma_trimmed_end, lemma_trimmed_end_is, lemma_trimmed_has_no_cr, lines, split, split_lines,
    split_on, strip_cr, strs, to_chars, trim, trim_end, trim_end_str, trim_str, trimmed_end,
};
use vstd::prelude::*;
use vstd::string::*;

verus! {

/// The view of an optional string.
pub open spec fn opt_str(o: Option<String>) -> Option<Seq<char>> {
    match o {
        Some(s) => Some(s@),
        None => None,
    }
}

/// The text, or the empty text where there is none.
pub open spec fn text_or_empty(o: Option<Seq<char>>) -> Seq<char> {
    match o {
        Some(t) => t,
        None => Seq::empty(),
    }
}

/// A line shifted right by two spaces; an empty line stays empty.
pub open spec fn indent_line(line: Seq<char>) -> Seq<char> {
    if line.len() == 0 {
        line
    } else {
        "  "@ + line
    }
}

/// Each line shifted right by two spaces.
pub open spec fn indent_lines(ls: Seq<Seq<char>>) -> Seq<Seq<char>> {
    Seq::new(ls.len(), |i: int| indent_line(ls[i]))
}

/// The text with each of its non-empty lines shifted right by two spaces, the lines
/// joined by line feeds.
pub open spec fn indent_text(text: Seq<char>) -> Seq<char> {
    join(indent_lines(lines(text)), "\n"@)
}

/// The least number of leading whitespace characters over the lines that hold a
/// character other than whitespace; `None` where no line holds one.
pub open spec fn min_indent_opt(ls: Seq<Seq<char>>) -> Option<nat>
    decreases ls.len(),
{
    if ls.len() == 0 {
        None
    } else {
        let rest = min_indent_opt(ls.drop_last());
        let p = first_non_whitespace(ls.last());
        if p < ls.last().len() {
            match rest {
                Some(m) => Some(if p < m { p as nat } else { m }),
                None => Some(p as nat),
            }
        } else {
            rest
        }
    }
}

/// The common indentation of the lines: `min_indent_opt`, or 0 where that is `None`.
pub open spec fn min_indent(ls: Seq<Seq<char>>) -> nat {
    match min_indent_opt(ls) {
        Some(m) => m,
        None => 0,
    }
}

/// A line without its first `n` characters and without trailing whitespace. A line of
/// at most `n` characters only loses its trailing whitespace.
pub open spec fn dedent_line(line: Seq<char>, n: nat) -> Seq<char> {
    if line.len() > n {
        trim_end(line.skip(n as int))
    } else {
        trim_end(line)
    }
}

/// Each line dedented by `n`.
pub open spec fn dedent_lines(ls: Seq<Seq<char>>, n: nat) -> Seq<Seq<char>> {
    Seq::new(ls.len(), |i: int| dedent_line(ls[i], n))
}

/// The text with the common indentation of its lines and the trailing whitespace of
/// each line removed. Lines are the pieces between line feeds.
pub open spec fn trim_lines_text(text: Seq<char>) -> Seq<char> {
    let ls = split(text, '\n');
    join(dedent_lines(ls, min_indent(ls)), "\n"@)
}

/// Each line behind the marker that aligns it inside a block comment.
pub open spec fn comment_lines(ls: Seq<Seq<char>>) -> Seq<Seq<char>> {
    Seq::new(ls.len(), |i: int| " * "@ + ls[i])
}

/// The documentation comment for `text`: nothing for an empty text, one compact line
/// for a text of one line, and a block with one marked line per line otherwise.
pub open spec fn doc_comment(text: Seq<char>) -> Seq<char> {
    if text.len() == 0 {
        Seq::empty()
    } else if lines(text).len() == 1 {
        "/** "@ + trim(text) + " */\n"@
    } else {
        "/**\n"@ + join(comment_lines(lines(trim_lines_text(text))), "\n"@) + "\n */\n"@
    }
}

/// The documentation comment for an optional text: nothing where it is absent.
pub open spec fn doc_comment_opt(text: Option<Seq<char>>) -> Seq<char> {
    match text {
        Some(t) => doc_comment(t),
        None => Seq::empty(),
    }
}

/// The documentation comment for an optional text.
pub fn gen_doc_string_opt(string: &Option<String>) -> (r: String)
    ensures
        r@ == doc_comment_opt(opt_str(*string)),
{
    match string {
        Some(s) => gen_doc_string(s.as_str()),
        None => String::new(),
    }
}

/// The index of the first character of `s` that is not whitespace, or its length.
fn leading_whitespace(chars: &Vec<char>) -> (r: usize)
    ensures
        r == first_non_whitespace(chars@),
{
    let mut i: usize = 0;
    while i < chars.len() && is_whitespace_char(chars[i])
        invariant
            i <= chars@.len(),
            forall|k: int| 0 <= k < i ==> is_whitespace(chars@[k]),
        decreases chars.len() - i,
    {
        i = i + 1;
    }
    proof {
        lemma_first_non_whitespace_is(chars@, i as int);
    }
    i
}

/// The common indentation of the lines.
fn common_indent(ls: &Vec<String>) -> (r: usize)
    ensures
        r == min_indent(strs(ls@)),
{
    let mut best: Option<usize> = None;
    let mut i: usize = 0;
    while i < ls.len()
        invariant
            i <= ls@.len(),
            match best {
                Some(m) => min_indent_opt(strs(ls@).take(i as int)) == Some(m as nat),
                None => min_indent_opt(strs(ls@).take(i as int)) is None,
            },
        decreases ls.len() - i,
    {
        let chars = to_chars(ls[i].as_str());
        let p = leading_whitespace(&chars);
        proof {
            let next = strs(ls@).take(i + 1);
            assert(next.drop_last() =~= strs(ls@).take(i as int));
            assert(next.last() == ls@[i as int]@);
        }
        if p < chars.len() {
            best =
            match best {
                Some(m) => Some(if p < m {
                    p
                } else {
                    m
                }),
                None => Some(p),
            };
        }
        i = i + 1;
    }
    proof {
        assert(strs(ls@).take(ls@.len() as int) =~= strs(ls@));
    }
    match best {
        Some(m) => m,
        None => 0,
    }
}

/// The text with the common indentation of its lines and the trailing whitespace of
/// each line removed.
pub fn trim_lines(string: &str) -> (r: String)
    ensures
        r@ == trim_lines_text(string@),
{
    let ls = split_on(string, '\n');
    let n = common_indent(&ls);
    let mut out: Vec<String> = Vec::new();
    let mut i: usize = 0;
    while i < ls.len()
        invariant
            i <= ls@.len(),
            out@.len() == i,
            forall|k: int| 0 <= k < i ==> (#[trigger] out@[k])@ == dedent_line(ls@[k]@, n as nat),
        decreases ls.len() - i,
    {
        let chars = to_chars(ls[i].as_str());
        let line = if chars.len() > n {
            let rest = from_chars(&chars, n, chars.len());
            proof {
                assert(rest@ =~= chars@.skip(n as int));
            }
            trim_end_str(rest.as_str())
        } else {
            trim_end_str(ls[i].as_str())
        };
        out.push(line);
        i = i + 1;
    }
    proof {
        assert(strs(out@) =~= dedent_lines(strs(ls@), n as nat));
    }
    join_strings(&out, "\n")
}

/// The documentation comment for `string`.
pub fn gen_doc_string(string: &str) -> (r: String)
    ensures
        r@ == doc_comment(string@),
{
    if string.is_empty() {
        return String::new();
    }
    let ls = split_lines(string);
    if ls.len() == 1 {
        let body = trim_str(string);
        concat3("/** ", body.as_str(), " */\n")
    } else {
        let trimmed = trim_lines(string);
        let tl = split_lines(trimmed.as_str());
        let mut out: Vec<String> = Vec::new();
        let mut i: usize = 0;
        while i < tl.len()
            invariant
                i <= tl@.len(),
                out@.len() == i,
                forall|k: int| 0 <= k < i ==> (#[trigger] out@[k])@ == " * "@ + tl@[k]@,
            decreases tl.len() - i,
        {
            out.push(concat2(" * ", tl[i].as_str()));
            i = i + 1;
        }
        proof {
            assert(strs(out@) =~= comment_lines(strs(tl@)));
        }
        let body = join_strings(&out, "\n");
        concat3("/**\n", body.as_str(), "\n */\n")
    }
}

/// The text with each of its non-empty lines shifted right by two spaces.
pub fn indent(text: &str) -> (r: String)
    ensures
        r@ == indent_text(text@),
{
    let ls = split_lines(text);
    let mut out: Vec<String> = Vec::new();
    let mut i: usize = 0;
    while i < ls.len()
        invariant
            i <= ls@.len(),
            out@.len() == i,
            forall|k: int| 0 <= k < i ==> (#[trigger] out@[k])@ == indent_line(ls@[k]@),
        decreases ls.len() - i,
    {
        let line = if ls[i].as_str().is_empty() {
            String::new()
        } else {
            concat2("  ", ls[i].as_str())
        };
        proof {
            assert(line@ =~= indent_line(ls@[i as int]@));
        }
        out.push(line);
        i = i + 1;
    }
    proof {
        assert(strs(out@) =~= indent_lines(strs(ls@)));
    }
    join_strings(&out, "\n")
}

/// Whether a line holds a character other than whitespace.
pub open spec fn has_text(line: Seq<char>) -> bool {
    first_non_whitespace(line) < line.len()
}

/// The common indentation is that of some line with text, and no line with text has
/// less; there is none where no line has text.
pub proof fn lemma_min_indent_opt(ls: Seq<Seq<char>>)
    ensures
        match min_indent_opt(ls) {
            Some(m) => {
                &&& exists|i: int|
                    0 <= i < ls.len() && has_text(#[trigger] ls[i]) && first_non_whitespace(ls[i])
                        == m
                &&& forall|i: int|
                    0 <= i < ls.len() && has_text(#[trigger] ls[i]) ==> m <= first_non_whitespace(
                        ls[i],
                    )
            },
            None => forall|i: int| 0 <= i < ls.len() ==> !has_text(#[trigger] ls[i]),
        },
    decreases ls.len(),
{
    if ls.len() > 0 {
        let front = ls.drop_last();
        let last = ls.last();
        lemma_min_indent_opt(front);
        lemma_first_non_whitespace(last);
        assert forall|i: int| 0 <= i < front.len() implies front[i] == ls[i] by {}
        match min_indent_opt(ls) {
            Some(m) => {
                if has_text(last) && first_non_whitespace(last) == m {
                    assert(has_text(ls[ls.len() - 1]));
                } else {
                    let i = choose|i: int|
                        0 <= i < front.len() && has_text(#[trigger] front[i])
                            && first_non_whitespace(front[i]) == m;
                    assert(has_text(ls[i]) && first_non_whitespace(ls[i]) == m);
                }
                assert forall|i: int| 0 <= i < ls.len() && has_text(#[trigger] ls[i]) implies m
                    <= first_non_whitespace(ls[i]) by {
                    if i < front.len() {
                        assert(has_text(front[i]));
                    }
                }
            },
            None => {
                assert forall|i: int| 0 <= i < ls.len() implies !has_text(#[trigger] ls[i]) by {
                    if i < front.len() {
                        assert(!has_text(front[i]));
                    }
                }
            },
        }
    }
}

/// A dedented line has no trailing whitespace. Where the line has text and is
/// indented by at least `n`, the dedented line has text and is indented by `n` less;
/// where the line has no text, the dedented line is empty. It holds no character that
/// the line does not hold.
pub proof fn lemma_dedent_line(line: Seq<char>, n: nat, c: char)
    requires
        has_text(line) ==> n <= first_non_whitespace(line),
    ensures
        trim_end(dedent_line(line, n)) == dedent_line(line, n),
        has_text(line) ==> has_text(dedent_line(line, n)) && first_non_whitespace(
            dedent_line(line, n),
        ) == first_non_whitespace(line) - n,
        !has_text(line) ==> dedent_line(line, n).len() == 0,
        lacks(line, c) ==> lacks(dedent_line(line, n), c),
{
    lemma_first_non_whitespace(line);
    let p = first_non_whitespace(line);
    let rest = if line.len() > n {
        line.skip(n as int)
    } else {
        line
    };
    let shift: int = if line.len() > n {
        n as int
    } else {
        0
    };
    assert forall|k: int| 0 <= k < rest.len() implies rest[k] == line[k + shift] by {}
    lemma_trimmed_end(rest);
    lemma_trim_end_twice(rest);
    let e = trimmed_end(rest);
    let d = rest.take(e);
    assert(d == dedent_line(line, n));
    if has_text(line) {
        assert(rest[p - n] == line[p]);
        assert(e > p - n) by {
            if e <= p - n {
                assert(is_whitespace(rest[p - n]));
            }
        }
        assert forall|k: int| 0 <= k < p - n implies is_whitespace(d[k]) by {
            assert(d[k] == line[k + n]);
        }
        assert(d[p - n] == line[p]);
        lemma_first_non_whitespace_is(d, p - n);
    } else {
        assert forall|k: int| 0 <= k < rest.len() implies is_whitespace(rest[k]) by {
            assert(rest[k] == line[k + shift]);
        }
        lemma_trimmed_end_is(rest, 0);
    }
    if lacks(line, c) {
        assert forall|k: int| 0 <= k < d.len() implies d[k] != c by {
            assert(d[k] == line[k + shift]);
        }
    }
}

/// Removing the common indentation and the trailing whitespace of the lines of a text
/// that has lost them already changes nothing.
pub proof fn lemma_trim_lines_twice(text: Seq<char>)
    ensures
        trim_lines_text(trim_lines_text(text)) == trim_lines_text(text),
{
    reveal_strlit("\n");
    assert("\n"@ =~= seq!['\n']);
    let ls = split(text, '\n');
    let n = min_indent(ls);
    let ds = dedent_lines(ls, n);
    let once = join(ds, "\n"@);
    lemma_split_pieces(text, '\n');
    lemma_min_indent_opt(ls);
    assert forall|i: int| 0 <= i < ls.len() implies {
        &&& lacks(#[trigger] ds[i], '\n')
        &&& trim_end(ds[i]) == ds[i]
        &&& (has_text(ls[i]) ==> has_text(ds[i]) && first_non_whitespace(ds[i])
            == first_non_whitespace(ls[i]) - n)
        &&& (!has_text(ls[i]) ==> ds[i].len() == 0)
    } by {
        assert(lacks(ls[i], '\n'));
        lemma_dedent_line(ls[i], n, '\n');
    }
    lemma_split_join(ds, '\n');
    assert(split(once, '\n') == ds);
    lemma_min_indent_opt(ds);
    assert(min_indent(ds) == 0) by {
        match min_indent_opt(ds) {
            Some(m) => {
                let j = choose|j: int|
                    0 <= j < ds.len() && has_text(#[trigger] ds[j]) && first_non_whitespace(ds[j])
                        == m;
                assert(has_text(ls[j])) by {
                    if !has_text(ls[j]) {
                        lemma_first_non_whitespace(ds[j]);
                    }
                }
                let i = choose|i: int|
                    0 <= i < ls.len() && has_text(#[trigger] ls[i]) && first_non_whitespace(ls[i])
                        == n;
                assert(has_text(ds[i]) && first_non_whitespace(ds[i]) == 0);
            },
            None => {},
        }
    }
    assert forall|i: int| 0 <= i < ds.len() implies dedent_line(#[trigger] ds[i], 0) == ds[i] by {
        assert(ds[i].skip(0) =~= ds[i]);
    }
    assert(dedent_lines(ds, 0) =~= ds);
}

/// Whether the lines are such as a comment keeps: none is empty, none holds a line
/// feed, none has trailing whitespace.
pub open spec fn kept_lines(ls: Seq<Seq<char>>) -> bool {
    forall|k: int|
        0 <= k < ls.len() ==> (#[trigger] ls[k]).len() > 0 && lacks(ls[k], '\n') && trim_end(ls[k])
            == ls[k]
}

/// The lines of the block comment that holds the given lines.
pub open spec fn block_lines(ls: Seq<Seq<char>>) -> Seq<Seq<char>> {
    seq!["/**"@] + comment_lines(ls) + seq![" */"@]
}

/// The block comment that holds the given lines.
pub open spec fn block_text(ls: Seq<Seq<char>>) -> Seq<char> {
    "/**\n"@ + join(comment_lines(ls), "\n"@) + "\n */\n"@
}

/// A text whose lines have no trailing whitespace and no common indentation is what
/// `trim_lines_text` gives for it.
pub proof fn lemma_trim_lines_keeps(pieces: Seq<Seq<char>>)
    requires
        pieces.len() >= 1,
        forall|i: int|
            0 <= i < pieces.len() ==> lacks(#[trigger] pieces[i], '\n') && trim_end(pieces[i])
                == pieces[i],
        min_indent(pieces) == 0,
    ensures
        trim_lines_text(join(pieces, "\n"@)) == join(pieces, "\n"@),
{
    reveal_strlit("\n");
    assert("\n"@ =~= seq!['\n']);
    lemma_split_join(pieces, '\n');
    assert forall|i: int| 0 <= i < pieces.len() implies dedent_line(#[trigger] pieces[i], 0)
        == pieces[i] by {
        assert(pieces[i].skip(0) =~= pieces[i]);
    }
    assert(dedent_lines(pieces, 0) =~= pieces);
}

/// The block comment that holds kept lines: its lines are the opening, each line
/// behind its marker and the closing; they are kept lines too; and the block has no
/// indentation or trailing whitespace to lose.
pub proof fn lemma_block(ls: Seq<Seq<char>>)
    requires
        ls.len() >= 1,
        kept_lines(ls),
    ensures
        block_text(ls).len() > 0,
        block_lines(ls).len() == ls.len() + 2,
        lines(block_text(ls)) == block_lines(ls),
        trim_lines_text(block_text(ls)) == block_text(ls),
        kept_lines(block_lines(ls)),
{
    reveal_strlit("\n");
    reveal_strlit("/**");
    reveal_strlit(" */");
    reveal_strlit(" * ");
    reveal_strlit("/**\n");
    reveal_strlit("\n */\n");
    let nl = seq!['\n'];
    assert("\n"@ =~= nl);
    let cl = comment_lines(ls);
    let front = seq!["/**"@] + cl;
    let block = block_lines(ls);
    let all = block.push(Seq::<char>::empty());
    assert(all.drop_last() =~= block);
    assert(block.drop_last() =~= front);
    assert(front.drop_first() =~= cl);
    assert(join(all, nl) == join(block, nl) + nl + Seq::<char>::empty());
    assert(join(block, nl) == join(front, nl) + nl + " */"@);
    lemma_join_first(front, nl);
    assert(join(front, nl) == "/**"@ + nl + join(cl, nl));
    assert("/**\n"@ =~= "/**"@ + nl);
    assert("\n */\n"@ =~= nl + " */"@ + nl);
    assert(join(all, nl) =~= block_text(ls));
    assert forall|k: int| 0 <= k < all.len() implies lacks(#[trigger] all[k], '\n') && trim_end(
        all[k],
    ) == all[k] && strip_cr(all[k]) == all[k] && (k < block.len() ==> all[k].len() > 0) by {
        if k == 0 {
            assert(all[k] == "/**"@);
        } else if k <= ls.len() {
            let line = ls[k - 1];
            assert(all[k] == " * "@ + line);
            lemma_trimmed_has_no_cr(line);
            assert(all[k].last() == line.last());
            assert forall|j: int| 0 <= j < all[k].len() implies all[k][j] != '\n' by {
                if j >= 3 {
                    assert(all[k][j] == line[j - 3]);
                }
            }
        } else if k == ls.len() + 1 {
            assert(all[k] == " */"@);
        } else {
            assert(all[k] =~= Seq::<char>::empty());
        }
        lemma_ends_in_text(all[k]);
        lemma_trimmed_has_no_cr(all[k]);
    }
    lemma_lines_of_join(all);
    assert(min_indent(all) == 0) by {
        lemma_min_indent_opt(all);
        assert(all[0] == "/**"@);
        assert(has_text(all[0]) && first_non_whitespace(all[0]) == 0);
    }
    lemma_trim_lines_keeps(all);
    assert forall|k: int| 0 <= k < block.len() implies (#[trigger] block[k]).len() > 0 && lacks(
        block[k],
        '\n',
    ) && trim_end(block[k]) == block[k] by {
        assert(block[k] == all[k]);
    }
}

/// The comment for the comment of a text of several lines keeps every line of that
/// comment: its lines are the opening, each line of the first comment behind a
/// marker, and the closing. This holds where no dedented line of the text is empty;
/// for an empty line the marker of the first comment ends in a blank, which the
/// second comment drops.
pub proof fn lemma_comment_of_comment(text: Seq<char>)
    requires
        text.len() > 0,
        lines(text).len() != 1,
        forall|k: int|
            0 <= k < lines(trim_lines_text(text)).len() ==> (#[trigger] lines(
                trim_lines_text(text),
            )[k]).len() > 0,
    ensures
        doc_comment(text) == block_text(lines(trim_lines_text(text))),
        lines(doc_comment(text)) == block_lines(lines(trim_lines_text(text))),
        doc_comment(doc_comment(text)) == block_text(lines(doc_comment(text))),
        lines(doc_comment(doc_comment(text))) == block_lines(lines(doc_comment(text))),
        lines(doc_comment(doc_comment(text))).len() == lines(doc_comment(text)).len() + 2,
{
    reveal_strlit("\n");
    assert("\n"@ =~= seq!['\n']);
    let ls = split(text, '\n');
    let n = min_indent(ls);
    let ds = dedent_lines(ls, n);
    let once = join(ds, "\n"@);
    let kept = lines(once);
    lemma_find_char(text, '\n');
    lemma_split_pieces(text, '\n');
    lemma_split_pieces(text.skip(find_char(text, '\n') + 1), '\n');
    assert(ls.len() >= 2);
    lemma_min_indent_opt(ls);
    assert forall|i: int| 0 <= i < ds.len() implies lacks(#[trigger] ds[i], '\n') && trim_end(ds[i])
        == ds[i] && strip_cr(ds[i]) == ds[i] by {
        assert(lacks(ls[i], '\n'));
        lemma_dedent_line(ls[i], n, '\n');
        lemma_trimmed_has_no_cr(ds[i]);
    }
    lemma_lines_of_join(ds);
    assert(kept.len() >= 1);
    assert forall|k: int| 0 <= k < kept.len() implies (#[trigger] kept[k]).len() > 0 && lacks(
        kept[k],
        '\n',
    ) && trim_end(kept[k]) == kept[k] by {
        assert(kept[k] == ds[k]);
        assert(lacks(ds[k], '\n') && trim_end(ds[k]) == ds[k]);
        assert(kept == lines(trim_lines_text(text)));
        assert(lines(trim_lines_text(text))[k].len() > 0);
    }
    lemma_block(kept);
    let first = doc_comment(text);
    assert(first == block_text(kept));
    lemma_block(block_lines(kept));
}

} // verus!
