//! Stripping SQL comments from query text.
//!
//! Both `--` line comments and `/* */` block comments are removed, the
//! surviving lines are trimmed, blank lines are dropped, and runs of spaces
//! collapse to one, so that a shorthand token can be recognised even behind
//! leading comments.  The whole transformation is the composition of three
//! phases, each specified on its own: comment removal, line tidying, and
//! space squeezing.

use vstd::prelude::*;
use vstd::string::*;

use crate::text::{
    chars_of, find_from, is_space_char, join_nl, lemma_find_from_bounds, lemma_find_from_is,
    split_char_spec, split_chars, string_of, trim_back_spec, trim_chars, trim_front_spec,
    trim_spec, views_of,
};

verus! {

/// The index just past the first `*/` at or after `i`, or `s.len()` when
/// the block comment never closes.
pub open spec fn block_end_from(s: Seq<char>, i: int) -> int
    decreases s.len() - i,
{
    if i < 0 || i >= s.len() {
        s.len() as int
    } else if s[i] == '*' && i + 1 < s.len() && s[i + 1] == '/' {
        i + 2
    } else {
        block_end_from(s, i + 1)
    }
}

pub proof fn lemma_block_end_bounds(s: Seq<char>, i: int)
    requires
        0 <= i <= s.len(),
    ensures
        i <= block_end_from(s, i) <= s.len(),
    decreases s.len() - i,
{
    if i < s.len() && !(s[i] == '*' && i + 1 < s.len() && s[i + 1] == '/') {
        lemma_block_end_bounds(s, i + 1);
    }
}

/// `block_end_from` is pinned down by its first-occurrence shape.
pub proof fn lemma_block_end_is(s: Seq<char>, i: int, j: int)
    requires
        0 <= i <= j <= s.len(),
        forall|k: int| i <= k < j ==> !((#[trigger] s[k]) == '*' && k + 1 < s.len() && s[k + 1] == '/'),
        j < s.len() ==> (s[j] == '*' && j + 1 < s.len() && s[j + 1] == '/'),
    ensures
        block_end_from(s, i) == if j < s.len() {
            j + 2
        } else {
            s.len() as int
        },
    decreases j - i,
{
    if i < j {
        lemma_block_end_is(s, i + 1, j);
    }
}

/// The text with comments removed: `--` swallows everything up to (but not
/// including) the next newline, `/*` swallows everything up to and
/// including the next `*/`, and an unterminated comment swallows the rest.
pub open spec fn decomment_from(s: Seq<char>, i: int) -> Seq<char>
    decreases s.len() - i,
    via decomment_from_dec
{
    if i < 0 || i >= s.len() {
        Seq::empty()
    } else if s[i] == '-' && i + 1 < s.len() && s[i + 1] == '-' {
        decomment_from(s, find_from(s, '\n', i + 2))
    } else if s[i] == '/' && i + 1 < s.len() && s[i + 1] == '*' {
        decomment_from(s, block_end_from(s, i + 2))
    } else {
        seq![s[i]] + decomment_from(s, i + 1)
    }
}

#[via_fn]
proof fn decomment_from_dec(s: Seq<char>, i: int) {
    if 0 <= i < s.len() {
        if s[i] == '-' && i + 1 < s.len() && s[i + 1] == '-' {
            lemma_find_from_bounds(s, '\n', i + 2);
        } else if s[i] == '/' && i + 1 < s.len() && s[i + 1] == '*' {
            lemma_block_end_bounds(s, i + 2);
        }
    }
}

pub open spec fn decomment(s: Seq<char>) -> Seq<char> {
    decomment_from(s, 0)
}

/// The lines of `ls`, each trimmed, with the blank ones dropped.
pub open spec fn nonempty_trimmed(ls: Seq<Seq<char>>) -> Seq<Seq<char>>
    decreases ls.len(),
{
    if ls.len() == 0 {
        Seq::empty()
    } else {
        let rest = nonempty_trimmed(ls.drop_first());
        if trim_spec(ls[0]).len() > 0 {
            seq![trim_spec(ls[0])] + rest
        } else {
            rest
        }
    }
}

/// Each line trimmed, blank lines dropped, the rest joined by newlines.
pub open spec fn tidy_lines(s: Seq<char>) -> Seq<char> {
    join_nl(nonempty_trimmed(split_char_spec(s, '\n')))
}

/// Runs of spaces collapsed to a single space.
pub open spec fn squeeze_spaces(s: Seq<char>) -> Seq<char>
    decreases s.len(),
{
    if s.len() == 0 {
        Seq::empty()
    } else if s[0] == ' ' && s.len() > 1 && s[1] == ' ' {
        squeeze_spaces(s.drop_first())
    } else {
        seq![s[0]] + squeeze_spaces(s.drop_first())
    }
}

/// The whole transformation.
pub open spec fn strip_sql_comments_spec(s: Seq<char>) -> Seq<char> {
    squeeze_spaces(tidy_lines(decomment(s)))
}

/// Removes the comments of `sql`, character by character.
fn decomment_exec(cs: &Vec<char>) -> (out: Vec<char>)
    ensures
        out@ == decomment(cs@),
{
    let mut out: Vec<char> = Vec::new();
    let mut i: usize = 0;
    proof {
        assert(out@ + decomment_from(cs@, 0) =~= decomment_from(cs@, 0));
    }
    while i < cs.len()
        invariant
            i <= cs@.len(),
            decomment(cs@) == out@ + decomment_from(cs@, i as int),
        decreases cs.len() - i,
    {
        let c = cs[i];
        if c == '-' && i + 1 < cs.len() && cs[i + 1] == '-' {
            let mut j: usize = i + 2;
            while j < cs.len() && cs[j] != '\n'
                invariant
                    i + 2 <= j <= cs@.len(),
                    forall|k: int| i + 2 <= k < j ==> cs@[k] != '\n',
                decreases cs.len() - j,
            {
                j = j + 1;
            }
            proof {
                lemma_find_from_is(cs@, '\n', i + 2, j as int);
            }
            i = j;
        } else if c == '/' && i + 1 < cs.len() && cs[i + 1] == '*' {
            let mut j: usize = i + 2;
            while j < cs.len() && !(cs[j] == '*' && j + 1 < cs.len() && cs[j + 1] == '/')
                invariant
                    i + 2 <= j <= cs@.len(),
                    forall|k: int|
                        i + 2 <= k < j ==> !((#[trigger] cs@[k]) == '*' && k + 1 < cs@.len()
                            && cs@[k + 1] == '/'),
                decreases cs.len() - j,
            {
                j = j + 1;
            }
            proof {
                lemma_block_end_is(cs@, i + 2, j as int);
            }
            if j < cs.len() {
                i = j + 2;
            } else {
                i = j;
            }
        } else {
            out.push(c);
            proof {
                assert(out@ + decomment_from(cs@, i as int + 1) =~= out@.drop_last() + (seq![
                    cs@[i as int],
                ] + decomment_from(cs@, i as int + 1)));
            }
            i = i + 1;
        }
    }
    proof {
        assert(out@ + Seq::<char>::empty() =~= out@);
    }
    out
}

/// Trims every line, drops the blank ones, and joins the rest.
fn tidy_exec(cs: &Vec<char>) -> (out: Vec<char>)
    ensures
        out@ == tidy_lines(cs@),
{
    let lines = split_chars(cs, '\n');
    let ghost line_views = split_char_spec(cs@, '\n');
    let mut kept: Vec<Vec<char>> = Vec::new();
    let mut i: usize = 0;
    proof {
        assert(line_views.subrange(0, line_views.len() as int) =~= line_views);
        assert(views_of(kept@) + nonempty_trimmed(line_views) =~= nonempty_trimmed(line_views));
    }
    while i < lines.len()
        invariant
            i <= lines@.len(),
            views_of(lines@) == line_views,
            nonempty_trimmed(line_views) == views_of(kept@) + nonempty_trimmed(
                line_views.subrange(i as int, line_views.len() as int),
            ),
        decreases lines.len() - i,
    {
        proof {
            assert(line_views[i as int] == lines@[i as int]@);
            let suffix = line_views.subrange(i as int, line_views.len() as int);
            assert(suffix.drop_first() =~= line_views.subrange(
                i as int + 1,
                line_views.len() as int,
            ));
            assert(suffix[0] == line_views[i as int]);
        }
        let t = trim_chars(&lines[i]);
        if t.len() > 0 {
            proof {
                assert(views_of(kept@.push(t)) =~= views_of(kept@).push(t@));
                assert(views_of(kept@).push(t@) + nonempty_trimmed(
                    line_views.subrange(i as int + 1, line_views.len() as int),
                ) =~= views_of(kept@) + (seq![t@] + nonempty_trimmed(
                    line_views.subrange(i as int + 1, line_views.len() as int),
                )));
            }
            kept.push(t);
        }
        i = i + 1;
    }
    proof {
        assert(line_views.subrange(line_views.len() as int, line_views.len() as int)
            =~= Seq::<Seq<char>>::empty());
        assert(views_of(kept@) + Seq::<Seq<char>>::empty() =~= views_of(kept@));
    }
    let mut out: Vec<char> = Vec::new();
    let mut m: usize = 0;
    proof {
        assert(views_of(kept@).subrange(0, 0) =~= Seq::<Seq<char>>::empty());
    }
    while m < kept.len()
        invariant
            m <= kept@.len(),
            views_of(kept@) == nonempty_trimmed(line_views),
            line_views == split_char_spec(cs@, '\n'),
            out@ == join_nl(views_of(kept@).subrange(0, m as int)),
        decreases kept.len() - m,
    {
        proof {
            let prefix = views_of(kept@).subrange(0, m as int);
            lemma_join_nl_snoc(prefix, views_of(kept@)[m as int]);
            assert(prefix.push(views_of(kept@)[m as int]) =~= views_of(kept@).subrange(
                0,
                m as int + 1,
            ));
            assert(views_of(kept@)[m as int] == kept@[m as int]@);
        }
        if m > 0 {
            out.push('\n');
        }
        crate::text::push_all(&mut out, &kept[m]);
        m = m + 1;
    }
    proof {
        assert(views_of(kept@).subrange(0, kept@.len() as int) =~= views_of(kept@));
    }
    out
}

/// Appending one more piece extends a newline join on the right.
pub proof fn lemma_join_nl_snoc(ls: Seq<Seq<char>>, piece: Seq<char>)
    ensures
        join_nl(ls.push(piece)) == if ls.len() == 0 {
            piece
        } else {
            join_nl(ls) + seq!['\n'] + piece
        },
    decreases ls.len(),
{
    let pushed = ls.push(piece);
    if ls.len() == 0 {
        assert(pushed.len() == 1);
        assert(pushed[0] == piece);
    } else {
        lemma_join_nl_snoc(ls.drop_first(), piece);
        assert(pushed.drop_first() =~= ls.drop_first().push(piece));
        assert(pushed[0] == ls[0]);
        if ls.len() == 1 {
            assert(join_nl(pushed) == ls[0] + seq!['\n'] + piece);
            assert(join_nl(ls) == ls[0]);
        } else {
            assert(join_nl(pushed) == pushed[0] + seq!['\n'] + join_nl(pushed.drop_first()));
            assert(join_nl(ls) + seq!['\n'] + piece =~= ls[0] + seq!['\n'] + (join_nl(
                ls.drop_first(),
            ) + seq!['\n'] + piece));
        }
    }
}

/// Collapses runs of spaces to one space.
fn squeeze_exec(cs: &Vec<char>) -> (out: Vec<char>)
    ensures
        out@ == squeeze_spaces(cs@),
{
    let mut out: Vec<char> = Vec::new();
    let mut i: usize = 0;
    proof {
        assert(cs@.subrange(0, cs@.len() as int) =~= cs@);
        assert(out@ + squeeze_spaces(cs@) =~= squeeze_spaces(cs@));
    }
    while i < cs.len()
        invariant
            i <= cs@.len(),
            squeeze_spaces(cs@) == out@ + squeeze_spaces(
                cs@.subrange(i as int, cs@.len() as int),
            ),
        decreases cs.len() - i,
    {
        proof {
            let suffix = cs@.subrange(i as int, cs@.len() as int);
            assert(suffix.drop_first() =~= cs@.subrange(i as int + 1, cs@.len() as int));
            assert(suffix[0] == cs@[i as int]);
            if suffix.len() > 1 {
                assert(suffix[1] == cs@[i as int + 1]);
            }
        }
        let c = cs[i];
        if c == ' ' && i + 1 < cs.len() && cs[i + 1] == ' ' {
        } else {
            out.push(c);
            proof {
                assert(out@ + squeeze_spaces(cs@.subrange(i as int + 1, cs@.len() as int))
                    =~= out@.drop_last() + (seq![cs@[i as int]] + squeeze_spaces(
                    cs@.subrange(i as int + 1, cs@.len() as int),
                )));
            }
        }
        i = i + 1;
    }
    proof {
        assert(cs@.subrange(cs@.len() as int, cs@.len() as int) =~= Seq::<char>::empty());
        assert(out@ + Seq::<char>::empty() =~= out@);
    }
    out
}

/// Whether the characters `a`, `b` occur adjacently in `s`.
pub open spec fn has_pair(s: Seq<char>, a: char, b: char) -> bool {
    exists|i: int| 0 <= i && i + 1 < s.len() && (#[trigger] s[i]) == a && s[i + 1] == b
}

/// Whether `s` holds no comment opener at all.
pub open spec fn comment_free(s: Seq<char>) -> bool {
    !has_pair(s, '-', '-') && !has_pair(s, '/', '*')
}

proof fn lemma_decomment_identity_from(s: Seq<char>, i: int)
    requires
        comment_free(s),
        0 <= i <= s.len(),
    ensures
        decomment_from(s, i) == s.subrange(i, s.len() as int),
    decreases s.len() - i,
{
    if i == s.len() {
        assert(s.subrange(i, s.len() as int) =~= Seq::<char>::empty());
    } else {
        if s[i] == '-' && i + 1 < s.len() && s[i + 1] == '-' {
            assert(has_pair(s, '-', '-'));
        }
        if s[i] == '/' && i + 1 < s.len() && s[i + 1] == '*' {
            assert(has_pair(s, '/', '*'));
        }
        lemma_decomment_identity_from(s, i + 1);
        assert(s.subrange(i, s.len() as int) =~= seq![s[i]] + s.subrange(i + 1, s.len() as int));
    }
}

/// On comment-free text, comment removal changes nothing.
pub proof fn lemma_decomment_identity(s: Seq<char>)
    requires
        comment_free(s),
    ensures
        decomment(s) == s,
{
    lemma_decomment_identity_from(s, 0);
    assert(s.subrange(0, s.len() as int) =~= s);
}

proof fn lemma_trim_front_len(s: Seq<char>)
    ensures
        trim_front_spec(s).len() <= s.len(),
        s.len() > 0 && is_space_char(s[0]) ==> trim_front_spec(s).len() < s.len(),
        trim_front_spec(s).len() > 0 ==> !is_space_char(trim_front_spec(s)[0]),
    decreases s.len(),
{
    if s.len() > 0 && is_space_char(s[0]) {
        lemma_trim_front_len(s.drop_first());
    }
}

proof fn lemma_trim_back_len(s: Seq<char>)
    ensures
        trim_back_spec(s).len() <= s.len(),
        s.len() > 0 && is_space_char(s[s.len() - 1]) ==> trim_back_spec(s).len() < s.len(),
        trim_back_spec(s).len() > 0 ==> !is_space_char(trim_back_spec(s).last()),
        trim_back_spec(s).len() > 0 ==> trim_back_spec(s)[0] == s[0],
    decreases s.len(),
{
    if s.len() > 0 && is_space_char(s[s.len() - 1]) {
        lemma_trim_back_len(s.drop_last());
    }
}

/// A trimmed, nonempty sequence neither starts nor ends with whitespace,
/// and trimming is idempotent.
pub proof fn lemma_trim_props(s: Seq<char>)
    ensures
        trim_spec(trim_spec(s)) == trim_spec(s),
        trim_spec(s).len() > 0 ==> !is_space_char(trim_spec(s)[0]),
        trim_spec(s).len() > 0 ==> !is_space_char(trim_spec(s).last()),
{
    let f = trim_front_spec(s);
    let t = trim_spec(s);
    lemma_trim_front_len(s);
    lemma_trim_back_len(f);
    if t.len() > 0 {
        assert(t[0] == f[0]);
        assert(!is_space_char(t[0]));
        assert(!is_space_char(t.last()));
        assert(trim_front_spec(t) == t);
        assert(trim_back_spec(t) == t);
    } else {
        assert(trim_front_spec(t) == t);
        assert(trim_back_spec(t) == t);
    }
}

proof fn lemma_trim_front_no_char(s: Seq<char>, c: char)
    requires
        forall|i: int| 0 <= i < s.len() ==> s[i] != c,
    ensures
        forall|i: int|
            0 <= i < trim_front_spec(s).len() ==> #[trigger] trim_front_spec(s)[i] != c,
    decreases s.len(),
{
    if s.len() > 0 && is_space_char(s[0]) {
        assert(forall|i: int| 0 <= i < s.drop_first().len() ==> #[trigger] s.drop_first()[i] != c);
        lemma_trim_front_no_char(s.drop_first(), c);
        assert forall|i: int|
            0 <= i < trim_front_spec(s).len() implies #[trigger] trim_front_spec(s)[i] != c by {
            assert(trim_front_spec(s)[i] == trim_front_spec(s.drop_first())[i]);
        }
    } else {
        assert forall|i: int|
            0 <= i < trim_front_spec(s).len() implies #[trigger] trim_front_spec(s)[i] != c by {
            assert(trim_front_spec(s)[i] == s[i]);
        }
    }
}

proof fn lemma_trim_back_no_char(s: Seq<char>, c: char)
    requires
        forall|i: int| 0 <= i < s.len() ==> s[i] != c,
    ensures
        forall|i: int| 0 <= i < trim_back_spec(s).len() ==> #[trigger] trim_back_spec(s)[i] != c,
    decreases s.len(),
{
    if s.len() > 0 && is_space_char(s[s.len() - 1]) {
        assert(forall|i: int| 0 <= i < s.drop_last().len() ==> #[trigger] s.drop_last()[i] != c);
        lemma_trim_back_no_char(s.drop_last(), c);
        assert forall|i: int|
            0 <= i < trim_back_spec(s).len() implies #[trigger] trim_back_spec(s)[i] != c by {
            assert(trim_back_spec(s)[i] == trim_back_spec(s.drop_last())[i]);
        }
    } else {
        assert forall|i: int|
            0 <= i < trim_back_spec(s).len() implies #[trigger] trim_back_spec(s)[i] != c by {
            assert(trim_back_spec(s)[i] == s[i]);
        }
    }
}

/// Trimming never introduces a character.
pub proof fn lemma_trim_no_char(s: Seq<char>, c: char)
    requires
        forall|i: int| 0 <= i < s.len() ==> s[i] != c,
    ensures
        forall|i: int| 0 <= i < trim_spec(s).len() ==> #[trigger] trim_spec(s)[i] != c,
{
    lemma_trim_front_no_char(s, c);
    lemma_trim_back_no_char(trim_front_spec(s), c);
}

/// Squeezing keeps the length positive, the first character of a
/// non-space-headed sequence, the last character, and introduces nothing.
proof fn lemma_squeeze_shape(s: Seq<char>)
    ensures
        s.len() > 0 ==> squeeze_spaces(s).len() > 0,
        s.len() == 0 ==> squeeze_spaces(s).len() == 0,
        s.len() > 0 && s[0] != ' ' ==> squeeze_spaces(s)[0] == s[0],
        s.len() > 0 ==> squeeze_spaces(s).last() == s.last(),
    decreases s.len(),
{
    if s.len() > 0 {
        lemma_squeeze_shape(s.drop_first());
        if s[0] == ' ' && s.len() > 1 && s[1] == ' ' {
            assert(s.drop_first().last() == s.last());
        } else {
            if s.drop_first().len() == 0 {
                assert(squeeze_spaces(s) =~= seq![s[0]]);
            } else {
                assert(squeeze_spaces(s).last() == squeeze_spaces(s.drop_first()).last());
                assert(s.drop_first().last() == s.last());
            }
        }
    }
}

proof fn lemma_squeeze_no_char(s: Seq<char>, c: char)
    requires
        forall|i: int| 0 <= i < s.len() ==> s[i] != c,
    ensures
        forall|i: int| 0 <= i < squeeze_spaces(s).len() ==> #[trigger] squeeze_spaces(s)[i] != c,
    decreases s.len(),
{
    if s.len() > 0 {
        assert(forall|i: int| 0 <= i < s.drop_first().len() ==> #[trigger] s.drop_first()[i] != c);
        lemma_squeeze_no_char(s.drop_first(), c);
        if !(s[0] == ' ' && s.len() > 1 && s[1] == ' ') {
            let q = seq![s[0]] + squeeze_spaces(s.drop_first());
            assert forall|i: int| 0 <= i < q.len() implies #[trigger] q[i] != c by {
                if i == 0 {
                    assert(q[0] == s[0]);
                } else {
                    assert(q[i] == squeeze_spaces(s.drop_first())[i - 1]);
                }
            }
        }
    }
}

/// No two adjacent spaces.
pub open spec fn no_double_space(s: Seq<char>) -> bool {
    forall|i: int| 0 <= i && i + 1 < s.len() ==> !(#[trigger] s[i] == ' ' && s[i + 1] == ' ')
}

proof fn lemma_squeeze_nds(s: Seq<char>)
    ensures
        no_double_space(squeeze_spaces(s)),
    decreases s.len(),
{
    if s.len() > 0 {
        lemma_squeeze_nds(s.drop_first());
        lemma_squeeze_shape(s.drop_first());
        if s[0] == ' ' && s.len() > 1 && s[1] == ' ' {
        } else {
            let q = seq![s[0]] + squeeze_spaces(s.drop_first());
            assert forall|i: int| 0 <= i && i + 1 < q.len() implies !(#[trigger] q[i] == ' ' && q[i
                + 1] == ' ') by {
                if i == 0 {
                    if s[0] == ' ' && s.drop_first().len() > 0 {
                        assert(s.drop_first()[0] == s[1]);
                        assert(s[1] != ' ');
                        assert(q[1] == squeeze_spaces(s.drop_first())[0]);
                    }
                } else {
                    assert(q[i] == squeeze_spaces(s.drop_first())[i - 1]);
                    assert(q[i + 1] == squeeze_spaces(s.drop_first())[i]);
                }
            }
        }
    }
}

proof fn lemma_squeeze_id(s: Seq<char>)
    requires
        no_double_space(s),
    ensures
        squeeze_spaces(s) == s,
    decreases s.len(),
{
    if s.len() > 0 {
        assert(!(s[0] == ' ' && s.len() > 1 && s[1] == ' '));
        assert(forall|i: int|
            0 <= i && i + 1 < s.drop_first().len() ==> !(#[trigger] s.drop_first()[i] == ' '
                && s.drop_first()[i + 1] == ' '));
        lemma_squeeze_id(s.drop_first());
        assert(seq![s[0]] + s.drop_first() =~= s);
    }
}

/// Squeezing is idempotent.
pub proof fn lemma_squeeze_idempotent(s: Seq<char>)
    ensures
        squeeze_spaces(squeeze_spaces(s)) == squeeze_spaces(s),
{
    lemma_squeeze_nds(s);
    lemma_squeeze_id(squeeze_spaces(s));
}

/// Squeezing distributes over a newline: the newline never takes part in a
/// space run.
proof fn lemma_squeeze_concat_nl(a: Seq<char>, b: Seq<char>)
    ensures
        squeeze_spaces(a + seq!['\n'] + b) == squeeze_spaces(a) + seq!['\n'] + squeeze_spaces(b),
    decreases a.len(),
{
    let s = a + seq!['\n'] + b;
    if a.len() == 0 {
        assert(s =~= seq!['\n'] + b);
        assert(s[0] == '\n');
        assert(s.drop_first() =~= b);
        assert(squeeze_spaces(s) == seq!['\n'] + squeeze_spaces(b));
        assert(squeeze_spaces(a) + seq!['\n'] + squeeze_spaces(b) =~= seq!['\n'] + squeeze_spaces(
            b,
        ));
    } else {
        lemma_squeeze_concat_nl(a.drop_first(), b);
        assert(s[0] == a[0]);
        assert(s.drop_first() =~= a.drop_first() + seq!['\n'] + b);
        let second = if a.len() > 1 {
            a[1]
        } else {
            '\n'
        };
        assert(s.len() > 1 && s[1] == second);
        if a[0] == ' ' && second == ' ' {
            assert(a.len() > 1);
            assert(squeeze_spaces(s) == squeeze_spaces(s.drop_first()));
            assert(squeeze_spaces(a) == squeeze_spaces(a.drop_first()));
        } else {
            assert(squeeze_spaces(s) == seq![s[0]] + squeeze_spaces(s.drop_first()));
            assert(!(a[0] == ' ' && a.len() > 1 && a[1] == ' '));
            assert(squeeze_spaces(a) == seq![a[0]] + squeeze_spaces(a.drop_first()));
            assert(seq![a[0]] + (squeeze_spaces(a.drop_first()) + seq!['\n'] + squeeze_spaces(b))
                =~= (seq![a[0]] + squeeze_spaces(a.drop_first())) + seq!['\n'] + squeeze_spaces(b));
        }
    }
}

/// Squeezing a newline join squeezes each piece.
proof fn lemma_squeeze_join(ms: Seq<Seq<char>>)
    requires
        ms.len() > 0,
    ensures
        squeeze_spaces(join_nl(ms)) == join_nl(
            ms.map_values(|l: Seq<char>| squeeze_spaces(l)),
        ),
    decreases ms.len(),
{
    let sq = ms.map_values(|l: Seq<char>| squeeze_spaces(l));
    if ms.len() == 1 {
        assert(join_nl(ms) == ms[0]);
        assert(sq.len() == 1 && sq[0] == squeeze_spaces(ms[0]));
        assert(join_nl(sq) == sq[0]);
    } else {
        lemma_squeeze_join(ms.drop_first());
        lemma_squeeze_concat_nl(ms[0], join_nl(ms.drop_first()));
        assert(ms.drop_first().map_values(|l: Seq<char>| squeeze_spaces(l)) =~= sq.drop_first());
        assert(sq[0] == squeeze_spaces(ms[0]));
        assert(join_nl(sq) == sq[0] + seq!['\n'] + join_nl(sq.drop_first()));
    }
}

/// No piece of a split contains the separator.
pub proof fn lemma_split_no_sep(s: Seq<char>, sep: char)
    ensures
        forall|pi: int, i: int|
            0 <= pi < split_char_spec(s, sep).len() && 0 <= i < split_char_spec(s, sep)[pi].len()
                ==> #[trigger] split_char_spec(s, sep)[pi][i] != sep,
    decreases s.len(),
{
    let f = find_from(s, sep, 0);
    lemma_find_from_bounds(s, sep, 0);
    if f >= s.len() {
        assert(split_char_spec(s, sep) == seq![s]);
    } else {
        lemma_split_no_sep(s.subrange(f + 1, s.len() as int), sep);
        let head = s.subrange(0, f);
        let rest = split_char_spec(s.subrange(f + 1, s.len() as int), sep);
        assert(split_char_spec(s, sep) == seq![head] + rest);
        assert forall|pi: int, i: int|
            0 <= pi < split_char_spec(s, sep).len() && 0 <= i < split_char_spec(
                s,
                sep,
            )[pi].len() implies #[trigger] split_char_spec(s, sep)[pi][i] != sep by {
            if pi == 0 {
                assert(split_char_spec(s, sep)[0] == head);
                assert(head[i] == s[i]);
            } else {
                assert(split_char_spec(s, sep)[pi] == rest[pi - 1]);
            }
        }
    }
}

/// Joining newline-free pieces and splitting again gives the pieces back.
proof fn lemma_split_join(ms: Seq<Seq<char>>)
    requires
        ms.len() > 0,
        forall|pi: int, i: int|
            0 <= pi < ms.len() && 0 <= i < ms[pi].len() ==> #[trigger] ms[pi][i] != '\n',
    ensures
        split_char_spec(join_nl(ms), '\n') == ms,
    decreases ms.len(),
{
    let j = join_nl(ms);
    if ms.len() == 1 {
        assert(j == ms[0]);
        lemma_find_from_is(j, '\n', 0, j.len() as int);
        assert(split_char_spec(j, '\n') == seq![j]);
        assert(seq![j] =~= ms);
    } else {
        let head = ms[0];
        let tail = join_nl(ms.drop_first());
        assert(j == head + seq!['\n'] + tail);
        assert forall|k: int| 0 <= k < head.len() implies #[trigger] j[k] != '\n' by {
            assert(j[k] == head[k]);
            assert(ms[0][k] != '\n');
        }
        assert(j[head.len() as int] == '\n');
        lemma_find_from_is(j, '\n', 0, head.len() as int);
        assert(j.subrange(0, head.len() as int) =~= head);
        assert(j.subrange(head.len() as int + 1, j.len() as int) =~= tail);
        assert(forall|pi: int, i: int|
            0 <= pi < ms.drop_first().len() && 0 <= i < ms.drop_first()[pi].len()
                ==> #[trigger] ms.drop_first()[pi][i] != '\n');
        lemma_split_join(ms.drop_first());
        assert(split_char_spec(j, '\n') == seq![head] + ms.drop_first());
        assert(seq![head] + ms.drop_first() =~= ms);
    }
}

/// Every kept line is the trim of some input line, and is nonempty.
proof fn lemma_nt_elems(ls: Seq<Seq<char>>)
    ensures
        forall|k: int|
            0 <= k < nonempty_trimmed(ls).len() ==> exists|m: int|
                0 <= m < ls.len() && #[trigger] nonempty_trimmed(ls)[k] == trim_spec(ls[m])
                    && trim_spec(ls[m]).len() > 0,
    decreases ls.len(),
{
    if ls.len() > 0 {
        lemma_nt_elems(ls.drop_first());
        let rest = nonempty_trimmed(ls.drop_first());
        assert forall|k: int|
            0 <= k < nonempty_trimmed(ls).len() implies exists|m: int|
            0 <= m < ls.len() && #[trigger] nonempty_trimmed(ls)[k] == trim_spec(ls[m])
                && trim_spec(ls[m]).len() > 0 by {
            if trim_spec(ls[0]).len() > 0 && k == 0 {
                assert(nonempty_trimmed(ls)[0] == trim_spec(ls[0]));
                assert(0 < ls.len() && nonempty_trimmed(ls)[k] == trim_spec(ls[0]) && trim_spec(
                    ls[0],
                ).len() > 0);
            } else {
                let kr = if trim_spec(ls[0]).len() > 0 {
                    k - 1
                } else {
                    k
                };
                assert(nonempty_trimmed(ls)[k] == rest[kr]);
                let m0 = choose|m: int|
                    0 <= m < ls.drop_first().len() && rest[kr] == trim_spec(ls.drop_first()[m])
                        && trim_spec(ls.drop_first()[m]).len() > 0;
                assert(ls.drop_first()[m0] == ls[m0 + 1]);
                assert(0 <= m0 + 1 < ls.len() && nonempty_trimmed(ls)[k] == trim_spec(ls[m0 + 1])
                    && trim_spec(ls[m0 + 1]).len() > 0);
            }
        }
    }
}

/// On lines already trimmed and nonempty, the tidy pass keeps them all.
proof fn lemma_nt_id(ls: Seq<Seq<char>>)
    requires
        forall|k: int|
            0 <= k < ls.len() ==> (#[trigger] ls[k]).len() > 0 && trim_spec(ls[k]) == ls[k],
    ensures
        nonempty_trimmed(ls) == ls,
    decreases ls.len(),
{
    if ls.len() > 0 {
        assert(forall|k: int|
            0 <= k < ls.drop_first().len() ==> (#[trigger] ls.drop_first()[k]).len() > 0
                && trim_spec(ls.drop_first()[k]) == ls.drop_first()[k]);
        lemma_nt_id(ls.drop_first());
        assert(trim_spec(ls[0]) == ls[0]);
        assert(seq![ls[0]] + ls.drop_first() =~= ls);
    }
}

/// Law: comment stripping is idempotent — stripping the already-stripped
/// output changes nothing further — on every input whose stripped form
/// holds no residual comment opener.  Splicing around a removed comment can
/// create one: `-/* c */-` strips to `--`, which a second pass strips to
/// nothing; such inputs are the sole exception, and the premise excludes
/// exactly them.
pub proof fn lemma_strip_sql_comments_idempotent(s: Seq<char>)
    requires
        comment_free(strip_sql_comments_spec(s)),
    ensures
        strip_sql_comments_spec(strip_sql_comments_spec(s)) == strip_sql_comments_spec(s),
{
    let d = decomment(s);
    let ls = split_char_spec(d, '\n');
    let ms = nonempty_trimmed(ls);
    let t0 = join_nl(ms);
    let t = squeeze_spaces(t0);
    assert(t == strip_sql_comments_spec(s));
    lemma_decomment_identity(t);
    if ms.len() == 0 {
        assert(t0 == Seq::<char>::empty());
        assert(t == Seq::<char>::empty());
        assert(split_char_spec(t, '\n') == seq![t]);
        assert(trim_spec(t) == t);
        assert(seq![t].drop_first() =~= Seq::<Seq<char>>::empty());
        assert(nonempty_trimmed(Seq::<Seq<char>>::empty()) == Seq::<Seq<char>>::empty());
        assert(trim_spec(t).len() == 0);
        assert(nonempty_trimmed(seq![t]) == nonempty_trimmed(seq![t].drop_first()));
        assert(nonempty_trimmed(split_char_spec(t, '\n')) == Seq::<Seq<char>>::empty());
        assert(tidy_lines(t) == t);
        assert(strip_sql_comments_spec(t) == t);
    } else {
        lemma_nt_elems(ls);
        lemma_split_no_sep(d, '\n');
        assert forall|k: int|
            0 <= k < ms.len() implies (#[trigger] ms[k]).len() > 0 && !is_space_char(ms[k][0])
            && !is_space_char(ms[k].last()) by {
            let m = choose|m: int|
                0 <= m < ls.len() && ms[k] == trim_spec(ls[m]) && trim_spec(ls[m]).len() > 0;
            lemma_trim_props(ls[m]);
        }
        assert forall|k: int, i: int|
            0 <= k < ms.len() && 0 <= i < ms[k].len() implies #[trigger] ms[k][i] != '\n' by {
            let m = choose|m: int|
                0 <= m < ls.len() && ms[k] == trim_spec(ls[m]) && trim_spec(ls[m]).len() > 0;
            assert(forall|i: int| 0 <= i < ls[m].len() ==> #[trigger] ls[m][i] != '\n');
            lemma_trim_no_char(ls[m], '\n');
        }
        lemma_squeeze_join(ms);
        let msq = ms.map_values(|l: Seq<char>| squeeze_spaces(l));
        assert(t == join_nl(msq));
        assert forall|k: int|
            0 <= k < msq.len() implies (#[trigger] msq[k]).len() > 0 && trim_spec(msq[k])
            == msq[k] by {
            assert(msq[k] == squeeze_spaces(ms[k]));
            lemma_squeeze_shape(ms[k]);
            assert(msq[k][0] == ms[k][0]);
            assert(msq[k].last() == ms[k].last());
            assert(trim_front_spec(msq[k]) == msq[k]);
            assert(trim_back_spec(msq[k]) == msq[k]);
        }
        assert forall|k: int, i: int|
            0 <= k < msq.len() && 0 <= i < msq[k].len() implies #[trigger] msq[k][i] != '\n' by {
            assert(msq[k] == squeeze_spaces(ms[k]));
            lemma_squeeze_no_char(ms[k], '\n');
        }
        lemma_split_join(msq);
        lemma_nt_id(msq);
        assert(tidy_lines(t) == t);
        lemma_squeeze_idempotent(t0);
        assert(strip_sql_comments_spec(t) == squeeze_spaces(t));
        assert(squeeze_spaces(t) == t);
    }
}

/// Strips `--` line comments and `/* */` block comments from `sql`, trims
/// the surviving lines, drops the blank ones, and collapses runs of spaces.
pub fn strip_sql_comments(sql: &str) -> (r: String)
    ensures
        r@ == strip_sql_comments_spec(sql@),
{
    let cs = chars_of(sql);
    let no_comments = decomment_exec(&cs);
    let tidied = tidy_exec(&no_comments);
    let squeezed = squeeze_exec(&tidied);
    string_of(&squeezed)
}

} // verus!
