//! The line model: how a file's text is split into lines and how a sequence
//! of lines is rendered back into text.
//!
//! Splitting follows the usual reading convention: lines are separated by
//! `'\n'`, and a single `'\r'` immediately before a separating `'\n'` is
//! stripped from the line. A final fragment without a terminating `'\n'` is a
//! line of its own, kept verbatim. Rendering writes every line followed by a
//! single `'\n'`.

use vstd::prelude::*;

verus! {

/// `l` with one trailing carriage return removed, if it has one.
pub open spec fn strip_cr(l: Seq<char>) -> Seq<char> {
    if l.len() > 0 && l[l.len() - 1] == '\r' {
        l.drop_last()
    } else {
        l
    }
}

/// The lines of `cur + rem`, where `cur` is the partial line read so far.
pub open spec fn split_rem(cur: Seq<char>, rem: Seq<char>) -> Seq<Seq<char>>
    decreases rem.len(),
{
    if rem.len() == 0 {
        if cur.len() == 0 {
            Seq::empty()
        } else {
            seq![cur]
        }
    } else if rem[0] == '\n' {
        seq![strip_cr(cur)] + split_rem(Seq::empty(), rem.drop_first())
    } else {
        split_rem(cur.push(rem[0]), rem.drop_first())
    }
}

/// The lines of a file whose text is `s`.
pub open spec fn split_lines(s: Seq<char>) -> Seq<Seq<char>> {
    split_rem(Seq::empty(), s)
}

/// The text that writing `lines` produces: every line followed by `'\n'`.
pub open spec fn render_lines(lines: Seq<Seq<char>>) -> Seq<char>
    decreases lines.len(),
{
    if lines.len() == 0 {
        Seq::empty()
    } else {
        lines[0] + seq!['\n'] + render_lines(lines.drop_first())
    }
}

/// A line that splitting can reproduce exactly: it holds no separator and
/// does not end in a carriage return that rendering would merge into `"\r\n"`.
pub open spec fn line_clean(l: Seq<char>) -> bool {
    &&& forall|j: int| 0 <= j < l.len() ==> l[j] != '\n'
    &&& l.len() > 0 ==> l[l.len() - 1] != '\r'
}

proof fn lemma_render_lines_snoc(lines: Seq<Seq<char>>, l: Seq<char>)
    ensures
        render_lines(lines.push(l)) == render_lines(lines) + l + seq!['\n'],
    decreases lines.len(),
{
    if lines.len() == 0 {
        assert(lines.push(l).drop_first() =~= Seq::<Seq<char>>::empty());
        assert(lines.push(l)[0] == l);
        assert(render_lines(lines.push(l)) == l + seq!['\n'] + render_lines(
            Seq::<Seq<char>>::empty(),
        ));
        assert(render_lines(lines.push(l)) =~= render_lines(lines) + l + seq!['\n']);
    } else {
        assert(lines.push(l).drop_first() =~= lines.drop_first().push(l));
        assert(lines.push(l)[0] == lines[0]);
        lemma_render_lines_snoc(lines.drop_first(), l);
        assert(render_lines(lines.push(l)) =~= render_lines(lines) + l + seq!['\n']);
    }
}

/// Splitting a text that starts with one separator-free line consumes exactly
/// that line and resumes after the separator.
proof fn lemma_split_rem_line(cur: Seq<char>, l: Seq<char>, t: Seq<char>)
    requires
        forall|j: int| 0 <= j < l.len() ==> l[j] != '\n',
    ensures
        split_rem(cur, l + seq!['\n'] + t) == seq![strip_cr(cur + l)] + split_rem(
            Seq::empty(),
            t,
        ),
    decreases l.len(),
{
    if l.len() == 0 {
        assert(l + seq!['\n'] + t =~= seq!['\n'] + t);
        assert((seq!['\n'] + t)[0] == '\n');
        assert((seq!['\n'] + t).drop_first() =~= t);
        assert(cur + l =~= cur);
    } else {
        let s = l + seq!['\n'] + t;
        assert(s[0] == l[0]);
        assert(s.drop_first() =~= l.drop_first() + seq!['\n'] + t);
        lemma_split_rem_line(cur.push(l[0]), l.drop_first(), t);
        assert(cur.push(l[0]) + l.drop_first() =~= cur + l);
    }
}

/// The round trip law: rendering lines and splitting the result gives the
/// lines back, as long as every line is [`line_clean`]. A line holding a
/// separator, or ending in a carriage return, is reassembled differently by
/// the reading convention, so such lines are left out.
pub proof fn lemma_save_read_round_trip(lines: Seq<Seq<char>>)
    requires
        forall|i: int| 0 <= i < lines.len() ==> line_clean(#[trigger] lines[i]),
    ensures
        split_lines(render_lines(lines)) == lines,
    decreases lines.len(),
{
    if lines.len() == 0 {
        assert(split_lines(render_lines(lines)) =~= lines);
    } else {
        let l = lines[0];
        assert(line_clean(l));
        lemma_split_rem_line(Seq::empty(), l, render_lines(lines.drop_first()));
        assert(Seq::<char>::empty() + l =~= l);
        assert(strip_cr(l) == l);
        assert forall|i: int| 0 <= i < lines.drop_first().len() implies line_clean(
            #[trigger] lines.drop_first()[i],
        ) by {
            assert(lines.drop_first()[i] == lines[i + 1]);
        }
        lemma_save_read_round_trip(lines.drop_first());
        assert(split_lines(render_lines(lines)) =~= seq![l] + lines.drop_first());
        assert(seq![l] + lines.drop_first() =~= lines);
    }
}

proof fn lemma_split_rem_no_newline(cur: Seq<char>, rem: Seq<char>)
    requires
        forall|j: int| 0 <= j < cur.len() ==> cur[j] != '\n',
    ensures
        forall|i: int, j: int|
            0 <= i < split_rem(cur, rem).len() && 0 <= j < split_rem(cur, rem)[i].len()
                ==> #[trigger] split_rem(cur, rem)[i][j] != '\n',
    decreases rem.len(),
{
    if rem.len() == 0 {
        if cur.len() > 0 {
            assert forall|i: int, j: int|
                0 <= i < split_rem(cur, rem).len() && 0 <= j < split_rem(cur, rem)[i].len() implies #[trigger] split_rem(
                cur,
                rem,
            )[i][j] != '\n' by {
                assert(split_rem(cur, rem)[i] == cur);
            }
        }
    } else if rem[0] == '\n' {
        lemma_split_rem_no_newline(Seq::empty(), rem.drop_first());
        let first = strip_cr(cur);
        assert(forall|j: int| 0 <= j < first.len() ==> first[j] != '\n');
        assert forall|i: int, j: int|
            0 <= i < split_rem(cur, rem).len() && 0 <= j < split_rem(cur, rem)[i].len() implies #[trigger] split_rem(
            cur,
            rem,
        )[i][j] != '\n' by {
            if i > 0 {
                assert(split_rem(cur, rem)[i] == split_rem(Seq::empty(), rem.drop_first())[i - 1]);
            }
        }
    } else {
        assert forall|j: int| 0 <= j < cur.push(rem[0]).len() implies cur.push(rem[0])[j]
            != '\n' by {
            if j < cur.len() {
                assert(cur.push(rem[0])[j] == cur[j]);
            } else {
                assert(cur.push(rem[0])[j] == rem[0]);
            }
        }
        lemma_split_rem_no_newline(cur.push(rem[0]), rem.drop_first());
        assert(split_rem(cur, rem) == split_rem(cur.push(rem[0]), rem.drop_first()));
    }
}

/// No line that splitting produces contains a separator.
pub proof fn lemma_split_lines_no_newline(s: Seq<char>)
    ensures
        forall|i: int, j: int|
            0 <= i < split_lines(s).len() && 0 <= j < split_lines(s)[i].len()
                ==> #[trigger] split_lines(s)[i][j] != '\n',
{
    lemma_split_rem_no_newline(Seq::empty(), s);
}

/// The round trip law over a whole file: splitting a text, rendering the
/// lines, and splitting again gives the same lines, as long as no line of the
/// text keeps a trailing carriage return (one survives splitting only out of
/// an ending such as `"\r\r\n"`, or a final fragment like `"abc\r"`).
pub proof fn lemma_file_round_trip(s: Seq<char>)
    requires
        forall|i: int|
            0 <= i < split_lines(s).len() ==> (#[trigger] split_lines(s)[i].len() > 0
                ==> split_lines(s)[i][split_lines(s)[i].len() - 1] != '\r'),
    ensures
        split_lines(render_lines(split_lines(s))) == split_lines(s),
{
    lemma_split_lines_no_newline(s);
    assert forall|i: int| 0 <= i < split_lines(s).len() implies line_clean(
        #[trigger] split_lines(s)[i],
    ) by {
        assert(forall|j: int|
            0 <= j < split_lines(s)[i].len() ==> #[trigger] split_lines(s)[i][j] != '\n');
    }
    lemma_save_read_round_trip(split_lines(s));
}

/// Splits a file's text into its lines.
pub fn split_content(s: &str) -> (r: Vec<String>)
    ensures
        r.deep_view() == split_lines(s@),
{
    let n = s.unicode_len();
    let mut res: Vec<String> = Vec::new();
    let mut pos: usize = 0;
    let mut j: usize = 0;
    proof {
        assert(s@.subrange(0, 0) =~= Seq::<char>::empty());
        assert(s@.skip(0) =~= s@);
        assert(res.deep_view() =~= Seq::<Seq<char>>::empty());
        assert(res.deep_view() + split_rem(s@.subrange(0, 0), s@.skip(0)) =~= split_lines(s@));
    }
    while j < n
        invariant
            n == s@.len(),
            pos <= j <= n,
            split_lines(s@) == res.deep_view() + split_rem(
                s@.subrange(pos as int, j as int),
                s@.skip(j as int),
            ),
        decreases n - j,
    {
        let ghost cur = s@.subrange(pos as int, j as int);
        let ghost rem = s@.skip(j as int);
        proof {
            assert(rem[0] == s@[j as int]);
        }
        let c = s.get_char(j);
        if c == '\n' {
            let line: &str = if j > pos && s.get_char(j - 1) == '\r' {
                s.substring_char(pos, j - 1)
            } else {
                s.substring_char(pos, j)
            };
            proof {
                if j > pos && s@[j as int - 1] == '\r' {
                    assert(cur.drop_last() =~= s@.subrange(pos as int, j as int - 1));
                }
                assert(line@ == strip_cr(cur));
            }
            let owned: String = String::from_str(line);
            let ghost old_dv = res.deep_view();
            res.push(owned);
            proof {
                assert(res.deep_view() =~= old_dv.push(line@));
                assert(rem.drop_first() =~= s@.skip(j as int + 1));
                assert(s@.subrange(j as int + 1, j as int + 1) =~= Seq::<char>::empty());
                assert(res.deep_view() + split_rem(
                    s@.subrange(j as int + 1, j as int + 1),
                    s@.skip(j as int + 1),
                ) =~= old_dv + split_rem(cur, rem));
            }
            pos = j + 1;
        } else {
            proof {
                assert(cur.push(s@[j as int]) =~= s@.subrange(pos as int, j as int + 1));
                assert(rem.drop_first() =~= s@.skip(j as int + 1));
            }
        }
        j = j + 1;
    }
    proof {
        assert(s@.skip(n as int) =~= Seq::<char>::empty());
    }
    if pos < n {
        let line = s.substring_char(pos, n);
        let owned: String = String::from_str(line);
        let ghost old_dv = res.deep_view();
        res.push(owned);
        proof {
            assert(res.deep_view() =~= old_dv.push(line@));
            assert(res.deep_view() =~= old_dv + split_rem(
                s@.subrange(pos as int, n as int),
                s@.skip(n as int),
            ));
        }
    } else {
        proof {
            assert(s@.subrange(pos as int, n as int) =~= Seq::<char>::empty());
            assert(res.deep_view() + split_rem(
                s@.subrange(pos as int, n as int),
                s@.skip(n as int),
            ) =~= res.deep_view());
        }
    }
    res
}

/// Renders lines as the text of a file: every line followed by `'\n'`.
pub fn render(lines: &Vec<String>) -> (out: String)
    ensures
        out@ == render_lines(lines.deep_view()),
{
    let mut out = String::new();
    let n = lines.len();
    let mut i: usize = 0;
    while i < n
        invariant
            n == lines@.len(),
            i <= n,
            out@ == render_lines(lines.deep_view().subrange(0, i as int)),
        decreases n - i,
    {
        out.append(lines[i].as_str());
        out.append("\n");
        proof {
            reveal_strlit("\n");
            assert("\n"@ =~= seq!['\n']);
            lemma_render_lines_snoc(
                lines.deep_view().subrange(0, i as int),
                lines.deep_view()[i as int],
            );
            assert(lines.deep_view().subrange(0, i as int + 1) =~= lines.deep_view().subrange(
                0,
                i as int,
            ).push(lines.deep_view()[i as int]));
            assert(lines.deep_view()[i as int] == lines@[i as int]@);
        }
        i = i + 1;
    }
    proof {
        assert(lines.deep_view().subrange(0, n as int) =~= lines.deep_view());
    }
    out
}

} // verus!
