//! A file's text as the lines of the buffer, and the buffer back as text.

use vstd::prelude::*;
use crate::editor::lines_of;
use crate::text::{chars_of, push_char};

verus! {

/// A CR LF pair starts at `i`.
pub open spec fn crlf_at(s: Seq<char>, i: int) -> bool {
    0 <= i && i + 1 < s.len() && s[i] == '\r' && s[i + 1] == '\n'
}

/// The text holds a CR LF pair.
pub open spec fn has_crlf(s: Seq<char>) -> bool {
    exists|i: int| #[trigger] crlf_at(s, i)
}

/// The text with every CR LF pair written as a single LF.
pub open spec fn normalize_newlines(s: Seq<char>) -> Seq<char>
    decreases s.len(),
{
    if s.len() == 0 {
        s
    } else if s.len() >= 2 && s[s.len() - 2] == '\r' && s.last() == '\n' {
        normalize_newlines(s.take(s.len() - 2)).push('\n')
    } else {
        normalize_newlines(s.drop_last()).push(s.last())
    }
}

/// The pieces of a text between LF chars (one more piece than there are LFs).
pub open spec fn split_lines(s: Seq<char>) -> Seq<Seq<char>>
    decreases s.len(),
{
    if s.len() == 0 {
        seq![Seq::<char>::empty()]
    } else {
        let init = split_lines(s.drop_last());
        if s.last() == '\n' {
            init.push(Seq::<char>::empty())
        } else {
            init.update(init.len() - 1, init.last().push(s.last()))
        }
    }
}

/// The lines put together with `sep` between each two of them.
pub open spec fn join_with(lines: Seq<Seq<char>>, sep: Seq<char>) -> Seq<char>
    decreases lines.len(),
{
    if lines.len() == 0 {
        Seq::<char>::empty()
    } else if lines.len() == 1 {
        lines[0]
    } else {
        join_with(lines.drop_last(), sep) + sep + lines.last()
    }
}

/// The line break that a buffer is written with.
pub open spec fn line_break(crlf: bool) -> Seq<char> {
    if crlf {
        seq!['\r', '\n']
    } else {
        seq!['\n']
    }
}

pub proof fn lemma_split_lines_nonempty(s: Seq<char>)
    ensures
        split_lines(s).len() >= 1,
    decreases s.len(),
{
    if s.len() > 0 {
        lemma_split_lines_nonempty(s.drop_last());
    }
}

/// Normalizing `take(k)` from `take(k - 1)` or `take(k - 2)`.
proof fn lemma_normalize_step(s: Seq<char>, k: int)
    requires
        0 < k <= s.len(),
    ensures
        k >= 2 && s[k - 2] == '\r' && s[k - 1] == '\n' ==> normalize_newlines(s.take(k))
            == normalize_newlines(s.take(k - 2)).push('\n'),
        !(k >= 2 && s[k - 2] == '\r' && s[k - 1] == '\n') ==> normalize_newlines(s.take(k))
            == normalize_newlines(s.take(k - 1)).push(s[k - 1]),
{
    let t = s.take(k);
    if k >= 2 {
        assert(t.take(k - 2) =~= s.take(k - 2));
    }
    assert(t.drop_last() =~= s.take(k - 1));
}

/// Splitting a text with one more char at its end.
proof fn lemma_split_step(t: Seq<char>, c: char)
    ensures
        split_lines(t).len() >= 1,
        c == '\n' ==> split_lines(t.push(c)) == split_lines(t).push(Seq::<char>::empty()),
        c != '\n' ==> split_lines(t.push(c)) == split_lines(t).update(
            split_lines(t).len() - 1,
            split_lines(t).last().push(c),
        ),
{
    lemma_split_lines_nonempty(t);
    assert(t.push(c).drop_last() =~= t);
}

/// A CR LF pair in `s.take(k + 1)` is one in `s.take(k)` unless it ends at `k`.
proof fn lemma_crlf_step(s: Seq<char>, k: int)
    requires
        0 <= k < s.len(),
    ensures
        has_crlf(s.take(k + 1)) == (has_crlf(s.take(k)) || (k >= 1 && s[k - 1] == '\r' && s[k]
            == '\n')),
{
    let a = s.take(k);
    let b = s.take(k + 1);
    if has_crlf(a) {
        let i = choose|i: int| crlf_at(a, i);
        assert(crlf_at(b, i));
    }
    if k >= 1 && s[k - 1] == '\r' && s[k] == '\n' {
        assert(crlf_at(b, k - 1));
    }
    if has_crlf(b) {
        let i = choose|i: int| crlf_at(b, i);
        if i + 1 < k {
            assert(crlf_at(a, i));
        }
    }
}

/// Every LF of the text is the second char of a CR LF pair.
pub open spec fn crlf_only(s: Seq<char>) -> bool {
    forall|i: int| 0 <= i < s.len() && #[trigger] s[i] == '\n' ==> i >= 1 && s[i - 1] == '\r'
}

/// The text with every LF written as `sep`.
pub open spec fn replace_lf(t: Seq<char>, sep: Seq<char>) -> Seq<char>
    decreases t.len(),
{
    if t.len() == 0 {
        t
    } else if t.last() == '\n' {
        replace_lf(t.drop_last(), sep) + sep
    } else {
        replace_lf(t.drop_last(), sep).push(t.last())
    }
}

/// Joining the pieces of a text between LFs with `sep` writes each LF as `sep`.
proof fn lemma_join_split(t: Seq<char>, sep: Seq<char>)
    ensures
        join_with(split_lines(t), sep) == replace_lf(t, sep),
    decreases t.len(),
{
    if t.len() == 0 {
        assert(split_lines(t) =~= seq![Seq::<char>::empty()]);
    } else {
        let u = t.drop_last();
        let c = t.last();
        assert(u.push(c) =~= t);
        lemma_join_split(u, sep);
        lemma_split_step(u, c);
        let x = split_lines(u);
        if c == '\n' {
            let y = x.push(Seq::<char>::empty());
            assert(y.drop_last() =~= x);
            assert(join_with(y, sep) =~= join_with(x, sep) + sep);
        } else {
            let y = x.update(x.len() - 1, x.last().push(c));
            if x.len() == 1 {
                assert(join_with(x, sep) == x[0]);
                assert(join_with(y, sep) == y[0]);
                assert(join_with(y, sep) =~= join_with(x, sep).push(c));
            } else {
                assert(y.drop_last() =~= x.drop_last());
                assert(join_with(y, sep) =~= join_with(x, sep).push(c));
            }
        }
    }
}

proof fn lemma_replace_lf_by_lf(t: Seq<char>)
    ensures
        replace_lf(t, seq!['\n']) == t,
    decreases t.len(),
{
    if t.len() > 0 {
        lemma_replace_lf_by_lf(t.drop_last());
        assert(t.drop_last().push(t.last()) =~= t);
        assert(t.drop_last() + seq!['\n'] =~= t.drop_last().push('\n'));
    }
}

proof fn lemma_normalize_without_crlf(s: Seq<char>)
    requires
        !has_crlf(s),
    ensures
        normalize_newlines(s) == s,
    decreases s.len(),
{
    if s.len() > 0 {
        let u = s.drop_last();
        if s.len() >= 2 && s[s.len() - 2] == '\r' && s.last() == '\n' {
            assert(crlf_at(s, s.len() - 2));
        }
        assert forall|i: int| !crlf_at(u, i) by {
            if crlf_at(u, i) {
                assert(crlf_at(s, i));
            }
        }
        lemma_normalize_without_crlf(u);
        assert(u.push(s.last()) =~= s);
    }
}

proof fn lemma_expand_normalized(s: Seq<char>)
    requires
        crlf_only(s),
    ensures
        replace_lf(normalize_newlines(s), seq!['\r', '\n']) == s,
    decreases s.len(),
{
    let n = s.len() as int;
    if n > 0 {
        if n >= 2 && s[n - 2] == '\r' && s.last() == '\n' {
            let u = s.take(n - 2);
            assert forall|i: int| 0 <= i < u.len() && #[trigger] u[i] == '\n' implies i >= 1
                && u[i - 1] == '\r' by {
                assert(s[i] == '\n');
            }
            lemma_expand_normalized(u);
            let nu = normalize_newlines(u);
            assert(nu.push('\n').drop_last() =~= nu);
            assert(u + seq!['\r', '\n'] =~= s);
        } else {
            let u = s.drop_last();
            if s.last() == '\n' {
                assert(s[n - 1] == '\n');
            }
            assert forall|i: int| 0 <= i < u.len() && #[trigger] u[i] == '\n' implies i >= 1
                && u[i - 1] == '\r' by {
                assert(s[i] == '\n');
            }
            lemma_expand_normalized(u);
            let nu = normalize_newlines(u);
            assert(nu.push(s.last()).drop_last() =~= nu);
            assert(u.push(s.last()) =~= s);
        }
    }
}

/// No buffer line read from a text holds an LF.
pub proof fn lemma_parsed_lines_hold_no_lf(s: Seq<char>)
    ensures
        forall|i: int, j: int|
            0 <= i < split_lines(s).len() && 0 <= j < split_lines(s)[i].len() ==> #[trigger] split_lines(
                s,
            )[i][j] != '\n',
    decreases s.len(),
{
    if s.len() > 0 {
        let u = s.drop_last();
        lemma_parsed_lines_hold_no_lf(u);
        lemma_split_step(u, s.last());
        assert(u.push(s.last()) =~= s);
    }
}

/// Reading a text into lines and writing the lines back with the line break
/// that reading chose gives back the same text, when the text's line breaks
/// are all LF or all CR LF.
pub proof fn lemma_unedited_round_trip(text: Seq<char>)
    requires
        !has_crlf(text) || crlf_only(text),
    ensures
        join_with(split_lines(normalize_newlines(text)), line_break(has_crlf(text))) == text,
{
    let crlf = has_crlf(text);
    lemma_join_split(normalize_newlines(text), line_break(crlf));
    if !crlf {
        lemma_normalize_without_crlf(text);
        lemma_replace_lf_by_lf(text);
    } else {
        lemma_expand_normalized(text);
    }
}

/// Reads a file's text into buffer lines: the text is cut at each LF, a CR
/// LF pair counting as one LF, and the second result tells whether the text
/// held a CR LF pair (the line break to write it back with).
pub fn parse_text(text: &str) -> (r: (Vec<String>, bool))
    ensures
        lines_of(r.0@) == split_lines(normalize_newlines(text@)),
        r.1 == has_crlf(text@),
{
    let cs = chars_of(text);
    let n = cs.len();
    let mut lines: Vec<String> = Vec::new();
    let mut cur = String::new();
    let mut crlf = false;
    let mut i: usize = 0;
    proof {
        assert(cs@.take(0) =~= Seq::<char>::empty());
        assert(lines_of(lines@).push(cur@) =~= seq![Seq::<char>::empty()]);
        assert(!has_crlf(cs@.take(0)));
    }
    while i < n
        invariant
            n == cs@.len(),
            cs@ == text@,
            i <= n,
            lines_of(lines@).push(cur@) == split_lines(normalize_newlines(cs@.take(i as int))),
            crlf == has_crlf(cs@.take(i as int)),
            0 < i < n ==> !(cs@[i - 1] == '\r' && cs@[i as int] == '\n'),
        decreases n - i,
    {
        let c = cs[i];
        let ghost before = normalize_newlines(cs@.take(i as int));
        if c == '\r' && i + 1 < n && cs[i + 1] == '\n' {
            proof {
                lemma_normalize_step(cs@, i + 2);
                lemma_split_step(before, '\n');
                lemma_crlf_step(cs@, i as int);
                lemma_crlf_step(cs@, i + 1);
            }
            lines.push(cur);
            cur = String::new();
            crlf = true;
            i += 2;
            proof {
                assert(lines_of(lines@).push(cur@) =~= split_lines(before).push(
                    Seq::<char>::empty(),
                ));
            }
        } else {
            proof {
                lemma_normalize_step(cs@, i + 1);
                lemma_split_step(before, c);
                lemma_crlf_step(cs@, i as int);
            }
            if c == '\n' {
                lines.push(cur);
                cur = String::new();
                proof {
                    assert(lines_of(lines@).push(cur@) =~= split_lines(before).push(
                        Seq::<char>::empty(),
                    ));
                }
            } else {
                push_char(&mut cur, c);
                proof {
                    assert(lines_of(lines@).push(cur@) =~= split_lines(before).update(
                        split_lines(before).len() - 1,
                        split_lines(before).last().push(c),
                    ));
                }
            }
            i += 1;
        }
    }
    proof {
        assert(cs@.take(n as int) =~= cs@);
    }
    lines.push(cur);
    proof {
        assert(lines_of(lines@) =~= split_lines(normalize_newlines(text@)));
    }
    (lines, crlf)
}

/// The buffer as the text of a file: its lines with a line break between
/// each two of them, CR LF when `crlf` holds and LF otherwise.
pub fn join_lines(content: &Vec<String>, crlf: bool) -> (r: String)
    ensures
        r@ == join_with(lines_of(content@), line_break(crlf)),
{
    let sep = if crlf {
        "\r\n"
    } else {
        "\n"
    };
    proof {
        reveal_strlit("\r\n");
        reveal_strlit("\n");
        assert(sep@ =~= line_break(crlf));
    }
    let ghost lines = lines_of(content@);
    let mut out = String::new();
    let mut i: usize = 0;
    while i < content.len()
        invariant
            i <= content@.len(),
            lines == lines_of(content@),
            sep@ == line_break(crlf),
            out@ == join_with(lines.take(i as int), line_break(crlf)),
        decreases content@.len() - i,
    {
        proof {
            let t = lines.take(i + 1);
            assert(t.drop_last() =~= lines.take(i as int));
            assert(t.last() == lines[i as int]);
            if i == 0 {
                assert(lines.take(0) =~= Seq::<Seq<char>>::empty());
            }
        }
        if i != 0 {
            out.append(sep);
        }
        out.append(content[i].as_str());
        i += 1;
    }
    proof {
        assert(lines.take(content@.len() as int) =~= lines);
    }
    out
}

} // verus!
