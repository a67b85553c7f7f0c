use vstd::prelude::*;

verus! {

/// The character sequences of a list of strings, in order.
pub open spec fn views_of(ss: Seq<String>) -> Seq<Seq<char>> {
    ss.map_values(|s: String| s@)
}

/// The text of the edit buffer for the first `n` paths: each path followed by
/// a newline, in input order.
pub open spec fn render_text(paths: Seq<Seq<char>>, n: int) -> Seq<char>
    decreases n,
{
    if n <= 0 {
        Seq::empty()
    } else {
        render_text(paths, n - 1) + paths[n - 1] + seq!['\n']
    }
}

/// One trailing carriage return is dropped from a line that was ended by a
/// newline, so that text written with CRLF line endings reads back cleanly.
pub open spec fn strip_cr(line: Seq<char>) -> Seq<char> {
    if line.len() > 0 && line[line.len() - 1] == '\r' {
        line.drop_last()
    } else {
        line
    }
}

/// Splitting text into lines, carrying the current unfinished line in `cur`:
/// a newline ends a line (dropping one carriage return just before it), and a
/// nonempty final fragment without a newline counts as a line of its own.
pub open spec fn split_acc(s: Seq<char>, cur: Seq<char>) -> Seq<Seq<char>>
    decreases s.len(),
{
    if s.len() == 0 {
        if cur.len() == 0 {
            Seq::empty()
        } else {
            seq![cur]
        }
    } else if s[0] == '\n' {
        seq![strip_cr(cur)] + split_acc(s.drop_first(), Seq::empty())
    } else {
        split_acc(s.drop_first(), cur.push(s[0]))
    }
}

/// The lines of `s`, as a line-oriented reader yields them.
pub open spec fn split_lines(s: Seq<char>) -> Seq<Seq<char>> {
    split_acc(s, Seq::empty())
}

/// Peeling the first path off the rendered text: the buffer for `n` paths is
/// the first path, a newline, and the buffer for the remaining paths.
proof fn lemma_render_front(paths: Seq<Seq<char>>, n: int)
    requires
        1 <= n <= paths.len(),
    ensures
        render_text(paths, n) == paths[0] + seq!['\n'] + render_text(
            paths.subrange(1, paths.len() as int),
            n - 1,
        ),
    decreases n,
{
    let tail = paths.subrange(1, paths.len() as int);
    if n == 1 {
        assert(render_text(paths, 0) == Seq::<char>::empty());
        assert(render_text(tail, 0) == Seq::<char>::empty());
        assert(render_text(paths, 1) =~= paths[0] + seq!['\n'] + render_text(tail, 0));
    } else {
        lemma_render_front(paths, n - 1);
        assert(tail[n - 2] == paths[n - 1]);
        assert(render_text(paths, n) =~= paths[0] + seq!['\n'] + (render_text(tail, n - 2) + tail[n
            - 2] + seq!['\n']));
    }
}

/// Reading text that starts with a newline-terminated line: the line is
/// closed (appended to whatever was accumulated) and reading goes on from the
/// rest with an empty accumulator.
proof fn lemma_split_acc_line(p: Seq<char>, rest: Seq<char>, cur: Seq<char>)
    requires
        !p.contains('\n'),
    ensures
        split_acc(p + seq!['\n'] + rest, cur) == seq![strip_cr(cur + p)] + split_acc(
            rest,
            Seq::empty(),
        ),
    decreases p.len(),
{
    let s = p + seq!['\n'] + rest;
    if p.len() == 0 {
        assert(s[0] == '\n');
        assert(s.drop_first() =~= rest);
        assert(cur + p =~= cur);
    } else {
        assert(p[0] != '\n');
        assert(s[0] == p[0]);
        assert(s.drop_first() =~= p.drop_first() + seq!['\n'] + rest);
        assert(!p.drop_first().contains('\n')) by {
            assert(forall|k: int|
                0 <= k < p.drop_first().len() ==> p.drop_first()[k] == p[k + 1]);
        }
        lemma_split_acc_line(p.drop_first(), rest, cur.push(p[0]));
        assert(cur.push(p[0]) + p.drop_first() =~= cur + p);
    }
}

/// Round trip: rendering paths into the edit buffer and splitting the text
/// back into lines reproduces exactly the original paths, in order, provided
/// no path contains a newline and none ends with a carriage return.
pub proof fn lemma_buffer_round_trip(paths: Seq<Seq<char>>)
    requires
        forall|k: int| 0 <= k < paths.len() ==> !(#[trigger] paths[k]).contains('\n'),
        forall|k: int|
            0 <= k < paths.len() && (#[trigger] paths[k]).len() > 0 ==> paths[k][paths[k].len()
                - 1] != '\r',
    ensures
        split_lines(render_text(paths, paths.len() as int)) == paths,
    decreases paths.len(),
{
    if paths.len() == 0 {
        assert(split_lines(render_text(paths, 0)) =~= paths);
    } else {
        let tail = paths.subrange(1, paths.len() as int);
        lemma_render_front(paths, paths.len() as int);
        lemma_split_acc_line(paths[0], render_text(tail, tail.len() as int), Seq::empty());
        assert(Seq::<char>::empty() + paths[0] =~= paths[0]);
        assert(strip_cr(paths[0]) == paths[0]);
        lemma_buffer_round_trip(tail);
        assert(seq![paths[0]] + tail =~= paths);
    }
}

/// The edit buffer contents for `paths`: one line per path, in order.
pub fn render_contents(paths: &Vec<String>) -> (s: String)
    ensures
        s@ == render_text(views_of(paths@), paths@.len() as int),
{
    let mut s = String::new();
    let mut i: usize = 0;
    while i < paths.len()
        invariant
            i <= paths@.len(),
            s@ == render_text(views_of(paths@), i as int),
        decreases paths@.len() - i,
    {
        s.append(paths[i].as_str());
        s.append("\n");
        proof {
            reveal_strlit("\n");
            assert(("\n")@ =~= seq!['\n']);
            assert(views_of(paths@)[i as int] == paths@[i as int]@);
        }
        i = i + 1;
    }
    s
}

/// The lines of `text`, each as an owned string, in order.
pub fn parse_lines(text: &str) -> (lines: Vec<String>)
    ensures
        views_of(lines@) == split_lines(text@),
{
    let n = text.unicode_len();
    let mut lines: Vec<String> = Vec::new();
    let mut st: usize = 0;
    let mut i: usize = 0;
    proof {
        assert(text@.subrange(0, n as int) =~= text@);
        assert(views_of(lines@) =~= Seq::<Seq<char>>::empty());
        assert(views_of(lines@) + split_acc(text@, text@.subrange(0, 0)) =~= split_acc(
            text@,
            text@.subrange(0, 0),
        ));
        assert(text@.subrange(0, 0) =~= Seq::<char>::empty());
    }
    while i < n
        invariant
            st <= i <= n,
            n == text@.len(),
            forall|k: int| st <= k < i ==> text@[k] != '\n',
            split_lines(text@) == views_of(lines@) + split_acc(
                text@.subrange(i as int, n as int),
                text@.subrange(st as int, i as int),
            ),
        decreases n - i,
    {
        let ghost rem = text@.subrange(i as int, n as int);
        let ghost cur = text@.subrange(st as int, i as int);
        let c = text.get_char(i);
        if c == '\n' {
            let end = if i > st && text.get_char(i - 1) == '\r' {
                i - 1
            } else {
                i
            };
            let line = text.substring_char(st, end);
            let owned = String::from_str(line);
            proof {
                assert(rem[0] == '\n');
                assert(rem.drop_first() =~= text@.subrange(i + 1, n as int));
                assert(strip_cr(cur) =~= text@.subrange(st as int, end as int));
                assert(split_acc(rem, cur) == seq![strip_cr(cur)] + split_acc(
                    text@.subrange(i + 1, n as int),
                    Seq::empty(),
                ));
                assert(views_of(lines@.push(owned)) =~= views_of(lines@).push(owned@));
                assert(text@.subrange(i + 1, i + 1) =~= Seq::<char>::empty());
                assert(views_of(lines@).push(owned@) + split_acc(
                    text@.subrange(i + 1, n as int),
                    Seq::empty(),
                ) =~= views_of(lines@) + split_acc(rem, cur));
            }
            lines.push(owned);
            st = i + 1;
        } else {
            proof {
                assert(rem[0] == text@[i as int]);
                assert(rem.drop_first() =~= text@.subrange(i + 1, n as int));
                assert(cur.push(text@[i as int]) =~= text@.subrange(st as int, i + 1));
                assert(split_acc(rem, cur) == split_acc(
                    text@.subrange(i + 1, n as int),
                    text@.subrange(st as int, i + 1),
                ));
            }
        }
        i = i + 1;
    }
    let ghost cur = text@.subrange(st as int, n as int);
    proof {
        assert(text@.subrange(n as int, n as int) =~= Seq::<char>::empty());
    }
    if st < n {
        let line = text.substring_char(st, n);
        let owned = String::from_str(line);
        proof {
            assert(cur.len() > 0);
            assert(split_acc(Seq::empty(), cur) =~= seq![cur]);
            assert(views_of(lines@.push(owned)) =~= views_of(lines@).push(owned@));
            assert(views_of(lines@).push(owned@) =~= views_of(lines@) + seq![cur]);
        }
        lines.push(owned);
    } else {
        proof {
            assert(cur.len() == 0);
            assert(split_acc(Seq::empty(), cur) =~= Seq::<Seq<char>>::empty());
            assert(views_of(lines@) + Seq::<Seq<char>>::empty() =~= views_of(lines@));
        }
    }
    lines
}

} // verus!
