use vstd::prelude::*;

verus! {

/// The characters the description splitter treats as word separators.
pub open spec fn is_space(c: char) -> bool {
    c == ' ' || c == '\n' || c == '\t' || c == '\r'
}

fn is_space_exec(c: char) -> (r: bool)
    ensures
        r == is_space(c),
{
    c == ' ' || c == '\n' || c == '\t' || c == '\r'
}

/// The words of `s` from position `i` on, the run `cur` of word characters
/// read so far still open.
pub open spec fn split_from(s: Seq<char>, i: int, cur: Seq<char>) -> Seq<Seq<char>>
    decreases s.len() - i,
{
    if i < 0 || i >= s.len() {
        if cur.len() == 0 {
            seq![]
        } else {
            seq![cur]
        }
    } else if is_space(s[i]) {
        if cur.len() == 0 {
            split_from(s, i + 1, seq![])
        } else {
            seq![cur] + split_from(s, i + 1, seq![])
        }
    } else {
        split_from(s, i + 1, cur.push(s[i]))
    }
}

/// The whitespace-separated words of `s`.
pub open spec fn split_words(s: Seq<char>) -> Seq<Seq<char>> {
    split_from(s, 0, seq![])
}

/// Every word the splitter produces is nonempty.
pub proof fn lemma_split_from_nonempty(s: Seq<char>, i: int, cur: Seq<char>)
    ensures
        forall|k: int|
            0 <= k < split_from(s, i, cur).len() ==> #[trigger] split_from(s, i, cur)[k].len()
                >= 1,
    decreases s.len() - i,
{
    if i < 0 || i >= s.len() {
    } else if is_space(s[i]) {
        lemma_split_from_nonempty(s, i + 1, seq![]);
        if cur.len() > 0 {
            let r = seq![cur] + split_from(s, i + 1, seq![]);
            assert(split_from(s, i, cur) == r);
            assert forall|k: int| 0 <= k < r.len() implies #[trigger] r[k].len() >= 1 by {
                if k > 0 {
                    assert(r[k] == split_from(s, i + 1, seq![])[k - 1]);
                } else {
                    assert(r[0] == cur);
                }
            }
        } else {
            assert(split_from(s, i, cur) == split_from(s, i + 1, seq![]));
        }
    } else {
        lemma_split_from_nonempty(s, i + 1, cur.push(s[i]));
        assert(split_from(s, i, cur) == split_from(s, i + 1, cur.push(s[i])));
    }
}

/// Greedy wrapping of the words `ws` from index `i` on, with `cur` the line
/// under construction: a word is added to the open line when it fits within
/// `width` together with one separating space, and otherwise starts a new
/// line.
pub open spec fn wrap_go(ws: Seq<Seq<char>>, i: int, cur: Seq<char>, width: int) -> Seq<
    Seq<char>,
>
    decreases ws.len() - i,
{
    if i < 0 || i >= ws.len() {
        if cur.len() == 0 {
            seq![]
        } else {
            seq![cur]
        }
    } else if cur.len() == 0 {
        wrap_go(ws, i + 1, ws[i], width)
    } else if cur.len() + 1 + ws[i].len() <= width {
        wrap_go(ws, i + 1, cur + seq![' '] + ws[i], width)
    } else {
        seq![cur] + wrap_go(ws, i + 1, ws[i], width)
    }
}

/// The greedy wrapping of the word list `ws` at `width` characters.
pub open spec fn wrap_words(ws: Seq<Seq<char>>, width: int) -> Seq<Seq<char>> {
    wrap_go(ws, 0, seq![], width)
}

/// The word or line list joined by single spaces.
pub open spec fn join_space(xs: Seq<Seq<char>>) -> Seq<char>
    decreases xs.len(),
{
    if xs.len() == 0 {
        seq![]
    } else if xs.len() == 1 {
        xs[0]
    } else {
        xs[0] + seq![' '] + join_space(xs.drop_first())
    }
}

proof fn lemma_join_cons(x: Seq<char>, xs: Seq<Seq<char>>)
    ensures
        xs.len() == 0 ==> join_space(seq![x] + xs) == x,
        xs.len() > 0 ==> join_space(seq![x] + xs) == x + seq![' '] + join_space(xs),
{
    let c = seq![x] + xs;
    assert(c[0] == x);
    if xs.len() == 0 {
        assert(c.len() == 1);
    } else {
        assert(c.drop_first() =~= xs);
    }
}

proof fn lemma_wrap_go_nonempty(ws: Seq<Seq<char>>, i: int, cur: Seq<char>, width: int)
    requires
        cur.len() > 0,
    ensures
        wrap_go(ws, i, cur, width).len() >= 1,
    decreases ws.len() - i,
{
    if i < 0 || i >= ws.len() {
    } else if cur.len() + 1 + ws[i].len() <= width {
        lemma_wrap_go_nonempty(ws, i + 1, cur + seq![' '] + ws[i], width);
    } else {
    }
}

proof fn lemma_wrap_go_bounds(ws: Seq<Seq<char>>, i: int, cur: Seq<char>, width: int)
    requires
        1 <= width,
        forall|k: int| i <= k < ws.len() ==> 1 <= #[trigger] ws[k].len() <= width,
        cur.len() <= width,
    ensures
        forall|j: int|
            0 <= j < wrap_go(ws, i, cur, width).len() ==> 1 <= #[trigger] wrap_go(
                ws,
                i,
                cur,
                width,
            )[j].len() <= width,
    decreases ws.len() - i,
{
    let r = wrap_go(ws, i, cur, width);
    if i < 0 || i >= ws.len() {
    } else if cur.len() == 0 {
        lemma_wrap_go_bounds(ws, i + 1, ws[i], width);
        assert(r == wrap_go(ws, i + 1, ws[i], width));
    } else if cur.len() + 1 + ws[i].len() <= width {
        lemma_wrap_go_bounds(ws, i + 1, cur + seq![' '] + ws[i], width);
        assert(r == wrap_go(ws, i + 1, cur + seq![' '] + ws[i], width));
    } else {
        lemma_wrap_go_bounds(ws, i + 1, ws[i], width);
        let rest = wrap_go(ws, i + 1, ws[i], width);
        assert(r == seq![cur] + rest);
        assert forall|j: int| 0 <= j < r.len() implies 1 <= #[trigger] r[j].len()
            <= width by {
            if j > 0 {
                assert(r[j] == rest[j - 1]);
            } else {
                assert(r[0] == cur);
            }
        }
    }
}

proof fn lemma_wrap_go_join(ws: Seq<Seq<char>>, i: int, cur: Seq<char>, width: int)
    requires
        0 <= i <= ws.len(),
        forall|k: int| i <= k < ws.len() ==> #[trigger] ws[k].len() >= 1,
    ensures
        cur.len() == 0 ==> join_space(wrap_go(ws, i, cur, width)) == join_space(ws.skip(i)),
        cur.len() > 0 ==> join_space(wrap_go(ws, i, cur, width)) == join_space(
            seq![cur] + ws.skip(i),
        ),
    decreases ws.len() - i,
{
    let r = wrap_go(ws, i, cur, width);
    if i >= ws.len() {
        assert(ws.skip(i) =~= Seq::<Seq<char>>::empty());
        if cur.len() > 0 {
            lemma_join_cons(cur, Seq::<Seq<char>>::empty());
            assert(seq![cur] + ws.skip(i) =~= seq![cur]);
        }
    } else {
        assert(ws.skip(i)[0] == ws[i]);
        assert(ws.skip(i).drop_first() =~= ws.skip(i + 1));
        assert(ws.skip(i) =~= seq![ws[i]] + ws.skip(i + 1));
        lemma_join_cons(ws[i], ws.skip(i + 1));
        if cur.len() == 0 {
            lemma_wrap_go_join(ws, i + 1, ws[i], width);
            assert(r == wrap_go(ws, i + 1, ws[i], width));
            assert(join_space(r) == join_space(seq![ws[i]] + ws.skip(i + 1)));
        } else if cur.len() + 1 + ws[i].len() <= width {
            let cur2 = cur + seq![' '] + ws[i];
            lemma_wrap_go_join(ws, i + 1, cur2, width);
            assert(r == wrap_go(ws, i + 1, cur2, width));
            lemma_join_cons(cur2, ws.skip(i + 1));
            lemma_join_cons(cur, ws.skip(i));
            if ws.skip(i + 1).len() == 0 {
                assert(join_space(r) == cur2);
                assert(join_space(seq![ws[i]] + ws.skip(i + 1)) == ws[i]);
                assert(join_space(seq![cur] + ws.skip(i)) == cur + seq![' '] + join_space(
                    ws.skip(i),
                ));
                assert(join_space(seq![cur] + ws.skip(i)) =~= cur2);
            } else {
                assert(join_space(r) == cur2 + seq![' '] + join_space(ws.skip(i + 1)));
                assert(join_space(ws.skip(i)) == ws[i] + seq![' '] + join_space(
                    ws.skip(i + 1),
                ));
                assert(join_space(seq![cur] + ws.skip(i)) == cur + seq![' '] + join_space(
                    ws.skip(i),
                ));
                assert(join_space(seq![cur] + ws.skip(i)) =~= cur2 + seq![' ']
                    + join_space(ws.skip(i + 1)));
            }
        } else {
            lemma_wrap_go_join(ws, i + 1, ws[i], width);
            let rest = wrap_go(ws, i + 1, ws[i], width);
            assert(r == seq![cur] + rest);
            lemma_wrap_go_nonempty(ws, i + 1, ws[i], width);
            lemma_join_cons(cur, rest);
            assert(join_space(r) == cur + seq![' '] + join_space(rest));
            assert(join_space(rest) == join_space(seq![ws[i]] + ws.skip(i + 1)));
            lemma_join_cons(cur, ws.skip(i));
            assert(join_space(seq![cur] + ws.skip(i)) == cur + seq![' '] + join_space(
                ws.skip(i),
            ));
        }
    }
}

/// The word-wrap law: when a description is exactly the single-space joining
/// of its own words and no word is longer than the width, every wrapped line
/// stays within the width, and stripping the line structure — joining the
/// lines back with single spaces — restores the description.
pub proof fn lemma_description_wrap(d: Seq<char>, width: int)
    requires
        1 <= width,
        d == join_space(split_words(d)),
        forall|k: int|
            0 <= k < split_words(d).len() ==> #[trigger] split_words(d)[k].len() <= width,
    ensures
        forall|j: int|
            0 <= j < wrap_words(split_words(d), width).len() ==> #[trigger] wrap_words(
                split_words(d),
                width,
            )[j].len() <= width,
        join_space(wrap_words(split_words(d), width)) == d,
{
    let ws = split_words(d);
    lemma_split_from_nonempty(d, 0, seq![]);
    lemma_wrap_go_bounds(ws, 0, seq![], width);
    lemma_wrap_go_join(ws, 0, seq![], width);
    assert(ws.skip(0) =~= ws);
}

/// Splits a string into its whitespace-separated words.
pub fn split_whitespace_chars(s: &str) -> (r: Vec<String>)
    ensures
        r@.map_values(|w: String| w@) == split_words(s@),
{
    let n = s.unicode_len();
    let mut words: Vec<String> = Vec::new();
    let mut i: usize = 0;
    let mut start: usize = 0;
    let mut in_word = false;
    while i < n
        invariant
            n == s@.len(),
            0 <= i <= n,
            in_word ==> start < i,
            split_words(s@) == words@.map_values(|w: String| w@) + split_from(
                s@,
                i as int,
                if in_word {
                    s@.subrange(start as int, i as int)
                } else {
                    Seq::<char>::empty()
                },
            ),
        decreases n - i,
    {
        let ghost cur: Seq<char> = if in_word {
            s@.subrange(start as int, i as int)
        } else {
            Seq::<char>::empty()
        };
        let c = s.get_char(i);
        if is_space_exec(c) {
            if in_word {
                let w = s.substring_char(start, i).to_owned();
                proof {
                    assert(cur.len() > 0);
                    assert((words@.push(w)).map_values(|w: String| w@) =~= words@.map_values(
                        |w: String| w@,
                    ).push(w@));
                    assert(words@.map_values(|w: String| w@) + (seq![cur] + split_from(
                        s@,
                        i + 1,
                        seq![],
                    )) =~= words@.map_values(|w: String| w@).push(cur) + split_from(
                        s@,
                        i + 1,
                        seq![],
                    ));
                }
                words.push(w);
                in_word = false;
            }
        } else {
            if !in_word {
                start = i;
                in_word = true;
                assert(s@.subrange(i as int, i + 1) =~= cur.push(s@[i as int]));
            } else {
                assert(s@.subrange(start as int, i + 1) =~= cur.push(s@[i as int]));
            }
        }
        i += 1;
    }
    if in_word {
        let w = s.substring_char(start, n).to_owned();
        proof {
            let cur = s@.subrange(start as int, n as int);
            assert(cur.len() > 0);
            assert((words@.push(w)).map_values(|w: String| w@) =~= words@.map_values(
                |w: String| w@,
            ).push(w@));
            assert(words@.map_values(|w: String| w@) + seq![cur] =~= words@.map_values(
                |w: String| w@,
            ).push(cur));
        }
        words.push(w);
    }
    words
}

/// Wraps `s` into lines of at most `width` characters, breaking between
/// whitespace-separated words; a word longer than `width` stands on a line
/// of its own.
pub fn split_by_chars(s: &str, width: usize) -> (r: Vec<String>)
    requires
        1 <= width,
    ensures
        r@.map_values(|l: String| l@) == wrap_words(split_words(s@), width as int),
{
    let words = split_whitespace_chars(s);
    let ghost wsv = words@.map_values(|w: String| w@);
    let mut lines: Vec<String> = Vec::new();
    let mut line: String = String::new();
    let mut llen: usize = 0;
    let mut i: usize = 0;
    while i < words.len()
        invariant
            1 <= width,
            wsv == words@.map_values(|w: String| w@),
            0 <= i <= words@.len(),
            llen == line@.len(),
            wrap_words(wsv, width as int) == lines@.map_values(|l: String| l@) + wrap_go(
                wsv,
                i as int,
                line@,
                width as int,
            ),
        decreases words@.len() - i,
    {
        let ghost cur = line@;
        let w = &words[i];
        let wlen = w.unicode_len();
        proof {
            assert(wsv[i as int] == words@[i as int]@);
        }
        if llen == 0 {
            line = w.clone();
            llen = wlen;
        } else if llen < width && wlen <= width - 1 - llen {
            line.append(" ");
            line.append(w.as_str());
            proof {
                reveal_strlit(" ");
                assert(" "@ =~= seq![' ']);
                assert(line@ =~= cur + seq![' '] + wsv[i as int]);
            }
            llen = llen + 1 + wlen;
        } else {
            proof {
                assert(!(cur.len() + 1 + wsv[i as int].len() <= width as int));
                assert((lines@.push(line)).map_values(|l: String| l@) =~= lines@.map_values(
                    |l: String| l@,
                ).push(cur));
                assert(lines@.map_values(|l: String| l@) + (seq![cur] + wrap_go(
                    wsv,
                    i + 1,
                    wsv[i as int],
                    width as int,
                )) =~= lines@.map_values(|l: String| l@).push(cur) + wrap_go(
                    wsv,
                    i + 1,
                    wsv[i as int],
                    width as int,
                ));
            }
            lines.push(line);
            line = w.clone();
            llen = wlen;
        }
        i += 1;
    }
    if llen > 0 {
        proof {
            assert((lines@.push(line)).map_values(|l: String| l@) =~= lines@.map_values(
                |l: String| l@,
            ).push(line@));
            assert(lines@.map_values(|l: String| l@) + seq![line@] =~= lines@.map_values(
                |l: String| l@,
            ).push(line@));
        }
        lines.push(line);
    }
    proof {
        assert(lines@.map_values(|l: String| l@) + Seq::<Seq<char>>::empty()
            =~= lines@.map_values(|l: String| l@));
    }
    lines
}

} // verus!
