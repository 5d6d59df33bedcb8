use vstd::prelude::*;

verus! {

use vstd::string::StringExecFns;
use vstd::string::StrSliceExecFns;

/// The Unicode `White_Space` characters, the set `str::trim` removes.
pub open spec fn is_ws_char(c: char) -> bool {
    let u = c as int;
    u == 0x09 || u == 0x0a || u == 0x0b || u == 0x0c || u == 0x0d || u == 0x20 || u == 0x85
        || u == 0xa0 || u == 0x1680 || (0x2000 <= u && u <= 0x200a) || u == 0x2028 || u == 0x2029
        || u == 0x202f || u == 0x205f || u == 0x3000
}

/// Whether `c` is whitespace, by the same table as `is_ws_char`.
pub fn char_is_ws(c: char) -> (r: bool)
    ensures
        r == is_ws_char(c),
{
    let u = c as u32;
    u == 0x09 || u == 0x0a || u == 0x0b || u == 0x0c || u == 0x0d || u == 0x20 || u == 0x85
        || u == 0xa0 || u == 0x1680 || (0x2000 <= u && u <= 0x200a) || u == 0x2028 || u == 0x2029
        || u == 0x202f || u == 0x205f || u == 0x3000
}

/// Index of the first character of `line` that is not whitespace, or
/// `line.len()` if the line is nothing but whitespace.
pub open spec fn first_non_ws(line: Seq<char>) -> int
    decreases line.len(),
{
    if line.len() == 0 {
        0
    } else if !is_ws_char(line[0]) {
        0
    } else {
        1 + first_non_ws(line.drop_first())
    }
}

/// A fence marker line: after any leading whitespace the line goes on with
/// three backticks, so its trimmed text starts with a triple-backtick fence.
pub open spec fn is_fence_line(line: Seq<char>) -> bool {
    let i = first_non_ws(line);
    i + 3 <= line.len() && line[i] == '`' && line[i + 1] == '`' && line[i + 2] == '`'
}

/// A blank line: nothing but whitespace (possibly empty).
pub open spec fn is_blank_line(line: Seq<char>) -> bool {
    forall|k: int| 0 <= k < line.len() ==> is_ws_char(line[k])
}

/// Position of the first `\n` in `s` at or after `i`, or `s.len()` if there
/// is none.
pub open spec fn find_newline(s: Seq<char>, i: int) -> int
    decreases s.len() - i,
{
    if i < 0 || i >= s.len() {
        s.len() as int
    } else if s[i] == '\n' {
        i
    } else {
        find_newline(s, i + 1)
    }
}

/// `find_newline` returns the position it is characterized by.
pub proof fn lemma_find_newline_is(s: Seq<char>, from: int, j: int)
    requires
        0 <= from <= j <= s.len(),
        forall|k: int| from <= k < j ==> s[k] != '\n',
        j == s.len() || s[j] == '\n',
    ensures
        find_newline(s, from) == j,
    decreases j - from,
{
    if from < j {
        lemma_find_newline_is(s, from + 1, j);
    }
}

/// `first_non_ws` returns the position it is characterized by.
pub proof fn lemma_first_non_ws_is(line: Seq<char>, m: int)
    requires
        0 <= m <= line.len(),
        forall|k: int| 0 <= k < m ==> is_ws_char(line[k]),
        m == line.len() || !is_ws_char(line[m]),
    ensures
        first_non_ws(line) == m,
    decreases line.len(),
{
    if line.len() == 0 {
    } else if m == 0 {
    } else {
        lemma_first_non_ws_is(line.drop_first(), m - 1);
    }
}

/// The lines of `s`: split at each `\n`, with a `\r` standing immediately
/// before the split removed, and with no empty final line when the text ends
/// in a line ending — the same division `str::lines` makes.
pub open spec fn line_seq(s: Seq<char>) -> Seq<Seq<char>>
    decreases s.len(),
{
    if s.len() == 0 {
        Seq::empty()
    } else {
        let j = find_newline(s, 0);
        if 0 <= j && j < s.len() {
            let content = if j >= 1 && s[j - 1] == '\r' {
                s.subrange(0, j - 1)
            } else {
                s.subrange(0, j)
            };
            seq![content] + line_seq(s.subrange(j + 1, s.len() as int))
        } else {
            seq![s]
        }
    }
}

/// The lines the sanitizer keeps, given the fence state at the first line:
/// fence marker lines are dropped and each toggles the state; inside a fence
/// blank lines are dropped too; every other line is kept verbatim.
pub open spec fn clean_lines(lines: Seq<Seq<char>>, in_fence: bool) -> Seq<Seq<char>>
    decreases lines.len(),
{
    if lines.len() == 0 {
        Seq::empty()
    } else if is_fence_line(lines[0]) {
        clean_lines(lines.drop_first(), !in_fence)
    } else if !in_fence || !is_blank_line(lines[0]) {
        seq![lines[0]] + clean_lines(lines.drop_first(), in_fence)
    } else {
        clean_lines(lines.drop_first(), in_fence)
    }
}

/// The given lines joined with single `\n` separators.
pub open spec fn join_lines(lines: Seq<Seq<char>>) -> Seq<char>
    decreases lines.len(),
{
    if lines.len() == 0 {
        Seq::empty()
    } else if lines.len() == 1 {
        lines[0]
    } else {
        lines[0] + seq!['\n'] + join_lines(lines.drop_first())
    }
}

/// What sanitizing `s` returns: the kept lines, joined with `\n`.
pub open spec fn clean_spec(s: Seq<char>) -> Seq<char> {
    join_lines(clean_lines(line_seq(s), false))
}

/// Appending one more line to a join adds a separator exactly when something
/// was joined already.
pub proof fn lemma_join_push(lines: Seq<Seq<char>>, l: Seq<char>)
    ensures
        join_lines(lines.push(l)) == if lines.len() == 0 {
            l
        } else {
            join_lines(lines) + seq!['\n'] + l
        },
    decreases lines.len(),
{
    if lines.len() == 0 {
        assert(lines.push(l) =~= seq![l]);
    } else {
        assert(lines.push(l).drop_first() =~= lines.drop_first().push(l));
        lemma_join_push(lines.drop_first(), l);
        if lines.len() == 1 {
            assert(lines.drop_first().len() == 0);
            assert(join_lines(lines.push(l)) == lines[0] + seq!['\n'] + l);
        }
    }
}

/// The lines that sanitizing `s` keeps, before they are joined again.
pub open spec fn kept_lines(s: Seq<char>) -> Seq<Seq<char>> {
    clean_lines(line_seq(s), false)
}

/// `find_newline` stays in bounds, skips no newline, and stops on one.
pub proof fn lemma_find_newline_props(s: Seq<char>, i: int)
    requires
        0 <= i <= s.len(),
    ensures
        i <= find_newline(s, i) <= s.len(),
        forall|k: int| i <= k < find_newline(s, i) ==> s[k] != '\n',
        find_newline(s, i) < s.len() ==> s[find_newline(s, i)] == '\n',
    decreases s.len() - i,
{
    if i < s.len() && s[i] != '\n' {
        lemma_find_newline_props(s, i + 1);
    }
}

/// No line that `line_seq` produces contains a `\n`.
pub proof fn lemma_line_seq_no_newline(s: Seq<char>)
    ensures
        forall|i: int, k: int|
            0 <= i < line_seq(s).len() && 0 <= k < line_seq(s)[i].len() ==> line_seq(s)[i][k]
                != '\n',
    decreases s.len(),
{
    if s.len() > 0 {
        lemma_find_newline_props(s, 0);
        let j = find_newline(s, 0);
        if 0 <= j && j < s.len() {
            let tail = s.subrange(j + 1, s.len() as int);
            lemma_line_seq_no_newline(tail);
            let content = if j >= 1 && s[j - 1] == '\r' {
                s.subrange(0, j - 1)
            } else {
                s.subrange(0, j)
            };
            assert(forall|k: int| 0 <= k < content.len() ==> content[k] == s[k]);
            assert(forall|i: int|
                1 <= i < line_seq(s).len() ==> line_seq(s)[i] == line_seq(tail)[i - 1]);
        }
    }
}

/// Every line the sanitizer keeps is a line of its input.
pub proof fn lemma_clean_lines_from_input(lines: Seq<Seq<char>>, f: bool)
    ensures
        forall|i: int|
            0 <= i < clean_lines(lines, f).len() ==> #[trigger] lines.contains(
                clean_lines(lines, f)[i],
            ),
    decreases lines.len(),
{
    if lines.len() > 0 {
        let tail = lines.drop_first();
        if is_fence_line(lines[0]) {
            lemma_clean_lines_from_input(tail, !f);
        } else {
            lemma_clean_lines_from_input(tail, f);
        }
        assert forall|i: int| 0 <= i < clean_lines(lines, f).len() implies #[trigger] lines
            .contains(clean_lines(lines, f)[i]) by {
            let l = clean_lines(lines, f)[i];
            if !is_fence_line(lines[0]) && (!f || !is_blank_line(lines[0])) && i == 0 {
                assert(lines[0] == l);
            } else {
                if is_fence_line(lines[0]) {
                    assert(l == clean_lines(tail, !f)[i]);
                    assert(tail.contains(l));
                } else if !f || !is_blank_line(lines[0]) {
                    assert(l == (seq![lines[0]] + clean_lines(tail, f))[i]);
                    assert(l == clean_lines(tail, f)[i - 1]);
                    assert(tail.contains(l));
                } else {
                    assert(l == clean_lines(tail, f)[i]);
                    assert(tail.contains(l));
                }
                let j = choose|j: int| 0 <= j < tail.len() && tail[j] == l;
                assert(lines[j + 1] == l);
            }
        }
    }
}

/// No line the sanitizer keeps is a fence marker line.
pub proof fn lemma_clean_no_fence_output(lines: Seq<Seq<char>>, f: bool)
    ensures
        forall|i: int|
            0 <= i < clean_lines(lines, f).len() ==> !is_fence_line(clean_lines(lines, f)[i]),
    decreases lines.len(),
{
    if lines.len() > 0 {
        let tail = lines.drop_first();
        if is_fence_line(lines[0]) {
            lemma_clean_no_fence_output(tail, !f);
            assert forall|i: int|
                0 <= i < clean_lines(lines, f).len() implies !is_fence_line(
                clean_lines(lines, f)[i],
            ) by {
                assert(clean_lines(lines, f)[i] == clean_lines(tail, !f)[i]);
                assert(!is_fence_line(clean_lines(tail, !f)[i]));
            }
        } else {
            lemma_clean_no_fence_output(tail, f);
            assert forall|i: int|
                0 <= i < clean_lines(lines, f).len() implies !is_fence_line(
                clean_lines(lines, f)[i],
            ) by {
                if !f || !is_blank_line(lines[0]) {
                    if i > 0 {
                        assert(clean_lines(lines, f)[i] == clean_lines(tail, f)[i - 1]);
                        assert(!is_fence_line(clean_lines(tail, f)[i - 1]));
                    }
                } else {
                    assert(clean_lines(lines, f)[i] == clean_lines(tail, f)[i]);
                    assert(!is_fence_line(clean_lines(tail, f)[i]));
                }
            }
        }
    }
}

/// On input with no fence marker lines, the sanitizer keeps every line:
/// outside a fence even blank lines stay.
pub proof fn lemma_clean_keeps_all(lines: Seq<Seq<char>>)
    requires
        forall|i: int| 0 <= i < lines.len() ==> !is_fence_line(lines[i]),
    ensures
        clean_lines(lines, false) == lines,
    decreases lines.len(),
{
    if lines.len() > 0 {
        lemma_clean_keeps_all(lines.drop_first());
        assert(seq![lines[0]] + lines.drop_first() =~= lines);
    }
}

/// Splitting a join recovers the lines, provided no line holds a `\n`, no
/// line but the last ends in `\r` (a `\r` right before a separator would be
/// taken for part of a `\r\n` line ending), and the last line is not empty
/// (a trailing empty line would vanish behind the final separator).
pub proof fn lemma_lines_of_join(lines: Seq<Seq<char>>)
    requires
        lines.len() >= 1,
        forall|i: int, k: int|
            0 <= i < lines.len() && 0 <= k < lines[i].len() ==> lines[i][k] != '\n',
        forall|i: int|
            0 <= i < lines.len() - 1 && lines[i].len() > 0 ==> lines[i][lines[i].len() - 1]
                != '\r',
        lines[lines.len() - 1].len() > 0,
    ensures
        line_seq(join_lines(lines)) == lines,
    decreases lines.len(),
{
    let joined = join_lines(lines);
    if lines.len() == 1 {
        lemma_find_newline_is(joined, 0, joined.len() as int);
        assert(line_seq(joined) =~= lines);
    } else {
        let a = lines[0];
        let tail = lines.drop_first();
        let jt = join_lines(tail);
        assert(joined == a + seq!['\n'] + jt);
        assert(forall|k: int| 0 <= k < a.len() ==> joined[k] == a[k]);
        assert(joined[a.len() as int] == '\n');
        lemma_find_newline_is(joined, 0, a.len() as int);
        let j = a.len() as int;
        if j >= 1 {
            assert(joined[j - 1] == a[j - 1]);
            assert(joined[j - 1] != '\r');
        }
        assert(joined.subrange(0, j) =~= a);
        assert(joined.subrange(j + 1, joined.len() as int) =~= jt);
        lemma_lines_of_join(tail);
        assert(line_seq(joined) == seq![a] + line_seq(jt));
        assert(seq![a] + tail =~= lines);
    }
}

/// Law: the sanitizer is idempotent.  A first pass removes every fence
/// marker, so a second pass toggles no fence state and keeps every line.
/// The law holds unless rejoining the kept lines with `\n` would itself
/// change the line division: a kept line before the end that ends in `\r`,
/// or an empty kept line at the end of several, are the only inputs left
/// out.
pub proof fn lemma_clean_idempotent(s: Seq<char>)
    requires
        forall|i: int|
            0 <= i < kept_lines(s).len() - 1 && kept_lines(s)[i].len() > 0 ==> kept_lines(
                s,
            )[i][kept_lines(s)[i].len() - 1] != '\r',
        kept_lines(s).len() >= 2 ==> kept_lines(s)[kept_lines(s).len() - 1].len() > 0,
    ensures
        clean_spec(clean_spec(s)) == clean_spec(s),
{
    let kept = kept_lines(s);
    if kept.len() == 0 || (kept.len() == 1 && kept[0].len() == 0) {
        assert(clean_spec(s) =~= Seq::<char>::empty());
        assert(line_seq(Seq::<char>::empty()) =~= Seq::<Seq<char>>::empty());
        assert(clean_spec(clean_spec(s)) =~= Seq::<char>::empty());
    } else {
        lemma_clean_lines_from_input(line_seq(s), false);
        lemma_line_seq_no_newline(s);
        assert forall|i: int, k: int|
            0 <= i < kept.len() && 0 <= k < kept[i].len() implies kept[i][k] != '\n' by {
            assert(line_seq(s).contains(kept[i]));
            let j = choose|j: int| 0 <= j < line_seq(s).len() && line_seq(s)[j] == kept[i];
            assert(line_seq(s)[j][k] != '\n');
        }
        lemma_lines_of_join(kept);
        lemma_clean_no_fence_output(line_seq(s), false);
        lemma_clean_keeps_all(kept);
    }
}

/// Number of fence marker lines among the first `i` lines.
pub open spec fn fence_count(lines: Seq<Seq<char>>, i: int) -> nat
    decreases i,
{
    if i <= 0 {
        0
    } else {
        fence_count(lines, i - 1) + if is_fence_line(lines[i - 1]) {
            1nat
        } else {
            0nat
        }
    }
}

/// Whether line `i` lies strictly inside a fence, when the state before the
/// first line is `f`: each fence marker before it toggles the state.
pub open spec fn inside_fence_at(lines: Seq<Seq<char>>, f: bool, i: int) -> bool {
    f != (fence_count(lines, i) % 2 == 1)
}

/// Whether line `i` survives sanitizing: it is no fence marker, and is not a
/// blank line strictly inside a fence.
pub open spec fn kept_at(lines: Seq<Seq<char>>, f: bool, i: int) -> bool {
    !is_fence_line(lines[i]) && (!inside_fence_at(lines, f, i) || !is_blank_line(lines[i]))
}

/// Number of surviving lines among the first `i`.
pub open spec fn kept_count(lines: Seq<Seq<char>>, f: bool, i: int) -> nat
    decreases i,
{
    if i <= 0 {
        0
    } else {
        kept_count(lines, f, i - 1) + if kept_at(lines, f, i - 1) {
            1nat
        } else {
            0nat
        }
    }
}

/// The fence state after the first line.
pub open spec fn step_state(lines: Seq<Seq<char>>, f: bool) -> bool {
    if is_fence_line(lines[0]) {
        !f
    } else {
        f
    }
}

proof fn lemma_fence_count_shift(lines: Seq<Seq<char>>, i: int)
    requires
        1 <= i <= lines.len(),
    ensures
        fence_count(lines, i) == fence_count(lines.drop_first(), i - 1) + if is_fence_line(
            lines[0],
        ) {
            1nat
        } else {
            0nat
        },
    decreases i,
{
    if i == 1 {
        assert(fence_count(lines, 0) == 0);
        assert(fence_count(lines.drop_first(), 0) == 0);
    } else {
        lemma_fence_count_shift(lines, i - 1);
        assert(lines.drop_first()[i - 2] == lines[i - 1]);
        assert(fence_count(lines.drop_first(), i - 1) == fence_count(lines.drop_first(), i - 2)
            + if is_fence_line(lines.drop_first()[i - 2]) {
            1nat
        } else {
            0nat
        });
    }
}

proof fn lemma_kept_at_shift(lines: Seq<Seq<char>>, f: bool, i: int)
    requires
        1 <= i < lines.len(),
    ensures
        kept_at(lines, f, i) == kept_at(lines.drop_first(), step_state(lines, f), i - 1),
{
    lemma_fence_count_shift(lines, i);
    let m = fence_count(lines.drop_first(), i - 1);
    if is_fence_line(lines[0]) {
        assert((m + 1) % 2 == 1 <==> m % 2 == 0);
    }
    assert(lines.drop_first()[i - 1] == lines[i]);
}

proof fn lemma_kept_count_shift(lines: Seq<Seq<char>>, f: bool, i: int)
    requires
        1 <= i <= lines.len(),
    ensures
        kept_count(lines, f, i) == kept_count(lines.drop_first(), step_state(lines, f), i - 1)
            + if kept_at(lines, f, 0) {
            1nat
        } else {
            0nat
        },
    decreases i,
{
    let tail = lines.drop_first();
    let f2 = step_state(lines, f);
    if i == 1 {
        assert(kept_count(lines, f, 0) == 0);
        assert(kept_count(tail, f2, 0) == 0);
    } else {
        lemma_kept_count_shift(lines, f, i - 1);
        lemma_kept_at_shift(lines, f, i - 1);
        assert(kept_count(tail, f2, i - 1) == kept_count(tail, f2, i - 2) + if kept_at(
            tail,
            f2,
            i - 2,
        ) {
            1nat
        } else {
            0nat
        });
    }
}

/// Counting kept lines never goes down.
pub proof fn lemma_kept_count_monotone(lines: Seq<Seq<char>>, f: bool, i: int, j: int)
    requires
        i <= j,
    ensures
        kept_count(lines, f, i) <= kept_count(lines, f, j),
    decreases j - i,
{
    if i < j {
        lemma_kept_count_monotone(lines, f, i, j - 1);
    }
}

/// Law: the sanitizer keeps, in order, exactly the lines that are neither
/// fence markers nor blank lines strictly inside a fence, and nothing else:
/// the output has one line per surviving input line, standing at the
/// position given by the number of surviving lines before it; lines outside
/// a fence — blank or not — survive verbatim.
pub proof fn lemma_clean_lines_characterized(lines: Seq<Seq<char>>, f: bool)
    ensures
        clean_lines(lines, f).len() == kept_count(lines, f, lines.len() as int),
        forall|i: int|
            0 <= i < lines.len() && #[trigger] kept_at(lines, f, i) ==> kept_count(lines, f, i)
                < clean_lines(lines, f).len() && clean_lines(lines, f)[kept_count(
                lines,
                f,
                i,
            ) as int] == lines[i],
    decreases lines.len(),
{
    if lines.len() == 0 {
    } else {
        let tail = lines.drop_first();
        let f2 = step_state(lines, f);
        lemma_clean_lines_characterized(tail, f2);
        lemma_kept_count_shift(lines, f, lines.len() as int);
        assert(fence_count(lines, 0) == 0);
        assert forall|i: int|
            0 <= i < lines.len() && #[trigger] kept_at(lines, f, i) implies kept_count(
            lines,
            f,
            i,
        ) < clean_lines(lines, f).len() && clean_lines(lines, f)[kept_count(lines, f, i) as int]
            == lines[i] by {
            lemma_kept_count_monotone(lines, f, i + 1, lines.len() as int);
            if i == 0 {
                assert(kept_at(lines, f, 0));
                assert(clean_lines(lines, f) == seq![lines[0]] + clean_lines(tail, f2));
            } else {
                lemma_kept_at_shift(lines, f, i);
                lemma_kept_count_shift(lines, f, i);
                assert(tail[i - 1] == lines[i]);
                if kept_at(lines, f, 0) {
                    assert(clean_lines(lines, f) == seq![lines[0]] + clean_lines(tail, f2));
                    assert(clean_lines(lines, f)[1 + kept_count(tail, f2, i - 1) as int] == clean_lines(
                        tail,
                        f2,
                    )[kept_count(tail, f2, i - 1) as int]);
                }
            }
        }
    }
}

/// Law over whole texts: sanitizing `s` keeps exactly the surviving lines of
/// `s`, in their original order and at their counted positions.
pub proof fn lemma_sanitizer_line_filter(s: Seq<char>)
    ensures
        kept_lines(s).len() == kept_count(line_seq(s), false, line_seq(s).len() as int),
        forall|i: int|
            0 <= i < line_seq(s).len() && #[trigger] kept_at(line_seq(s), false, i) ==> kept_count(
                line_seq(s),
                false,
                i,
            ) < kept_lines(s).len() && kept_lines(s)[kept_count(line_seq(s), false, i) as int]
                == line_seq(s)[i],
{
    lemma_clean_lines_characterized(line_seq(s), false);
}

/// Finds the first `\n` of `s` at or after `from`.
fn scan_newline(s: &str, from: usize, n: usize) -> (j: usize)
    requires
        n == s@.len(),
        from <= n,
    ensures
        from <= j <= n,
        forall|k: int| from <= k < j ==> s@[k] != '\n',
        j == n || s@[j as int] == '\n',
        j == find_newline(s@, from as int),
{
    let mut j: usize = from;
    while j < n && s.get_char(j) != '\n'
        invariant
            from <= j <= n,
            n == s@.len(),
            forall|k: int| from <= k < j ==> s@[k] != '\n',
        decreases n - j,
    {
        j = j + 1;
    }
    proof {
        lemma_find_newline_is(s@, from as int, j as int);
    }
    j
}

/// Whether the characters of `s` from `start` to `end` form a fence marker
/// line.
fn line_is_fence(s: &str, start: usize, end: usize) -> (r: bool)
    requires
        start <= end <= s@.len(),
    ensures
        r == is_fence_line(s@.subrange(start as int, end as int)),
{
    let mut i: usize = start;
    while i < end && char_is_ws(s.get_char(i))
        invariant
            start <= i <= end <= s@.len(),
            forall|k: int| start <= k < i ==> is_ws_char(s@[k]),
        decreases end - i,
    {
        i = i + 1;
    }
    proof {
        let line = s@.subrange(start as int, end as int);
        assert(forall|k: int| 0 <= k < i - start ==> is_ws_char(line[k]));
        lemma_first_non_ws_is(line, i - start as int);
    }
    if end - i >= 3 {
        let r = s.get_char(i) == '`' && s.get_char(i + 1) == '`' && s.get_char(i + 2) == '`';
        proof {
            let line = s@.subrange(start as int, end as int);
            assert(line[i - start] == s@[i as int]);
            assert(line[i - start + 1] == s@[i as int + 1]);
            assert(line[i - start + 2] == s@[i as int + 2]);
        }
        r
    } else {
        false
    }
}

/// Whether the characters of `s` from `start` to `end` form a blank line.
fn line_is_blank(s: &str, start: usize, end: usize) -> (r: bool)
    requires
        start <= end <= s@.len(),
    ensures
        r == is_blank_line(s@.subrange(start as int, end as int)),
{
    let mut i: usize = start;
    while i < end && char_is_ws(s.get_char(i))
        invariant
            start <= i <= end <= s@.len(),
            forall|k: int| start <= k < i ==> is_ws_char(s@[k]),
        decreases end - i,
    {
        i = i + 1;
    }
    if i == end {
        proof {
            let line = s@.subrange(start as int, end as int);
            assert(forall|k: int| 0 <= k < line.len() ==> is_ws_char(line[k]));
        }
        true
    } else {
        proof {
            let line = s@.subrange(start as int, end as int);
            assert(!is_ws_char(line[i - start]));
        }
        false
    }
}

/// Strips the delimiter fences a language model may wrap code in: lines whose
/// trimmed text starts with a triple backtick are removed and toggle a fence
/// state, blank lines inside a fence are removed too, and every other line —
/// including blank lines outside a fence — is kept verbatim, joined back with
/// `\n`.  An unterminated fence is tolerated: the text after the last marker
/// is treated according to the final state.
pub fn clean_llm_output(output: &str) -> (r: String)
    ensures
        r@ == clean_spec(output@),
{
    let n = output.unicode_len();
    let mut out = String::new();
    let mut any_kept = false;
    let mut in_fence = false;
    let mut pos: usize = 0;
    let ghost s = output@;
    let ghost mut kept: Seq<Seq<char>> = Seq::empty();
    proof {
        reveal_strlit("\n");
        assert(s.subrange(0, n as int) =~= s);
        assert(kept + clean_lines(line_seq(s), false) =~= clean_lines(line_seq(s), false));
    }
    while pos < n
        invariant
            n == s.len(),
            s == output@,
            pos <= n,
            clean_lines(line_seq(s), false) == kept + clean_lines(
                line_seq(s.subrange(pos as int, n as int)),
                in_fence,
            ),
            out@ == join_lines(kept),
            any_kept == (kept.len() > 0),
            "\n"@ == seq!['\n'],
        decreases n - pos,
    {
        let ghost rest = s.subrange(pos as int, n as int);
        let j = scan_newline(output, pos, n);
        let content_end: usize = if j < n && j > pos && output.get_char(j - 1) == '\r' {
            j - 1
        } else {
            j
        };
        proof {
            // The scan over `s` finds the same split point inside `rest`.
            assert(forall|k: int| 0 <= k < j - pos ==> rest[k] == s[pos + k] && s[pos + k] != '\n');
            if j < n {
                assert(rest[j - pos] == s[j as int]);
            }
            lemma_find_newline_is(rest, 0, j - pos);
            assert(s.subrange(pos as int, content_end as int) =~= rest.subrange(
                0,
                content_end - pos,
            ));
            if j < n {
                assert(s.subrange(j + 1, n as int) =~= rest.subrange(j + 1 - pos, rest.len() as int));
                assert(line_seq(rest) == seq![rest.subrange(0, content_end - pos)] + line_seq(
                    s.subrange(j + 1, n as int),
                ));
            } else {
                assert(rest =~= rest.subrange(0, content_end - pos));
                assert(line_seq(rest) == seq![rest]);
            }
        }
        let ghost line = s.subrange(pos as int, content_end as int);
        let ghost tail_lines = if j < n {
            line_seq(s.subrange(j + 1, n as int))
        } else {
            Seq::<Seq<char>>::empty()
        };
        proof {
            assert(line_seq(rest) == seq![line] + tail_lines);
            assert((seq![line] + tail_lines)[0] == line);
            assert((seq![line] + tail_lines).drop_first() =~= tail_lines);
        }
        if line_is_fence(output, pos, content_end) {
            in_fence = !in_fence;
            proof {
                assert(clean_lines(line_seq(rest), !in_fence) == clean_lines(
                    tail_lines,
                    in_fence,
                ));
            }
        } else if !in_fence || !line_is_blank(output, pos, content_end) {
            proof {
                assert(clean_lines(line_seq(rest), in_fence) == seq![line] + clean_lines(
                    tail_lines,
                    in_fence,
                ));
                assert(kept + (seq![line] + clean_lines(tail_lines, in_fence)) =~= kept.push(line)
                    + clean_lines(tail_lines, in_fence));
                lemma_join_push(kept, line);
            }
            if any_kept {
                out.append("\n");
            }
            out.append(output.substring_char(pos, content_end));
            any_kept = true;
            proof {
                kept = kept.push(line);
            }
        } else {
            proof {
                assert(clean_lines(line_seq(rest), in_fence) == clean_lines(
                    tail_lines,
                    in_fence,
                ));
            }
        }
        pos = if j < n {
            j + 1
        } else {
            n
        };
        proof {
            if pos < n || j < n {
                assert(line_seq(s.subrange(pos as int, n as int)) == tail_lines);
            } else {
                assert(s.subrange(pos as int, n as int) =~= Seq::<char>::empty());
                assert(line_seq(s.subrange(pos as int, n as int)) =~= tail_lines);
            }
        }
    }
    proof {
        assert(s.subrange(pos as int, n as int) =~= Seq::<char>::empty());
        assert(clean_lines(line_seq(s), false) == kept);
    }
    out
}

} // verus!
