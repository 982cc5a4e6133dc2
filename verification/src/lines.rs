//! The lines of a text.

use vstd::prelude::*;

verus! {

/// How many characters stand behind the last line break of `text`; all of them where it has
/// no line break.
pub open spec fn last_line_len(text: Seq<char>) -> nat
    decreases text.len(),
{
    if text.len() == 0 || text.last() == '\n' {
        0
    } else {
        1 + last_line_len(text.drop_last())
    }
}

/// The lines of `text`: the runs of characters between its line breaks, in order. A text
/// with `n` line breaks has `n + 1` lines, the last of them what stands behind the last
/// break, and any of them may be empty.
pub open spec fn lines(text: Seq<char>) -> Seq<Seq<char>>
    decreases text.len(),
{
    let n = last_line_len(text);
    if n >= text.len() {
        seq![text]
    } else {
        lines(text.take(text.len() - n - 1)).push(text.skip(text.len() - n))
    }
}

/// The lines with a line break between each two of them.
pub open spec fn joined(lines: Seq<Seq<char>>) -> Seq<char>
    decreases lines.len(),
{
    if lines.len() == 0 {
        Seq::empty()
    } else if lines.len() == 1 {
        lines[0]
    } else {
        joined(lines.drop_last()) + seq!['\n'] + lines.last()
    }
}

/// `from` is where the last line of `text` begins: no line break stands at or behind it,
/// and it is the front of the text or stands right behind a line break.
pub open spec fn begins_last_line(text: Seq<char>, from: int) -> bool {
    &&& 0 <= from <= text.len()
    &&& forall|k: int| from <= k < text.len() ==> #[trigger] text[k] != '\n'
    &&& from > 0 ==> text[from - 1] == '\n'
}

/// The last line is as long as what stands behind the place where it begins.
pub proof fn lemma_last_line_len(text: Seq<char>, from: int)
    requires
        begins_last_line(text, from),
    ensures
        last_line_len(text) == text.len() - from,
    decreases text.len() - from,
{
    if from < text.len() {
        let front = text.drop_last();
        assert(text.last() == text[text.len() - 1]);
        assert forall|k: int| from <= k < front.len() implies #[trigger] front[k] != '\n' by {
            assert(front[k] == text[k]);
        }
        if from > 0 {
            assert(front[from - 1] == text[from - 1]);
        }
        lemma_last_line_len(front, from);
    } else if text.len() > 0 {
        assert(text.last() == text[from - 1]);
    }
}

/// The lines of a text are the lines before its last line break, then its last line.
pub proof fn lemma_lines_end(text: Seq<char>, from: int)
    requires
        begins_last_line(text, from),
    ensures
        lines(text) == if from == 0 {
            seq![text]
        } else {
            lines(text.take(from - 1)).push(text.skip(from))
        },
{
    lemma_last_line_len(text, from);
}

/// The last line of a text holds no line break.
pub proof fn lemma_last_line_begins(text: Seq<char>)
    ensures
        last_line_len(text) <= text.len(),
        begins_last_line(text, text.len() - last_line_len(text)),
    decreases text.len(),
{
    if text.len() > 0 && text.last() != '\n' {
        let front = text.drop_last();
        lemma_last_line_begins(front);
        let from = front.len() - last_line_len(front);
        assert forall|k: int| from <= k < text.len() implies #[trigger] text[k] != '\n' by {
            if k < front.len() {
                assert(front[k] == text[k]);
            }
        }
        if from > 0 {
            assert(front[from - 1] == text[from - 1]);
        }
    }
}

/// No line holds a line break, and the lines joined by line breaks are the text again.
pub proof fn lemma_lines_partition(text: Seq<char>)
    ensures
        lines(text).len() >= 1,
        forall|i: int, k: int|
            0 <= i < lines(text).len() && 0 <= k < lines(text)[i].len() ==> #[trigger] lines(
                text,
            )[i][k] != '\n',
        joined(lines(text)) == text,
    decreases text.len(),
{
    lemma_last_line_begins(text);
    let n = last_line_len(text);
    let from = text.len() - n;
    let last = text.skip(from);
    assert forall|k: int| 0 <= k < last.len() implies #[trigger] last[k] != '\n' by {
        assert(last[k] == text[from + k]);
    }
    if n < text.len() {
        let front = text.take(from - 1);
        lemma_lines_partition(front);
        let all = lines(text);
        assert(all == lines(front).push(last));
        assert(all.drop_last() =~= lines(front));
        assert forall|i: int, k: int| 0 <= i < all.len() && 0 <= k < all[i].len() implies #[trigger] all[i][k]
            != '\n' by {
            if i < lines(front).len() {
                assert(all[i] == lines(front)[i]);
            }
        }
        assert(joined(all) =~= front + seq!['\n'] + last);
        assert(front + seq!['\n'] + last =~= text);
    }
}

/// Splits `text` into its lines.
pub fn split_lines<'a>(text: &'a str) -> (found: Vec<&'a str>)
    ensures
        found.deep_view() == lines(text@),
{
    let total = text.unicode_len();
    let mut found: Vec<&'a str> = Vec::new();
    let mut start: usize = 0;
    let mut at: usize = 0;
    assert(found.deep_view() =~= Seq::<Seq<char>>::empty());
    for c in it: text.chars()
        invariant
            it.seq() == text@,
            total == text@.len(),
            at == it.index(),
            begins_last_line(text@.take(at as int), start as int),
            found.deep_view() == if start == 0 {
                Seq::<Seq<char>>::empty()
            } else {
                lines(text@.take(start - 1))
            },
    {
        let ghost before = text@.take(at as int);
        let ghost after = text@.take(at + 1);
        if c == '\n' {
            let line = text.substring_char(start, at);
            let ghost had = found.deep_view();
            found.push(line);
            proof {
                lemma_lines_end(before, start as int);
                assert(before.skip(start as int) =~= text@.subrange(start as int, at as int));
                if start > 0 {
                    assert(before.take(start - 1) =~= text@.take(start - 1));
                }
                assert(found.deep_view() =~= had.push(line@));
                assert(Seq::<Seq<char>>::empty().push(before) =~= seq![before]);
                assert(after.take(at as int) =~= before);
            }
            start = at + 1;
        } else {
            proof {
                assert forall|k: int| start <= k < after.len() implies #[trigger] after[k]
                    != '\n' by {
                    if k < at {
                        assert(after[k] == before[k]);
                    }
                }
                if start > 0 {
                    assert(after[start - 1] == before[start - 1]);
                }
            }
        }
        at = at + 1;
    }
    let line = text.substring_char(start, total);
    let ghost had = found.deep_view();
    found.push(line);
    proof {
        assert(text@.take(total as int) =~= text@);
        lemma_lines_end(text@, start as int);
        assert(text@.skip(start as int) =~= text@.subrange(start as int, total as int));
        assert(found.deep_view() =~= had.push(line@));
        assert(Seq::<Seq<char>>::empty().push(text@) =~= seq![text@]);
    }
    found
}

} // verus!
