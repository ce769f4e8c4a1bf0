//! Text as lines: the lines of a text, and the text of a sequence of lines.

use vstd::prelude::*;

verus! {

/// The character that ends a row of the texture text and of a frame.
pub const LINE_BREAK: char = '\n';

/// Number of line breaks in `text`.
pub open spec fn line_breaks(text: Seq<char>) -> nat
    decreases text.len(),
{
    if text.len() == 0 {
        0
    } else if text.last() == LINE_BREAK {
        line_breaks(text.drop_last()) + 1
    } else {
        line_breaks(text.drop_last())
    }
}

/// Number of characters of `text` that stand before its first line break: all
/// of them where it has none.
pub open spec fn first_line_break(text: Seq<char>) -> nat
    decreases text.len(),
{
    if text.len() == 0 || text.first() == LINE_BREAK {
        0
    } else {
        1 + first_line_break(text.drop_first())
    }
}

/// The characters of `text` that follow its last line break: all of `text`
/// where it has none.
pub open spec fn open_line(text: Seq<char>) -> Seq<char>
    decreases text.len(),
{
    if text.len() == 0 || text.last() == LINE_BREAK {
        Seq::empty()
    } else {
        open_line(text.drop_last()).push(text.last())
    }
}

/// The lines of `text` in order, each without the line break that ends it.
/// What follows the last line break is no line.
pub open spec fn lines_of(text: Seq<char>) -> Seq<Seq<char>>
    decreases text.len(),
{
    if text.len() == 0 {
        Seq::empty()
    } else if text.last() == LINE_BREAK {
        lines_of(text.drop_last()).push(open_line(text.drop_last()))
    } else {
        lines_of(text.drop_last())
    }
}

/// The text made of `lines`, each followed by a line break.
pub open spec fn joined(lines: Seq<Seq<char>>) -> Seq<char>
    decreases lines.len(),
{
    if lines.len() == 0 {
        Seq::empty()
    } else {
        joined(lines.drop_last()) + lines.last().push(LINE_BREAK)
    }
}

/// No character of `line` is a line break.
pub open spec fn unbroken(line: Seq<char>) -> bool {
    forall|c: int| 0 <= c < line.len() ==> #[trigger] line[c] != LINE_BREAK
}

/// Neither a line of `text` nor what follows its last line break holds a
/// line break.
pub proof fn lemma_lines_hold_no_break(text: Seq<char>)
    ensures
        unbroken(open_line(text)),
        forall|r: int| 0 <= r < lines_of(text).len() ==> unbroken(#[trigger] lines_of(text)[r]),
    decreases text.len(),
{
    if text.len() > 0 {
        let front = text.drop_last();
        lemma_lines_hold_no_break(front);
        assert forall|c: int| 0 <= c < open_line(text).len() implies #[trigger] open_line(text)[c]
            != LINE_BREAK by {
            if c < open_line(front).len() {
                assert(open_line(text)[c] == open_line(front)[c]);
            }
        }
        assert forall|r: int| 0 <= r < lines_of(text).len() implies unbroken(
            #[trigger] lines_of(text)[r],
        ) by {
            if r < lines_of(front).len() {
                assert(lines_of(text)[r] == lines_of(front)[r]);
            } else {
                assert(lines_of(text)[r] == open_line(front));
            }
        }
    }
}

/// A text has as many lines as it has line breaks.
pub proof fn lemma_line_count(text: Seq<char>)
    ensures
        lines_of(text).len() == line_breaks(text),
    decreases text.len(),
{
    if text.len() > 0 {
        lemma_line_count(text.drop_last());
    }
}

/// A text is its lines, each with its line break, followed by what is left
/// after the last line break.
pub proof fn lemma_text_is_lines_joined(text: Seq<char>)
    ensures
        joined(lines_of(text)) + open_line(text) == text,
    decreases text.len(),
{
    if text.len() > 0 {
        let front = text.drop_last();
        lemma_text_is_lines_joined(front);
        if text.last() == LINE_BREAK {
            let lines = lines_of(text);
            assert(lines.drop_last() == lines_of(front));
            assert(lines.last() == open_line(front));
            assert(joined(lines) + open_line(text) == (joined(lines_of(front)) + open_line(
                front,
            )).push(LINE_BREAK));
        } else {
            assert(joined(lines_of(text)) + open_line(text) == (joined(lines_of(front))
                + open_line(front)).push(text.last()));
        }
        assert(front.push(text.last()) == text);
    }
}

/// The first line of a text is what stands before its first line break.
pub proof fn lemma_first_line(text: Seq<char>, at: int)
    requires
        0 <= at < text.len(),
        text[at] == LINE_BREAK,
        unbroken(text.take(at)),
    ensures
        lines_of(text).len() > 0,
        lines_of(text)[0] == text.take(at),
    decreases text.len(),
{
    let front = text.drop_last();
    if at == text.len() - 1 {
        assert(front == text.take(at));
        lemma_unbroken_is_one_open_line(front);
    } else {
        assert(front.take(at) == text.take(at));
        lemma_first_line(front, at);
    }
}

/// The first line of a text with a line break is as long as the text is up to
/// its first line break.
pub proof fn lemma_first_line_length(text: Seq<char>)
    requires
        line_breaks(text) > 0,
    ensures
        lines_of(text).len() > 0,
        lines_of(text)[0] == text.take(first_line_break(text) as int),
        lines_of(text)[0].len() == first_line_break(text),
{
    lemma_first_line_break(text);
    let at = first_line_break(text) as int;
    if at == text.len() {
        assert(text.take(at) == text);
        lemma_unbroken_is_one_open_line(text);
        lemma_line_count(text);
    } else {
        lemma_first_line(text, at);
    }
}

/// Up to the place that `first_line_break` gives there is no line break, and
/// at that place there is one, unless the text ends there.
pub proof fn lemma_first_line_break(text: Seq<char>)
    ensures
        first_line_break(text) <= text.len(),
        unbroken(text.take(first_line_break(text) as int)),
        first_line_break(text) < text.len() ==> text[first_line_break(text) as int] == LINE_BREAK,
    decreases text.len(),
{
    if text.len() > 0 && text.first() != LINE_BREAK {
        let rest = text.drop_first();
        lemma_first_line_break(rest);
        let at = first_line_break(rest) as int;
        assert forall|c: int| 0 <= c < at + 1 implies #[trigger] text.take(at + 1)[c]
            != LINE_BREAK by {
            if c > 0 {
                assert(text.take(at + 1)[c] == rest.take(at)[c - 1]);
            }
        }
    }
}

/// A text without a line break has no line, and all of it is still open.
pub proof fn lemma_unbroken_is_one_open_line(text: Seq<char>)
    requires
        unbroken(text),
    ensures
        lines_of(text).len() == 0,
        open_line(text) == text,
    decreases text.len(),
{
    if text.len() > 0 {
        lemma_unbroken_is_one_open_line(text.drop_last());
        assert(text.drop_last().push(text.last()) == text);
    }
}

/// Writing lines out and reading them back gives the same lines, where no
/// line holds a line break.
pub proof fn lemma_lines_of_joined(lines: Seq<Seq<char>>)
    requires
        forall|r: int| 0 <= r < lines.len() ==> unbroken(#[trigger] lines[r]),
    ensures
        lines_of(joined(lines)) == lines,
        open_line(joined(lines)) == Seq::<char>::empty(),
        line_breaks(joined(lines)) == lines.len(),
    decreases lines.len(),
{
    if lines.len() > 0 {
        let front = lines.drop_last();
        lemma_lines_of_joined(front);
        lemma_lines_after_unbroken(joined(front), lines.last());
        let text = joined(lines);
        assert(text.drop_last() == joined(front) + lines.last());
        assert(front.push(lines.last()) == lines);
        lemma_line_count(text);
    } else {
        lemma_line_count(joined(lines));
    }
}

/// Characters other than line breaks, put behind a text, leave its lines as
/// they are and lengthen what is open.
pub proof fn lemma_lines_after_unbroken(text: Seq<char>, more: Seq<char>)
    requires
        unbroken(more),
    ensures
        lines_of(text + more) == lines_of(text),
        open_line(text + more) == open_line(text) + more,
    decreases more.len(),
{
    if more.len() == 0 {
        assert(text + more == text);
        assert(open_line(text) + more == open_line(text));
    } else {
        let less = more.drop_last();
        lemma_lines_after_unbroken(text, less);
        assert((text + more).drop_last() == text + less);
        assert((text + more).last() == more.last());
        assert((open_line(text) + less).push(more.last()) == open_line(text) + more);
    }
}

/// Counts the line breaks of `text`.
pub fn count_line_breaks(text: &Vec<char>) -> (count: usize)
    ensures
        count == line_breaks(text@),
{
    let mut count: usize = 0;
    let mut at: usize = 0;
    while at < text.len()
        invariant
            at <= text.len(),
            count == line_breaks(text@.take(at as int)),
            count <= at,
        decreases text.len() - at,
    {
        proof {
            let seen = text@.take(at + 1);
            assert(seen.drop_last() == text@.take(at as int));
            assert(seen.last() == text[at as int]);
        }
        if text[at] == LINE_BREAK {
            count += 1;
        }
        at += 1;
    }
    assert(text@.take(text.len() as int) == text@);
    count
}

} // verus!
