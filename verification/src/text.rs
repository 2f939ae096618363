//! Reading the line of a program's output that is worth showing.

use vstd::prelude::*;
use vstd::string::*;

verus! {

/// Whether a character has the Unicode property `White_Space`.
pub open spec fn white_space(c: char) -> bool {
    let n = c as u32;
    ||| 0x9 <= n <= 0xd
    ||| n == 0x20
    ||| n == 0x85
    ||| n == 0xa0
    ||| n == 0x1680
    ||| 0x2000 <= n <= 0x200a
    ||| n == 0x2028
    ||| n == 0x2029
    ||| n == 0x202f
    ||| n == 0x205f
    ||| n == 0x3000
}

/// Whether a text is nothing but white space.
pub open spec fn blank(text: Seq<char>) -> bool {
    forall|i: int| 0 <= i < text.len() ==> white_space(#[trigger] text[i])
}

/// A text without the white space at its two ends.
pub open spec fn trimmed(text: Seq<char>) -> Seq<char>
    decreases text.len(),
{
    if text.len() == 0 {
        text
    } else if white_space(text[0]) {
        trimmed(text.drop_first())
    } else if white_space(text.last()) {
        trimmed(text.drop_last())
    } else {
        text
    }
}

/// Where the first line of a text ends: at its first line feed, or with it.
pub open spec fn line_end(text: Seq<char>) -> int
    decreases text.len(),
{
    if text.len() == 0 || text[0] == '\n' {
        0
    } else {
        1 + line_end(text.drop_first())
    }
}

/// The first line that is not blank, trimmed. A carriage return before a line
/// feed is white space, so no line keeps one.
pub open spec fn first_line_of(text: Seq<char>) -> Option<Seq<char>>
    decreases text.len(),
{
    let end = line_end(text);
    if !blank(text.take(end)) {
        Some(trimmed(text.take(end)))
    } else if 0 <= end < text.len() {
        first_line_of(text.skip(end + 1))
    } else {
        None
    }
}

/// Whether a character is white space.
pub fn is_white_space(c: char) -> (white: bool)
    ensures
        white == white_space(c),
{
    let n: u32 = c as u32;
    (0x9 <= n && n <= 0xd) || n == 0x20 || n == 0x85 || n == 0xa0 || n == 0x1680 || (0x2000 <= n
        && n <= 0x200a) || n == 0x2028 || n == 0x2029 || n == 0x202f || n == 0x205f || n == 0x3000
}

/// The characters of a text.
fn chars_of(text: &str) -> (chars: Vec<char>)
    ensures
        chars@ == text@,
{
    let mut chars: Vec<char> = Vec::new();
    for c in it: text.chars()
        invariant
            it.seq() == text@,
            chars@ == it.seq().take(it.index()),
    {
        chars.push(c);
    }
    assert(text@.take(text@.len() as int) == text@);
    chars
}

/// The first line of `text` that is not blank, trimmed.
pub fn first_line(text: &str) -> (line: Option<String>)
    ensures
        line.deep_view() == first_line_of(text@),
{
    let chars: Vec<char> = chars_of(text);
    let mut start: usize = 0;
    assert(text@.skip(0) == text@);
    loop
        invariant
            chars@ == text@,
            start <= chars@.len(),
            first_line_of(text@) == first_line_of(text@.skip(start as int)),
        decreases chars@.len() - start,
    {
        let ghost rest = text@.skip(start as int);
        let mut end: usize = start;
        while end < chars.len() && chars[end] != '\n'
            invariant
                chars@ == text@,
                start <= end <= chars@.len(),
                forall|i: int| start <= i < end ==> #[trigger] chars@[i] != '\n',
            decreases chars@.len() - end,
        {
            end = end + 1;
        }
        let ghost line = rest.take(end - start);
        proof {
            lemma_line_end(rest, end - start);
        }
        let mut from: usize = start;
        while from < end && is_white_space(chars[from])
            invariant
                chars@ == text@,
                start <= from <= end <= chars@.len(),
                forall|i: int| start <= i < from ==> white_space(#[trigger] chars@[i]),
            decreases end - from,
        {
            from = from + 1;
        }
        if from < end {
            let mut to: usize = end;
            while is_white_space(chars[to - 1])
                invariant
                    chars@ == text@,
                    start <= from < to <= end <= chars@.len(),
                    !white_space(chars@[from as int]),
                    forall|i: int| to <= i < end ==> white_space(#[trigger] chars@[i]),
                decreases to,
            {
                to = to - 1;
            }
            proof {
                assert(!white_space(line[from - start]));
                assert(!white_space(line[to - start - 1]));
                assert forall|i: int| 0 <= i < from - start implies white_space(
                    #[trigger] line[i],
                ) by {
                    assert(line[i] == chars@[start + i]);
                }
                assert forall|i: int| to - start <= i < line.len() implies white_space(
                    #[trigger] line[i],
                ) by {
                    assert(line[i] == chars@[start + i]);
                }
                lemma_trimmed(line, from - start, to - start);
                assert(line.subrange(from - start, to - start) == text@.subrange(
                    from as int,
                    to as int,
                ));
            }
            return Some(text.substring_char(from, to).to_owned());
        }
        proof {
            assert forall|i: int| 0 <= i < line.len() implies white_space(#[trigger] line[i]) by {
                assert(line[i] == chars@[start + i]);
            }
        }
        if end == chars.len() {
            return None;
        }
        assert(rest.skip(end - start + 1) == text@.skip(end + 1));
        start = end + 1;
    }
}

proof fn lemma_line_end(text: Seq<char>, end: int)
    requires
        0 <= end <= text.len(),
        forall|i: int| 0 <= i < end ==> #[trigger] text[i] != '\n',
        end < text.len() ==> text[end] == '\n',
    ensures
        line_end(text) == end,
    decreases text.len(),
{
    if end > 0 {
        assert(text[0] != '\n');
        assert forall|i: int| 0 <= i < end - 1 implies #[trigger] text.drop_first()[i]
            != '\n' by {
            assert(text.drop_first()[i] == text[i + 1]);
        }
        lemma_line_end(text.drop_first(), end - 1);
    }
}

proof fn lemma_trimmed(text: Seq<char>, from: int, to: int)
    requires
        0 <= from < to <= text.len(),
        forall|i: int| 0 <= i < from ==> white_space(#[trigger] text[i]),
        forall|i: int| to <= i < text.len() ==> white_space(#[trigger] text[i]),
        !white_space(text[from]),
        !white_space(text[to - 1]),
    ensures
        trimmed(text) == text.subrange(from, to),
    decreases text.len(),
{
    if from > 0 {
        let rest = text.drop_first();
        assert(white_space(text[0]));
        assert forall|i: int| 0 <= i < from - 1 implies white_space(#[trigger] rest[i]) by {
            assert(rest[i] == text[i + 1]);
        }
        assert forall|i: int| to - 1 <= i < rest.len() implies white_space(#[trigger] rest[i]) by {
            assert(rest[i] == text[i + 1]);
        }
        lemma_trimmed(rest, from - 1, to - 1);
        assert(rest.subrange(from - 1, to - 1) == text.subrange(from, to));
    } else if to < text.len() {
        let rest = text.drop_last();
        assert(white_space(text[text.len() - 1]));
        lemma_trimmed(rest, from, to);
        assert(rest.subrange(from, to) == text.subrange(from, to));
    } else {
        assert(text.subrange(from, to) == text);
    }
}

// ---------------------------------------------------------------------------
// Laws
// ---------------------------------------------------------------------------

/// There is a line worth showing unless the text is blank, and it is one line,
/// with something to read at both its ends.
pub proof fn law_first_line(text: Seq<char>)
    ensures
        first_line_of(text) is None <==> blank(text),
        first_line_of(text) is None <==> forall|i: int|
            0 <= i < text.len() ==> white_space(#[trigger] text[i]),
        first_line_of(text) matches Some(line) ==> {
            &&& line.len() > 0
            &&& !white_space(line[0])
            &&& !white_space(line.last())
            &&& !line.contains('\n')
        },
    decreases text.len(),
{
    let end = line_end(text);
    let line = text.take(end);
    lemma_first_line_ends(text);
    if !blank(line) {
        let i = choose|i: int| 0 <= i < line.len() && !white_space(#[trigger] line[i]);
        assert(!white_space(text[i]));
        lemma_trimmed_ends(line);
        let shown = trimmed(line);
        assert forall|j: int| 0 <= j < shown.len() implies #[trigger] shown[j] != '\n' by {
            let k = choose|k: int| 0 <= k < line.len() && #[trigger] line[k] == shown[j];
            assert(text[k] != '\n');
        }
    } else if end < text.len() {
        let rest = text.skip(end + 1);
        law_first_line(rest);
        if blank(rest) {
            assert forall|i: int| 0 <= i < text.len() implies white_space(#[trigger] text[i]) by {
                if i < end {
                    assert(white_space(line[i]));
                } else if i > end {
                    assert(white_space(rest[i - end - 1]));
                }
            }
        } else {
            let i = choose|i: int| 0 <= i < rest.len() && !white_space(#[trigger] rest[i]);
            assert(!white_space(text[i + end + 1]));
        }
    } else {
        assert(line =~= text);
    }
}

proof fn lemma_first_line_ends(text: Seq<char>)
    ensures
        0 <= line_end(text) <= text.len(),
        forall|i: int| 0 <= i < line_end(text) ==> #[trigger] text[i] != '\n',
        line_end(text) < text.len() ==> text[line_end(text)] == '\n',
    decreases text.len(),
{
    if text.len() > 0 && text[0] != '\n' {
        let rest = text.drop_first();
        lemma_first_line_ends(rest);
        assert forall|i: int| 0 <= i < line_end(text) implies #[trigger] text[i] != '\n' by {
            if i > 0 {
                assert(rest[i - 1] != '\n');
            }
        }
    }
}

proof fn lemma_trimmed_ends(text: Seq<char>)
    requires
        !blank(text),
    ensures
        trimmed(text).len() > 0,
        !white_space(trimmed(text)[0]),
        !white_space(trimmed(text).last()),
        forall|j: int|
            0 <= j < trimmed(text).len() ==> exists|k: int|
                0 <= k < text.len() && #[trigger] text[k] == #[trigger] trimmed(text)[j],
    decreases text.len(),
{
    let i = choose|i: int| 0 <= i < text.len() && !white_space(#[trigger] text[i]);
    if white_space(text[0]) {
        let rest = text.drop_first();
        assert(!white_space(rest[i - 1]));
        lemma_trimmed_ends(rest);
        assert forall|j: int| 0 <= j < trimmed(text).len() implies exists|k: int|
            0 <= k < text.len() && #[trigger] text[k] == #[trigger] trimmed(text)[j] by {
            let k = choose|k: int| 0 <= k < rest.len() && #[trigger] rest[k] == trimmed(rest)[j];
            assert(text[k + 1] == trimmed(text)[j]);
        }
    } else if white_space(text.last()) {
        let rest = text.drop_last();
        assert(!white_space(rest[i]));
        lemma_trimmed_ends(rest);
        assert forall|j: int| 0 <= j < trimmed(text).len() implies exists|k: int|
            0 <= k < text.len() && #[trigger] text[k] == #[trigger] trimmed(text)[j] by {
            let k = choose|k: int| 0 <= k < rest.len() && #[trigger] rest[k] == trimmed(rest)[j];
            assert(text[k] == trimmed(text)[j]);
        }
    }
}

/// The line shown is the first that is not blank, without the white space
/// around it: whatever blank lines come before it, and whatever comes after.
pub proof fn law_first_line_shown(
    before: Seq<char>,
    lead: Seq<char>,
    shown: Seq<char>,
    trail: Seq<char>,
    after: Seq<char>,
)
    requires
        // Blank lines,
        forall|i: int| 0 <= i < before.len() ==> white_space(#[trigger] before[i]),
        before.len() > 0 ==> before.last() == '\n',
        // then the line, with white space around what is shown,
        forall|i: int| 0 <= i < lead.len() ==> white_space(#[trigger] lead[i]) && lead[i] != '\n',
        shown.len() > 0,
        !white_space(shown[0]),
        !white_space(shown.last()),
        forall|i: int| 0 <= i < shown.len() ==> #[trigger] shown[i] != '\n',
        forall|i: int|
            0 <= i < trail.len() ==> white_space(#[trigger] trail[i]) && trail[i] != '\n',
        // then the end of the text or the next line.
        after.len() > 0 ==> after[0] == '\n',
    ensures
        first_line_of(before + lead + shown + trail + after) == Some(shown),
    decreases before.len(),
{
    let text = before + lead + shown + trail + after;
    let line = lead + shown + trail;
    if before.len() == 0 {
        let end = line.len() as int;
        assert forall|i: int| 0 <= i < end implies #[trigger] text[i] != '\n' by {
            if i < lead.len() {
                assert(text[i] == lead[i]);
            } else if i < lead.len() + shown.len() {
                assert(text[i] == shown[i - lead.len()]);
            } else {
                assert(text[i] == trail[i - lead.len() - shown.len()]);
            }
        }
        if end < text.len() {
            assert(text[end] == after[0]);
        }
        lemma_line_end(text, end);
        assert(text.take(end) =~= line);
        let from = lead.len() as int;
        let to = from + shown.len();
        assert(line[from] == shown[0]);
        assert(line[to - 1] == shown.last());
        assert forall|i: int| 0 <= i < from implies white_space(#[trigger] line[i]) by {
            assert(line[i] == lead[i]);
        }
        assert forall|i: int| to <= i < line.len() implies white_space(#[trigger] line[i]) by {
            assert(line[i] == trail[i - to]);
        }
        lemma_trimmed(line, from, to);
        assert(line.subrange(from, to) =~= shown);
    } else {
        lemma_first_line_ends(before);
        let end = line_end(before);
        if end == before.len() {
            assert(before[before.len() - 1] != '\n');
        }
        assert forall|i: int| 0 <= i < end implies #[trigger] text[i] != '\n' by {
            assert(text[i] == before[i]);
        }
        assert(text[end] == before[end]);
        lemma_line_end(text, end);
        assert forall|i: int| 0 <= i < end implies white_space(#[trigger] text.take(end)[i]) by {
            assert(text.take(end)[i] == before[i]);
        }
        let rest = before.skip(end + 1);
        assert forall|i: int| 0 <= i < rest.len() implies white_space(#[trigger] rest[i]) by {
            assert(rest[i] == before[i + end + 1]);
        }
        assert(text.skip(end + 1) =~= rest + lead + shown + trail + after);
        law_first_line_shown(rest, lead, shown, trail, after);
    }
}

} // verus!
