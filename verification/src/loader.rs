//! Reading a program from text: one machine word per line, written in
//! hexadecimal.

use vstd::prelude::*;
use crate::fault::Fault;
use crate::state::InstSpace;

verus! {

/// The value of `c` as a hexadecimal digit, if it is one. Both cases of the
/// letters count.
pub open spec fn hex_digit(c: char) -> Option<nat> {
    if '0' <= c <= '9' {
        Some((c as int - '0' as int) as nat)
    } else if 'a' <= c <= 'f' {
        Some((c as int - 'a' as int + 10) as nat)
    } else if 'A' <= c <= 'F' {
        Some((c as int - 'A' as int + 10) as nat)
    } else {
        None
    }
}

/// The number that a sequence of hexadecimal digits denotes, the most
/// significant digit first.
pub open spec fn hex_value(digits: Seq<char>) -> nat
    decreases digits.len(),
{
    if digits.len() == 0 {
        0
    } else {
        16 * hex_value(digits.drop_last()) + hex_digit(digits.last()).unwrap_or(0)
    }
}

/// The digits of a line: the line without a leading `+`.
pub open spec fn digits_of(line: Seq<char>) -> Seq<char> {
    if line.len() > 0 && line[0] == '+' {
        line.subrange(1, line.len() as int)
    } else {
        line
    }
}

/// `line` can still grow into a word: after an optional `+` it holds
/// hexadecimal digits only, and their value fits 32 bits.
pub open spec fn viable(line: Seq<char>) -> bool {
    let digits = digits_of(line);
    &&& forall|i: int| 0 <= i < digits.len() ==> (#[trigger] hex_digit(digits[i])) is Some
    &&& hex_value(digits) <= u32::MAX
}

/// The word that a line denotes: an optional `+`, then at least one
/// hexadecimal digit and nothing else, with a value that fits 32 bits.
/// Leading zeros are accepted. Any other line denotes no word.
pub open spec fn word_of(line: Seq<char>) -> Option<u32> {
    if viable(line) && digits_of(line).len() > 0 {
        Some(hex_value(digits_of(line)) as u32)
    } else {
        None
    }
}

/// The lines of a text: the pieces between its line feeds. A text with `n`
/// line feeds has `n + 1` lines, some of which may be empty.
pub open spec fn lines_of(text: Seq<char>) -> Seq<Seq<char>>
    decreases text.len(),
{
    if text.len() == 0 {
        seq![Seq::<char>::empty()]
    } else {
        let before = lines_of(text.drop_last());
        if text.last() == '\n' {
            before.push(Seq::<char>::empty())
        } else {
            before.drop_last().push(before.last().push(text.last()))
        }
    }
}

/// A text always has at least one line.
pub proof fn lemma_lines_nonempty(text: Seq<char>)
    ensures
        lines_of(text).len() >= 1,
    decreases text.len(),
{
    if text.len() > 0 {
        lemma_lines_nonempty(text.drop_last());
    }
}

/// `words` is what `text` holds: every line of the text denotes a word, and
/// `words` are those words in the order of the lines.
pub open spec fn is_program_of(words: Seq<u32>, text: Seq<char>) -> bool {
    let lines = lines_of(text);
    &&& words.len() == lines.len()
    &&& forall|i: int| 0 <= i < lines.len() ==> word_of(#[trigger] lines[i]) == Some(words[i])
}

/// Line `bad` of `text`, counted from 0, denotes no word, and every line
/// before it denotes one.
pub open spec fn first_malformed_line(text: Seq<char>, bad: int) -> bool {
    let lines = lines_of(text);
    &&& 0 <= bad < lines.len()
    &&& word_of(lines[bad]) is None
    &&& forall|i: int| 0 <= i < bad ==> word_of(#[trigger] lines[i]) is Some
}

/// Lines put back together, with a line feed between each two neighbours.
pub open spec fn joined(lines: Seq<Seq<char>>) -> Seq<char>
    decreases lines.len(),
{
    if lines.len() == 0 {
        Seq::empty()
    } else if lines.len() == 1 {
        lines[0]
    } else {
        joined(lines.drop_last()).push('\n') + lines.last()
    }
}

/// Splitting loses nothing and leaves no line feed behind: the lines of a
/// text, joined by line feeds, are the text, and no line holds a line feed.
pub proof fn lemma_lines_rejoin(text: Seq<char>)
    ensures
        joined(lines_of(text)) == text,
        forall|i: int, j: int|
            0 <= i < lines_of(text).len() && 0 <= j < lines_of(text)[i].len() ==> lines_of(
                text,
            )[i][j] != '\n',
    decreases text.len(),
{
    if text.len() > 0 {
        let lines = lines_of(text);
        let before = lines_of(text.drop_last());
        lemma_lines_rejoin(text.drop_last());
        lemma_lines_nonempty(text.drop_last());
        if text.last() == '\n' {
            assert(lines.drop_last() =~= before);
        } else if before.len() > 1 {
            assert(lines.drop_last() =~= before.drop_last());
            assert(joined(lines) =~= joined(before).push(text.last()));
        }
    }
}

/// How one more character changes the lines of a text: a line feed closes
/// the last line and opens an empty one, any other character joins the last
/// line. The lines before the last one stay as they are.
proof fn lemma_lines_push(text: Seq<char>, c: char)
    ensures
        lines_of(text).len() >= 1,
        c == '\n' ==> lines_of(text.push(c)) == lines_of(text).push(Seq::<char>::empty()),
        c != '\n' ==> lines_of(text.push(c)) == lines_of(text).drop_last().push(
            lines_of(text).last().push(c),
        ),
{
    lemma_lines_nonempty(text);
    assert(text.push(c).drop_last() =~= text);
}

/// How one more character changes what a line can become.
proof fn lemma_line_push(line: Seq<char>, c: char)
    ensures
        line.len() == 0 && c == '+' ==> {
            &&& viable(line.push(c))
            &&& digits_of(line.push(c)) == Seq::<char>::empty()
        },
        !(line.len() == 0 && c == '+') ==> {
            let grown = 16 * hex_value(digits_of(line)) + hex_digit(c).unwrap_or(0);
            &&& digits_of(line.push(c)) == digits_of(line).push(c)
            &&& hex_value(digits_of(line.push(c))) == grown
            &&& viable(line.push(c)) <==> viable(line) && hex_digit(c) is Some && grown <= u32::MAX
        },
{
    if !(line.len() == 0 && c == '+') {
        let digits = digits_of(line);
        assert(digits_of(line.push(c)) =~= digits.push(c));
        assert(digits.push(c).drop_last() =~= digits);
    }
}

/// The value of a hexadecimal digit.
fn hex_digit_of(c: char) -> (r: Option<u32>)
    ensures
        r matches Some(d) ==> hex_digit(c) == Some(d as nat) && d < 16,
        r is None ==> hex_digit(c) is None,
{
    if '0' <= c && c <= '9' {
        Some(c as u32 - '0' as u32)
    } else if 'a' <= c && c <= 'f' {
        Some(c as u32 - 'a' as u32 + 10)
    } else if 'A' <= c && c <= 'F' {
        Some(c as u32 - 'A' as u32 + 10)
    } else {
        None
    }
}

impl InstSpace {
    /// Reads a program from the text `s`, which holds one word per line.
    ///
    /// Succeeds when every line denotes a word, and then the program holds
    /// those words in the order of the lines. Otherwise the fault names the
    /// first line that denotes no word. A text that ends in a line feed has
    /// an empty last line, and so has the empty text: neither is a program.
    pub fn parse(s: &str) -> (r: Result<InstSpace, Fault>)
        ensures
            match r {
                Ok(program) => is_program_of(program@, s@),
                Err(f) => f matches Fault::MalformedWord { line } && first_malformed_line(
                    s@,
                    line as int,
                ),
            },
    {
        let mut words: Vec<u32> = Vec::new();
        let mut bad: Option<usize> = None;
        // What is known of the line being read: whether it is still empty,
        // whether it can still become a word, whether it has a digit yet, and
        // the value of its digits.
        let mut fresh = true;
        let mut ok = true;
        let mut any = false;
        let mut value: u32 = 0;
        let ghost mut line: Seq<char> = Seq::empty();
        let ghost mut closed: Seq<Seq<char>> = Seq::empty();
        for c in it: s.chars()
            invariant
                it.seq() == s@,
                lines_of(s@.subrange(0, it.index() as int)) == closed.push(line),
                fresh == (line.len() == 0),
                ok == viable(line),
                ok ==> any == (digits_of(line).len() > 0) && value == hex_value(digits_of(line)),
                bad is None ==> words@.len() == closed.len() && forall|i: int|
                    0 <= i < closed.len() ==> word_of(#[trigger] closed[i]) == Some(words@[i]),
                bad matches Some(b) ==> b < closed.len() && word_of(closed[b as int]) is None
                    && forall|i: int| 0 <= i < b ==> word_of(#[trigger] closed[i]) is Some,
        {
            proof {
                let seen = s@.subrange(0, it.index() as int);
                assert(s@.subrange(0, it.index() + 1) =~= seen.push(c));
                lemma_lines_push(seen, c);
                lemma_line_push(line, c);
            }
            if c == '\n' {
                if bad.is_none() {
                    if ok && any {
                        words.push(value);
                    } else {
                        bad = Some(words.len());
                    }
                }
                proof {
                    closed = closed.push(line);
                    line = Seq::empty();
                }
                fresh = true;
                ok = true;
                any = false;
                value = 0;
            } else {
                if ok && !(fresh && c == '+') {
                    match hex_digit_of(c) {
                        Some(d) if value <= 0x0FFF_FFFF => {
                            value = value * 16 + d;
                            any = true;
                        },
                        _ => {
                            ok = false;
                        },
                    }
                }
                fresh = false;
                proof {
                    line = line.push(c);
                }
            }
        }
        assert(s@.subrange(0, s@.len() as int) =~= s@);
        match bad {
            Some(b) => Err(Fault::MalformedWord { line: b }),
            None => {
                if ok && any {
                    words.push(value);
                    Ok(InstSpace::new(words))
                } else {
                    Err(Fault::MalformedWord { line: words.len() })
                }
            },
        }
    }
}

} // verus!
