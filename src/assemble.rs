//! The logical-line assembler: a whole script to its sequence of logical lines.
use vstd::prelude::*;
use crate::classify::{classify, parse_line, ParseError};
use crate::script::{
    Location, Character, CharacterView, LineView, ParseLogicalLine, ParseStatement, StatementView, texts,
};
use crate::text::{chars_of, text_of, slice};

verus! {

/// The index of the first line break at or after `i`, or the length of `s`.
pub open spec fn next_newline(s: Seq<char>, i: int) -> int
    decreases s.len() - i,
{
    if i < 0 || i >= s.len() || s[i] == '\n' {
        i
    } else {
        next_newline(s, i + 1)
    }
}

/// A line without the carriage return that ended it, if any.
pub open spec fn strip_cr(l: Seq<char>) -> Seq<char> {
    if l.len() > 0 && l.last() == '\r' {
        l.drop_last()
    } else {
        l
    }
}

/// The lines of `s[i..]`: split at line breaks, a carriage return before a break
/// dropped, no empty line after a final break.
pub open spec fn lines_from(s: Seq<char>, i: int) -> Seq<Seq<char>>
    decreases s.len() - i,
{
    if i < 0 || i >= s.len() {
        Seq::empty()
    } else {
        let j = next_newline(s, i);
        if j >= s.len() {
            seq![s.subrange(i, s.len() as int)]
        } else if j + 1 > i {
            seq![strip_cr(s.subrange(i, j))] + lines_from(s, j + 1)
        } else {
            Seq::empty()
        }
    }
}

/// The lines of a script text.
pub open spec fn lines_of(s: Seq<char>) -> Seq<Seq<char>> {
    lines_from(s, 0)
}

/// The line every assembled sequence begins with: the unnamed narrator, whose key and
/// name are empty, so that unattributed dialogue resolves to an empty name.
pub open spec fn narrator_line() -> LineView {
    LineView {
        indent: 0,
        statement: StatementView::Definition {
            key: Seq::empty(),
            character: CharacterView { name: Seq::empty(), color: Seq::empty() },
        },
    }
}

/// The known keys once a statement is taken in.
pub open spec fn keys_after(keys: Seq<Seq<char>>, s: StatementView) -> Seq<Seq<char>> {
    match s {
        StatementView::Definition { key, .. } => keys.push(key),
        _ => keys,
    }
}

/// The lines once a classified line is appended: a stage direction right after a
/// `Show` moves that `Show` and is not kept; any other line is appended.
pub open spec fn absorb(acc: Seq<LineView>, l: LineView) -> Seq<LineView> {
    match l.statement {
        StatementView::StageDirection { location } => if acc.len() > 0
            && acc.last().statement is Show {
            acc.update(
                acc.len() - 1,
                LineView {
                    indent: acc.last().indent,
                    statement: StatementView::Show {
                        key: acc.last().statement->Show_key,
                        location,
                    },
                },
            )
        } else {
            acc.push(l)
        },
        _ => acc.push(l),
    }
}

/// The logical lines and known keys after the physical lines `ls`: unrecognized lines
/// are dropped, a malformed one fails the whole script.
pub open spec fn assemble_lines(ls: Seq<Seq<char>>) -> Result<
    (Seq<LineView>, Seq<Seq<char>>),
    ParseError,
>
    decreases ls.len(),
{
    if ls.len() == 0 {
        Ok((seq![narrator_line()], Seq::empty()))
    } else {
        match assemble_lines(ls.drop_last()) {
            Err(e) => Err(e),
            Ok((acc, keys)) => match classify(ls.last(), keys) {
                Err(ParseError::Unrecognized) => Ok((acc, keys)),
                Err(ParseError::Malformed) => Err(ParseError::Malformed),
                Ok(l) => Ok((absorb(acc, l), keys_after(keys, l.statement))),
            },
        }
    }
}

/// The logical lines of a script text.
pub open spec fn assemble_spec(s: Seq<char>) -> Result<Seq<LineView>, ParseError> {
    match assemble_lines(lines_of(s)) {
        Ok((acc, _)) => Ok(acc),
        Err(e) => Err(e),
    }
}

pub open spec fn line_views(lines: Seq<ParseLogicalLine>) -> Seq<LineView> {
    lines.map_values(|l: ParseLogicalLine| l@)
}

/// Splits a script text into its lines, as `str::lines` does.
pub fn split_lines(text: &str) -> (r: Vec<String>)
    ensures
        texts(r@) == lines_of(text@),
{
    let s = chars_of(text);
    let mut r: Vec<String> = Vec::new();
    let mut i: usize = 0;
    while i < s.len()
        invariant
            i <= s@.len(),
            s@ == text@,
            texts(r@) + lines_from(s@, i as int) == lines_of(s@),
        decreases s@.len() - i,
    {
        let mut j: usize = i;
        while j < s.len() && s[j] != '\n'
            invariant
                i <= j <= s@.len(),
                next_newline(s@, i as int) == next_newline(s@, j as int),
            decreases s@.len() - j,
        {
            j += 1;
        }
        let ghost before = texts(r@);
        if j >= s.len() {
            r.push(text_of(&slice(&s, i, j)));
            assert(texts(r@) =~= before + seq![s@.subrange(i as int, s@.len() as int)]);
            assert(lines_from(s@, j as int) =~= Seq::<Seq<char>>::empty());
            assert(texts(r@) + lines_from(s@, j as int) =~= before + lines_from(s@, i as int));
            i = j;
        } else {
            let end: usize = if j > i && s[j - 1] == '\r' {
                j - 1
            } else {
                j
            };
            let piece = slice(&s, i, end);
            assert(piece@ =~= strip_cr(s@.subrange(i as int, j as int)));
            r.push(text_of(&piece));
            assert(texts(r@) =~= before + seq![strip_cr(s@.subrange(i as int, j as int))]);
            assert(texts(r@) + lines_from(s@, j + 1) =~= before + lines_from(s@, i as int));
            i = j + 1;
        }
    }
    assert(lines_from(s@, i as int) =~= Seq::<Seq<char>>::empty());
    assert(texts(r@) =~= texts(r@) + lines_from(s@, i as int));
    r
}


/// Once a prefix of the lines fails, every longer prefix fails the same way.
proof fn lemma_failure_persists(ls: Seq<Seq<char>>, i: int, j: int)
    requires
        0 <= i <= j <= ls.len(),
        assemble_lines(ls.take(i)) == Err::<(Seq<LineView>, Seq<Seq<char>>), ParseError>(
            ParseError::Malformed,
        ),
    ensures
        assemble_lines(ls.take(j)) == Err::<(Seq<LineView>, Seq<Seq<char>>), ParseError>(
            ParseError::Malformed,
        ),
    decreases j - i,
{
    if j > i {
        lemma_failure_persists(ls, i, j - 1);
        assert(ls.take(j).drop_last() =~= ls.take(j - 1));
    }
}

/// Classifies every line of a script text and assembles the logical lines, after a
/// first line that defines the unnamed narrator. Unrecognized lines are dropped; a
/// malformed line fails the whole script.
pub fn assemble_script(text: &str) -> (r: Result<Vec<ParseLogicalLine>, ParseError>)
    ensures
        r matches Ok(v) ==> assemble_spec(text@) == Ok::<Seq<LineView>, ParseError>(
            line_views(v@),
        ),
        r matches Err(e) ==> assemble_spec(text@) == Err::<Seq<LineView>, ParseError>(e),
{
    let ls = split_lines(text);
    let mut keys: Vec<String> = Vec::new();
    let mut acc: Vec<ParseLogicalLine> = Vec::new();
    acc.push(
        ParseLogicalLine {
            indent: 0,
            statement: ParseStatement::Definition {
                key: String::new(),
                character: Character { name: String::new(), color: String::new() },
            },
        },
    );
    proof {
        assert(line_views(acc@) =~= seq![narrator_line()]);
        assert(texts(keys@) =~= Seq::<Seq<char>>::empty());
        assert(texts(ls@).take(0) =~= Seq::<Seq<char>>::empty());
    }
    let mut i: usize = 0;
    while i < ls.len()
        invariant
            i <= ls@.len(),
            texts(ls@) == lines_of(text@),
            assemble_lines(texts(ls@).take(i as int)) == Ok::<
                (Seq<LineView>, Seq<Seq<char>>),
                ParseError,
            >((line_views(acc@), texts(keys@))),
        decreases ls@.len() - i,
    {
        let ghost prefix = texts(ls@).take(i + 1);
        assert(prefix.drop_last() =~= texts(ls@).take(i as int));
        assert(prefix.last() == ls@[i as int]@);
        let ghost old_keys = keys@;
        let ghost old_acc = line_views(acc@);
        match parse_line(ls[i].as_str(), &mut keys) {
            Err(ParseError::Unrecognized) => {},
            Err(ParseError::Malformed) => {
                proof {
                    lemma_failure_persists(texts(ls@), i + 1, ls@.len() as int);
                    assert(texts(ls@).take(ls@.len() as int) =~= texts(ls@));
                }
                return Err(ParseError::Malformed);
            },
            Ok(l) => {
                let ghost lv = l@;
                assert(texts(keys@) =~= keys_after(texts(old_keys), lv.statement));
                let n = acc.len();
                let fold = match l.statement {
                    ParseStatement::StageDirection { .. } => n > 0 && matches!(acc[n - 1].statement, ParseStatement::Show { .. }),
                    _ => false,
                };
                if fold {
                    let location = match l.statement {
                        ParseStatement::StageDirection { location } => location,
                        _ => Location::Center,
                    };
                    let last = acc.pop().unwrap();
                    let ParseLogicalLine { indent, statement } = last;
                    match statement {
                        ParseStatement::Show { key, .. } => {
                            acc.push(
                                ParseLogicalLine {
                                    indent,
                                    statement: ParseStatement::Show { key, location },
                                },
                            );
                        },
                        other => {
                            acc.push(ParseLogicalLine { indent, statement: other });
                        },
                    }
                    assert(line_views(acc@) =~= absorb(old_acc, lv));
                } else {
                    acc.push(l);
                    assert(line_views(acc@) =~= absorb(old_acc, lv));
                }
            },
        }
        i += 1;
    }
    assert(texts(ls@).take(i as int) =~= texts(ls@));
    Ok(acc)
}

} // verus!
