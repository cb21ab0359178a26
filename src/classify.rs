//! The line classifier: one physical script line to one statement.
use vstd::prelude::*;
use crate::script::{
    Character, CharacterView, Location, ParseLogicalLine, ParseStatement, LineView, StatementView,
    texts,
};
use crate::text::{
    chars_of, clean_up, clean_up_chars, contains, contains_exec, equal_chars, find, find_exec,
    matches_at_exec, quoted, quoted_exec, replace, replace_exec, skip_spaces, slice, split_piece,
    split_piece_exec, starts_with, starts_with_exec, ends_with, ends_with_exec, text_of, trim,
    trimmed, trim_range,
};

verus! {

/// Why a line yields no statement.
#[derive(Clone, Copy, Debug, PartialEq, Eq, Structural)]
pub enum ParseError {
    /// No marker of the script format matches the line; the line is dropped.
    Unrecognized,
    /// A marker matches but its payload is incomplete (a missing quote, a missing
    /// `=`, an alignment that is not a number).
    Malformed,
}

/// The part of `s` before the first occurrence of `p`, or all of `s`.
pub open spec fn first_piece(s: Seq<char>, p: Seq<char>) -> Seq<char> {
    match find(s, p) {
        Some(i) => s.take(i),
        None => s,
    }
}

/// `s` with every occurrence of `p` removed.
pub open spec fn remove(s: Seq<char>, p: Seq<char>) -> Seq<char> {
    replace(s, p, Seq::empty())
}

/// The key after a keyword such as `label` or `jump`: the keyword and colons removed,
/// blanks trimmed.
pub open spec fn key_after(t: Seq<char>, keyword: Seq<char>) -> Seq<char> {
    trim(remove(trim(remove(t, keyword)), ":"@))
}

/// The key and character of a definition line (already trimmed), where its payload is
/// complete.
pub open spec fn definition_of(t: Seq<char>) -> Option<(Seq<char>, CharacterView)> {
    let rest = remove(t, "define"@);
    let key = trim(first_piece(rest, "="@));
    match split_piece(rest, "="@, 1) {
        None => None,
        Some(name_part) => match quoted(name_part) {
            None => None,
            Some(name) => if contains(t, "color"@) {
                match split_piece(rest, "="@, 2) {
                    None => None,
                    Some(color_part) => match quoted(color_part) {
                        None => None,
                        Some(color) => Some((key, CharacterView { name, color })),
                    },
                }
            } else {
                Some((key, CharacterView { name, color: Seq::empty() }))
            },
        },
    }
}

/// The speaker key and the text of a `$ speak(KEY, "text")` line (already trimmed).
pub open spec fn speak_of(t: Seq<char>) -> Option<(Seq<char>, Seq<char>)> {
    let rest = trim(remove(t, "$ speak("@));
    match find(rest, ","@) {
        None => None,
        Some(i) => match quoted(rest.skip(i + 1)) {
            None => None,
            Some(q) => Some((trim(rest.take(i)), clean_up(q))),
        },
    }
}

/// The key and position of a `show` line (already trimmed).
pub open spec fn show_of(t: Seq<char>) -> (Seq<char>, Location) {
    let rest = trim(remove(t, "show"@));
    let key = trim(remove(remove(first_piece(rest, " at "@), ":"@), "flipped"@));
    let location = match split_piece(rest, " at "@, 1) {
        Some(w) => if trim(w) == "left"@ {
            Location::Left
        } else if trim(w) == "right"@ {
            Location::Right
        } else {
            Location::Center
        },
        None => Location::Center,
    };
    (key, location)
}

pub open spec fn is_digit(c: char) -> bool {
    '0' <= c && c <= '9'
}

pub open spec fn all_digits(s: Seq<char>) -> bool {
    forall|i: int| 0 <= i < s.len() ==> is_digit(#[trigger] s[i])
}

/// The value of the digit at `i`, or 0 past the end.
pub open spec fn digit_at(s: Seq<char>, i: int) -> int {
    if 0 <= i < s.len() {
        s[i] as int - '0' as int
    } else {
        0
    }
}

/// A number without its sign.
pub open spec fn unsigned_part(w: Seq<char>) -> Seq<char> {
    if w.len() > 0 && (w[0] == '+' || w[0] == '-') {
        w.skip(1)
    } else {
        w
    }
}

pub open spec fn whole_part(b: Seq<char>) -> Seq<char> {
    first_piece(b, "."@)
}

pub open spec fn fraction_part(b: Seq<char>) -> Seq<char> {
    match find(b, "."@) {
        Some(i) => b.skip(i + 1),
        None => Seq::empty(),
    }
}

/// A decimal number: a sign, digits, a point and digits, with at least one digit.
pub open spec fn is_decimal(w: Seq<char>) -> bool {
    let b = unsigned_part(w);
    all_digits(whole_part(b)) && all_digits(fraction_part(b)) && whole_part(b).len()
        + fraction_part(b).len() > 0
}

/// The position a horizontal alignment value stands for, compared exactly as a decimal:
/// below 0.33 left, below 0.66 center, else right.
pub open spec fn alignment_location(w: Seq<char>) -> Option<Location> {
    if !is_decimal(w) {
        None
    } else if w[0] == '-' {
        Some(Location::Left)
    } else {
        let b = unsigned_part(w);
        if exists|i: int| 0 <= i < whole_part(b).len() && #[trigger] whole_part(b)[i] != '0' {
            Some(Location::Right)
        } else {
            let h = 10 * digit_at(fraction_part(b), 0) + digit_at(fraction_part(b), 1);
            if h < 33 {
                Some(Location::Left)
            } else if h < 66 {
                Some(Location::Center)
            } else {
                Some(Location::Right)
            }
        }
    }
}

/// Whether a line holds one of the stage-position keywords.
pub open spec fn is_stage_direction(line: Seq<char>) -> bool {
    contains(line, "leftstage"@) || contains(line, "leftcenterstage"@) || contains(
        line,
        "centerstage"@,
    ) || contains(line, "rightcenterstage"@) || contains(line, "rightstage"@) || contains(
        line,
        "off_right"@,
    ) || contains(line, "off_left"@) || contains(line, "off_farright"@) || contains(
        line,
        "off_farleft"@,
    ) || contains(line, "percsuperleft"@) || contains(line, "percrightcenter"@) || contains(
        line,
        "xalign"@,
    )
}

/// The position a stage-direction line (already trimmed) names.
pub open spec fn direction_of(t: Seq<char>) -> Option<Location> {
    if contains(t, "off"@) {
        Some(Location::Off)
    } else if contains(t, "leftcenterstage"@) {
        Some(Location::CenterLeft)
    } else if contains(t, "rightcenterstage"@) {
        Some(Location::CenterRight)
    } else if contains(t, "leftstage"@) {
        Some(Location::Left)
    } else if contains(t, "rightstage"@) {
        Some(Location::Right)
    } else if contains(t, "xalign"@) {
        let i = find(t, "xalign"@)->Some_0;
        match split_piece(t.skip(i + "xalign"@.len()), " "@, 1) {
            None => None,
            Some(w) => alignment_location(w),
        }
    } else {
        Some(Location::Center)
    }
}

/// The first known key, from index `i` on, that the line begins with, followed by a
/// space.
pub open spec fn key_match_from(t: Seq<char>, keys: Seq<Seq<char>>, i: int) -> Option<int>
    decreases keys.len() - i,
{
    if i < 0 || i >= keys.len() {
        None
    } else if starts_with(t, keys[i] + " "@) {
        Some(i)
    } else {
        key_match_from(t, keys, i + 1)
    }
}

/// The text after the first space of `t`.
pub open spec fn after_first_space(t: Seq<char>) -> Seq<char> {
    match find(t, " "@) {
        Some(i) => t.skip(i + 1),
        None => Seq::empty(),
    }
}

/// The statement of a non-blank line that `t` (trimmed) and `line` (as it stands) give,
/// by the markers checked in their fixed order of priority.
pub open spec fn classify_statement(line: Seq<char>, t: Seq<char>, keys: Seq<Seq<char>>) -> Result<
    StatementView,
    ParseError,
> {
    if starts_with(t, "define"@) && contains(t, "Character"@) {
        match definition_of(t) {
            Some((key, character)) => Ok(StatementView::Definition { key, character }),
            None => Err(ParseError::Malformed),
        }
    } else if starts_with(t, "label"@) {
        Ok(StatementView::Label { key: key_after(t, "label"@) })
    } else if starts_with(t, "\""@) {
        if ends_with(line, ":"@) {
            Ok(StatementView::Choice { text: clean_up(t) })
        } else {
            Ok(StatementView::Dialogue { character_key: Seq::empty(), text: clean_up(t) })
        }
    } else if starts_with(t, "menu"@) {
        Ok(StatementView::Menu)
    } else if starts_with(t, "jump"@) {
        Ok(StatementView::Jump { key: key_after(t, "jump"@) })
    } else if starts_with(t, "return"@) {
        Ok(StatementView::End)
    } else if starts_with(t, "$ speak"@) {
        match speak_of(t) {
            Some((character_key, text)) => Ok(StatementView::Dialogue { character_key, text }),
            None => Err(ParseError::Malformed),
        }
    } else if starts_with(t, "show"@) {
        Ok(StatementView::Show { key: show_of(t).0, location: show_of(t).1 })
    } else if starts_with(t, "scene"@) {
        Ok(StatementView::Scene)
    } else if is_stage_direction(line) {
        match direction_of(t) {
            Some(location) => Ok(StatementView::StageDirection { location }),
            None => Err(ParseError::Malformed),
        }
    } else {
        match key_match_from(t, keys, 0) {
            Some(k) => Ok(
                StatementView::Dialogue {
                    character_key: keys[k],
                    text: clean_up(after_first_space(t)),
                },
            ),
            None => Err(ParseError::Unrecognized),
        }
    }
}

/// The logical line that a physical line gives: its statement, and as indentation the
/// number of blank characters before it (a fixed 8 for a stage direction).
pub open spec fn classify(line: Seq<char>, keys: Seq<Seq<char>>) -> Result<LineView, ParseError> {
    match classify_statement(line, trim(line), keys) {
        Ok(statement) => Ok(
            LineView {
                indent: if statement is StageDirection {
                    8
                } else {
                    skip_spaces(line, 0) as nat
                },
                statement,
            },
        ),
        Err(e) => Err(e),
    }
}


fn remove_exec(s: &Vec<char>, p: &str) -> (r: Vec<char>)
    ensures
        r@ == remove(s@, p@),
{
    let empty: Vec<char> = Vec::new();
    assert(empty@ =~= Seq::<char>::empty());
    replace_exec(s, &chars_of(p), &empty)
}

pub(crate) fn first_piece_exec(s: &Vec<char>, p: &str) -> (r: Vec<char>)
    ensures
        r@ == first_piece(s@, p@),
{
    let pv = chars_of(p);
    match find_exec(s, &pv, 0) {
        Some(i) => slice(s, 0, i),
        None => slice(s, 0, s.len()),
    }
}

fn key_after_exec(t: &Vec<char>, keyword: &str) -> (r: Vec<char>)
    ensures
        r@ == key_after(t@, keyword@),
{
    let a = trimmed(&remove_exec(t, keyword));
    trimmed(&remove_exec(&a, ":"))
}

/// The key, name and color of a definition line (trimmed).
fn definition_exec(t: &Vec<char>) -> (r: Option<(Vec<char>, Vec<char>, Vec<char>)>)
    ensures
        r matches Some(x) ==> definition_of(t@) == Some(
            (x.0@, CharacterView { name: x.1@, color: x.2@ }),
        ),
        r is None ==> definition_of(t@) is None,
{
    let rest = remove_exec(t, "define");
    let key = trimmed(&first_piece_exec(&rest, "="));
    let eq = chars_of("=");
    let name_part = match split_piece_exec(&rest, &eq, 1) {
        None => return None,
        Some(p) => p,
    };
    let name = match quoted_exec(&name_part) {
        None => return None,
        Some(q) => q,
    };
    if contains_exec(t, "color") {
        let color_part = match split_piece_exec(&rest, &eq, 2) {
            None => return None,
            Some(p) => p,
        };
        match quoted_exec(&color_part) {
            None => None,
            Some(color) => Some((key, name, color)),
        }
    } else {
        let color: Vec<char> = Vec::new();
        assert(color@ =~= Seq::<char>::empty());
        Some((key, name, color))
    }
}

/// The key and text of a speak-call line (trimmed).
fn speak_exec(t: &Vec<char>) -> (r: Option<(Vec<char>, Vec<char>)>)
    ensures
        r matches Some(x) ==> speak_of(t@) == Some((x.0@, x.1@)),
        r is None ==> speak_of(t@) is None,
{
    let rest = trimmed(&remove_exec(t, "$ speak("));
    proof {
        reveal_strlit(",");
    }
    match find_exec(&rest, &chars_of(","), 0) {
        None => None,
        Some(i) => {
            let after = slice(&rest, i + 1, rest.len());
            assert(after@ =~= rest@.skip(i + 1));
            match quoted_exec(&after) {
                None => None,
                Some(q) => {
                    let key = trimmed(&slice(&rest, 0, i));
                    assert(rest@.subrange(0, i as int) =~= rest@.take(i as int));
                    Some((key, clean_up_chars(&q)))
                },
            }
        },
    }
}

/// The key and position of a show line (trimmed).
fn show_exec(t: &Vec<char>) -> (r: (Vec<char>, Location))
    ensures
        (r.0@, r.1) == show_of(t@),
{
    let rest = trimmed(&remove_exec(t, "show"));
    let head = first_piece_exec(&rest, " at ");
    let key = trimmed(&remove_exec(&remove_exec(&head, ":"), "flipped"));
    let location = match split_piece_exec(&rest, &chars_of(" at "), 1) {
        Some(w) => {
            let tw = trimmed(&w);
            if equal_chars(&tw, &chars_of("left")) {
                Location::Left
            } else if equal_chars(&tw, &chars_of("right")) {
                Location::Right
            } else {
                Location::Center
            }
        },
        None => Location::Center,
    };
    (key, location)
}

fn is_digit_exec(c: char) -> (r: bool)
    ensures
        r == is_digit(c),
{
    '0' <= c && c <= '9'
}

fn all_digits_exec(s: &Vec<char>) -> (r: bool)
    ensures
        r == all_digits(s@),
{
    let mut i: usize = 0;
    while i < s.len()
        invariant
            i <= s@.len(),
            forall|j: int| 0 <= j < i ==> is_digit(#[trigger] s@[j]),
        decreases s@.len() - i,
    {
        if !is_digit_exec(s[i]) {
            return false;
        }
        i += 1;
    }
    true
}

fn digit_at_exec(s: &Vec<char>, i: usize) -> (r: u32)
    requires
        all_digits(s@),
    ensures
        r as int == digit_at(s@, i as int),
        r <= 9,
{
    if i < s.len() {
        assert(is_digit(s@[i as int]));
        (s[i] as u32) - ('0' as u32)
    } else {
        0
    }
}

/// The position that a horizontal alignment value stands for.
fn alignment_exec(w: &Vec<char>) -> (r: Option<Location>)
    ensures
        r == alignment_location(w@),
{
    proof {
        reveal_strlit(".");
    }
    if w.len() == 0 {
        assert(whole_part(unsigned_part(w@)) =~= Seq::<char>::empty());
        return None;
    }
    let b = if w[0] == '+' || w[0] == '-' {
        slice(w, 1, w.len())
    } else {
        slice(w, 0, w.len())
    };
    assert(b@ =~= unsigned_part(w@));
    let whole = first_piece_exec(&b, ".");
    let fraction = match find_exec(&b, &chars_of("."), 0) {
        Some(i) => slice(&b, i + 1, b.len()),
        None => Vec::new(),
    };
    assert(fraction@ =~= fraction_part(b@));
    if !(all_digits_exec(&whole) && all_digits_exec(&fraction) && (whole.len() > 0
        || fraction.len() > 0)) {
        return None;
    }
    if w[0] == '-' {
        return Some(Location::Left);
    }
    let mut i: usize = 0;
    while i < whole.len()
        invariant
            i <= whole@.len(),
            whole@ == whole_part(unsigned_part(w@)),
            is_decimal(w@),
            w@.len() > 0 && w@[0] != '-',
            forall|j: int| 0 <= j < i ==> #[trigger] whole@[j] == '0',
        decreases whole@.len() - i,
    {
        if whole[i] != '0' {
            assert(whole_part(unsigned_part(w@))[i as int] != '0');
            return Some(Location::Right);
        }
        i += 1;
    }
    let h = 10 * digit_at_exec(&fraction, 0) + digit_at_exec(&fraction, 1);
    if h < 33 {
        Some(Location::Left)
    } else if h < 66 {
        Some(Location::Center)
    } else {
        Some(Location::Right)
    }
}

fn is_stage_direction_exec(line: &Vec<char>) -> (r: bool)
    ensures
        r == is_stage_direction(line@),
{
    contains_exec(line, "leftstage") || contains_exec(line, "leftcenterstage") || contains_exec(
        line,
        "centerstage",
    ) || contains_exec(line, "rightcenterstage") || contains_exec(line, "rightstage")
        || contains_exec(line, "off_right") || contains_exec(line, "off_left") || contains_exec(
        line,
        "off_farright",
    ) || contains_exec(line, "off_farleft") || contains_exec(line, "percsuperleft")
        || contains_exec(line, "percrightcenter") || contains_exec(line, "xalign")
}

fn direction_exec(t: &Vec<char>) -> (r: Option<Location>)
    ensures
        r == direction_of(t@),
{
    if contains_exec(t, "off") {
        Some(Location::Off)
    } else if contains_exec(t, "leftcenterstage") {
        Some(Location::CenterLeft)
    } else if contains_exec(t, "rightcenterstage") {
        Some(Location::CenterRight)
    } else if contains_exec(t, "leftstage") {
        Some(Location::Left)
    } else if contains_exec(t, "rightstage") {
        Some(Location::Right)
    } else if contains_exec(t, "xalign") {
        let kw = chars_of("xalign");
        let i = match find_exec(t, &kw, 0) {
            Some(i) => i,
            None => return None,
        };
        assert(i + kw@.len() <= t@.len());
        let after = slice(t, i + kw.len(), t.len());
        assert(after@ =~= t@.skip(i + "xalign"@.len()));
        match split_piece_exec(&after, &chars_of(" "), 1) {
            None => None,
            Some(w) => alignment_exec(&w),
        }
    } else {
        Some(Location::Center)
    }
}

/// The index of the first known key that the line begins with, followed by a space.
fn key_match_exec(t: &Vec<char>, keys: &Vec<String>) -> (r: Option<usize>)
    ensures
        r matches Some(k) ==> key_match_from(t@, texts(keys@), 0) == Some(k as int) && k
            < keys@.len(),
        r is None ==> key_match_from(t@, texts(keys@), 0) is None,
{
    let mut i: usize = 0;
    while i < keys.len()
        invariant
            i <= keys@.len(),
            key_match_from(t@, texts(keys@), 0) == key_match_from(t@, texts(keys@), i as int),
        decreases keys@.len() - i,
    {
        let mut pattern = chars_of(keys[i].as_str());
        pattern.push(' ');
        proof {
            reveal_strlit(" ");
        }
        assert(pattern@ =~= texts(keys@)[i as int] + " "@);
        if matches_at_exec(t, &pattern, 0) {
            return Some(i);
        }
        i += 1;
    }
    None
}

fn after_first_space_exec(t: &Vec<char>) -> (r: Vec<char>)
    ensures
        r@ == after_first_space(t@),
{
    proof {
        reveal_strlit(" ");
    }
    match find_exec(t, &chars_of(" "), 0) {
        Some(i) => {
            let r = slice(t, i + 1, t.len());
            assert(r@ =~= t@.skip(i + 1));
            r
        },
        None => Vec::new(),
    }
}


/// Classifies one physical script line, given the keys of the characters defined so
/// far. A definition line adds its key to `look_for_keys`, so that later lines may
/// start with it; nothing else changes the keys.
pub fn parse_line(line: &str, look_for_keys: &mut Vec<String>) -> (r: Result<
    ParseLogicalLine,
    ParseError,
>)
    ensures
        r matches Ok(l) ==> classify(line@, texts(old(look_for_keys)@)) == Ok::<LineView, ParseError>(l@),
        r matches Err(e) ==> classify(line@, texts(old(look_for_keys)@)) == Err::<LineView, ParseError>(e),
        match r {
            Ok(ParseLogicalLine { statement: ParseStatement::Definition { key, .. }, .. }) => {
                final(look_for_keys)@ == old(look_for_keys)@.push(key)
            },
            _ => final(look_for_keys)@ == old(look_for_keys)@,
        },
{
    let v = chars_of(line);
    let (a, b) = trim_range(&v);
    let t = slice(&v, a, b);
    let ghost keys = texts(look_for_keys@);
    let statement = if starts_with_exec(&t, "define") && contains_exec(&t, "Character") {
        match definition_exec(&t) {
            None => return Err(ParseError::Malformed),
            Some((k, n, c)) => {
                let key = text_of(&k);
                look_for_keys.push(key.clone());
                ParseStatement::Definition {
                    key,
                    character: Character { name: text_of(&n), color: text_of(&c) },
                }
            },
        }
    } else if starts_with_exec(&t, "label") {
        ParseStatement::Label { key: text_of(&key_after_exec(&t, "label")) }
    } else if starts_with_exec(&t, "\"") {
        let text = text_of(&clean_up_chars(&t));
        if ends_with_exec(&v, ":") {
            ParseStatement::Choice { text }
        } else {
            ParseStatement::Dialogue { character_key: String::new(), text }
        }
    } else if starts_with_exec(&t, "menu") {
        ParseStatement::Menu {  }
    } else if starts_with_exec(&t, "jump") {
        ParseStatement::Jump { key: text_of(&key_after_exec(&t, "jump")) }
    } else if starts_with_exec(&t, "return") {
        ParseStatement::End {  }
    } else if starts_with_exec(&t, "$ speak") {
        match speak_exec(&t) {
            None => return Err(ParseError::Malformed),
            Some((k, text)) => ParseStatement::Dialogue {
                character_key: text_of(&k),
                text: text_of(&text),
            },
        }
    } else if starts_with_exec(&t, "show") {
        let (k, location) = show_exec(&t);
        ParseStatement::Show { key: text_of(&k), location }
    } else if starts_with_exec(&t, "scene") {
        ParseStatement::Scene {  }
    } else if is_stage_direction_exec(&v) {
        match direction_exec(&t) {
            None => return Err(ParseError::Malformed),
            Some(location) => {
                return Ok(
                    ParseLogicalLine {
                        indent: 8,
                        statement: ParseStatement::StageDirection { location },
                    },
                );
            },
        }
    } else {
        match key_match_exec(&t, look_for_keys) {
            None => return Err(ParseError::Unrecognized),
            Some(k) => ParseStatement::Dialogue {
                character_key: look_for_keys[k].clone(),
                text: text_of(&clean_up_chars(&after_first_space_exec(&t))),
            },
        }
    };
    assert(keys == texts(old(look_for_keys)@));
    Ok(ParseLogicalLine { indent: a, statement })
}

} // verus!
