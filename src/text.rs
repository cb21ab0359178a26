//! Character-sequence helpers: the text operations the script format is built on.
use vstd::prelude::*;

verus! {

/// Relies on `String::push`: appends one character to the end of the string.
#[verifier::external_body]
pub(crate) fn push_char(s: &mut String, c: char)
    ensures
        final(s)@ == old(s)@.push(c),
{
    s.push(c)
}

/// The characters of `s`, in order.
pub fn chars_of(s: &str) -> (r: Vec<char>)
    ensures
        r@ == s@,
{
    let n = s.unicode_len();
    let mut r: Vec<char> = Vec::new();
    let mut i: usize = 0;
    while i < n
        invariant
            n == s@.len(),
            i <= n,
            r@ == s@.take(i as int),
        decreases n - i,
    {
        r.push(s.get_char(i));
        i += 1;
        assert(r@ =~= s@.take(i as int));
    }
    assert(r@ =~= s@);
    r
}

/// The characters `v[from..to]` as a string.
pub fn string_of(v: &Vec<char>, from: usize, to: usize) -> (r: String)
    requires
        from <= to <= v@.len(),
    ensures
        r@ == v@.subrange(from as int, to as int),
{
    let mut r = String::new();
    let mut i: usize = from;
    while i < to
        invariant
            from <= i <= to <= v@.len(),
            r@ == v@.subrange(from as int, i as int),
        decreases to - i,
    {
        push_char(&mut r, v[i]);
        i += 1;
        assert(r@ =~= v@.subrange(from as int, i as int));
    }
    r
}


/// Whether `c` is white space in the sense of Unicode's `White_Space` property.
pub open spec fn is_space(c: char) -> bool {
    let u = c as u32;
    (0x09 <= u && u <= 0x0D) || u == 0x20 || u == 0x85 || u == 0xA0 || u == 0x1680 || (0x2000
        <= u && u <= 0x200A) || u == 0x2028 || u == 0x2029 || u == 0x202F || u == 0x205F || u
        == 0x3000
}

fn is_space_exec(c: char) -> (r: bool)
    ensures
        r == is_space(c),
{
    let u = c as u32;
    (0x09 <= u && u <= 0x0D) || u == 0x20 || u == 0x85 || u == 0xA0 || u == 0x1680 || (0x2000
        <= u && u <= 0x200A) || u == 0x2028 || u == 0x2029 || u == 0x202F || u == 0x205F || u
        == 0x3000
}

/// The index of the first non-blank character of `s` at or after `i` (or the length).
pub open spec fn skip_spaces(s: Seq<char>, i: int) -> int
    decreases s.len() - i,
{
    if 0 <= i < s.len() && is_space(s[i]) {
        skip_spaces(s, i + 1)
    } else {
        i
    }
}

/// The end of `s[lo..j]` once trailing blanks are dropped.
pub open spec fn drop_trailing(s: Seq<char>, lo: int, j: int) -> int
    decreases j - lo,
{
    if lo < j && is_space(s[j - 1]) {
        drop_trailing(s, lo, j - 1)
    } else {
        j
    }
}

/// `s` without leading and trailing white space.
pub open spec fn trim(s: Seq<char>) -> Seq<char> {
    let a = skip_spaces(s, 0);
    s.subrange(a, drop_trailing(s, a, s.len() as int))
}

/// Whether `p` occurs in `s` at index `i`.
pub open spec fn matches_at(s: Seq<char>, p: Seq<char>, i: int) -> bool {
    0 <= i && i + p.len() <= s.len() && s.subrange(i, i + p.len()) == p
}

/// The first index at or after `i` where `p` occurs in `s`.
pub open spec fn find_from(s: Seq<char>, p: Seq<char>, i: int) -> Option<int>
    decreases s.len() - i,
{
    if i < 0 || i + p.len() > s.len() {
        None
    } else if matches_at(s, p, i) {
        Some(i)
    } else if i + p.len() < s.len() {
        find_from(s, p, i + 1)
    } else {
        None
    }
}

/// The first index where `p` occurs in `s`.
pub open spec fn find(s: Seq<char>, p: Seq<char>) -> Option<int> {
    find_from(s, p, 0)
}

pub open spec fn contains(s: Seq<char>, p: Seq<char>) -> bool {
    find(s, p) is Some
}

pub open spec fn starts_with(s: Seq<char>, p: Seq<char>) -> bool {
    matches_at(s, p, 0)
}

pub open spec fn ends_with(s: Seq<char>, p: Seq<char>) -> bool {
    p.len() <= s.len() && matches_at(s, p, s.len() - p.len())
}

/// `s[i..]` with each leftmost non-overlapping occurrence of `p` replaced by `r`.
pub open spec fn replace_from(s: Seq<char>, p: Seq<char>, r: Seq<char>, i: int) -> Seq<char>
    decreases s.len() - i,
{
    if i < 0 || i >= s.len() {
        Seq::empty()
    } else if p.len() > 0 && matches_at(s, p, i) {
        r + replace_from(s, p, r, i + p.len())
    } else {
        seq![s[i]] + replace_from(s, p, r, i + 1)
    }
}

/// `s` with every occurrence of `p` replaced by `r`, scanning left to right.
pub open spec fn replace(s: Seq<char>, p: Seq<char>, r: Seq<char>) -> Seq<char> {
    replace_from(s, p, r, 0)
}

/// The `n`-th piece (from 0) of `s` split at the occurrences of `p`.
pub open spec fn split_piece(s: Seq<char>, p: Seq<char>, n: nat) -> Option<Seq<char>>
    decreases n,
{
    match find(s, p) {
        None => if n == 0 {
            Some(s)
        } else {
            None
        },
        Some(i) => if n == 0 {
            Some(s.take(i))
        } else {
            split_piece(s.skip(i + p.len()), p, (n - 1) as nat)
        },
    }
}

/// The last index below `j` that holds `c`.
pub open spec fn rfind_char(s: Seq<char>, c: char, j: int) -> Option<int>
    decreases j,
{
    if j <= 0 || j > s.len() {
        None
    } else if s[j - 1] == c {
        Some(j - 1)
    } else {
        rfind_char(s, c, j - 1)
    }
}

/// The text between the first and the last double quote of `s`, where there are two.
pub open spec fn quoted(s: Seq<char>) -> Option<Seq<char>> {
    match (find(s, seq!['"']), rfind_char(s, '"', s.len() as int)) {
        (Some(f), Some(l)) => if f < l {
            Some(s.subrange(f + 1, l))
        } else {
            None
        },
        _ => None,
    }
}

/// Script text with its escapes resolved: an escaped quote becomes a quote, then an
/// escaped `n` becomes a line break.
pub open spec fn clean_up(s: Seq<char>) -> Seq<char> {
    replace(replace(s, "\\\""@, "\""@), "\\n"@, "\n"@)
}

/// Text made safe for the slide markup: `$`, `%`, `#` and `_` get a backslash before
/// them, and empty text becomes a single non-breaking space `~`.
pub open spec fn escape(s: Seq<char>) -> Seq<char> {
    if s.len() == 0 {
        "~"@
    } else {
        replace(replace(replace(replace(s, "$"@, "\\$"@), "%"@, "\\%"@), "#"@, "\\#"@), "_"@, "\\_"@)
    }
}

/// The range of `v` left once leading and trailing white space are dropped.
pub fn trim_range(v: &Vec<char>) -> (r: (usize, usize))
    ensures
        r.0 <= r.1 <= v@.len(),
        r.0 == skip_spaces(v@, 0),
        v@.subrange(r.0 as int, r.1 as int) == trim(v@),
{
    let mut a: usize = 0;
    while a < v.len() && is_space_exec(v[a])
        invariant
            a <= v@.len(),
            skip_spaces(v@, 0) == skip_spaces(v@, a as int),
        decreases v@.len() - a,
    {
        a += 1;
    }
    let mut b: usize = v.len();
    while a < b && is_space_exec(v[b - 1])
        invariant
            a <= b <= v@.len(),
            drop_trailing(v@, a as int, v@.len() as int) == drop_trailing(v@, a as int, b as int),
        decreases b - a,
    {
        b -= 1;
    }
    (a, b)
}

/// The characters `v[from..to]`.
pub fn slice(v: &Vec<char>, from: usize, to: usize) -> (r: Vec<char>)
    requires
        from <= to <= v@.len(),
    ensures
        r@ == v@.subrange(from as int, to as int),
{
    let mut r: Vec<char> = Vec::new();
    let mut i: usize = from;
    while i < to
        invariant
            from <= i <= to <= v@.len(),
            r@ == v@.subrange(from as int, i as int),
        decreases to - i,
    {
        r.push(v[i]);
        i += 1;
        assert(r@ =~= v@.subrange(from as int, i as int));
    }
    r
}

/// `v` without leading and trailing white space.
pub fn trimmed(v: &Vec<char>) -> (r: Vec<char>)
    ensures
        r@ == trim(v@),
{
    let (a, b) = trim_range(v);
    slice(v, a, b)
}

/// Whether `p` occurs in `s` at index `i`.
pub fn matches_at_exec(s: &Vec<char>, p: &Vec<char>, i: usize) -> (r: bool)
    ensures
        r == matches_at(s@, p@, i as int),
{
    if p.len() > s.len() || i > s.len() - p.len() {
        return false;
    }
    let mut k: usize = 0;
    while k < p.len()
        invariant
            i + p@.len() <= s@.len(),
            s@.len() == s.len(),
            k <= p@.len(),
            forall|j: int| 0 <= j < k ==> s@[i + j] == p@[j],
        decreases p@.len() - k,
    {
        if s[i + k] != p[k] {
            assert(s@.subrange(i as int, i + p@.len())[k as int] != p@[k as int]);
            return false;
        }
        k += 1;
    }
    assert(s@.subrange(i as int, i + p@.len()) =~= p@);
    true
}

/// The first index at or after `from` where `p` occurs in `s`.
pub fn find_exec(s: &Vec<char>, p: &Vec<char>, from: usize) -> (r: Option<usize>)
    ensures
        r matches Some(i) ==> find_from(s@, p@, from as int) == Some(i as int) && matches_at(
            s@,
            p@,
            i as int,
        ) && i + p@.len() <= s.len(),
        r is None ==> find_from(s@, p@, from as int) is None,
{
    let mut i: usize = from;
    loop
        invariant
            from <= i,
            find_from(s@, p@, from as int) == find_from(s@, p@, i as int),
        decreases s@.len() - i,
    {
        if p.len() > s.len() || i > s.len() - p.len() {
            return None;
        }
        if matches_at_exec(s, p, i) {
            return Some(i);
        }
        if i + p.len() >= s.len() {
            return None;
        }
        i += 1;
    }
}

/// `s` with every occurrence of `p` replaced by `r`, scanning left to right.
pub fn replace_exec(s: &Vec<char>, p: &Vec<char>, r: &Vec<char>) -> (out: Vec<char>)
    ensures
        out@ == replace(s@, p@, r@),
{
    let mut out: Vec<char> = Vec::new();
    let mut i: usize = 0;
    while i < s.len()
        invariant
            i <= s@.len(),
            out@ + replace_from(s@, p@, r@, i as int) == replace(s@, p@, r@),
        decreases s@.len() - i,
    {
        if p.len() > 0 && matches_at_exec(s, p, i) {
            let mut k: usize = 0;
            let ghost before = out@;
            while k < r.len()
                invariant
                    k <= r@.len(),
                    out@ == before + r@.take(k as int),
                decreases r@.len() - k,
            {
                out.push(r[k]);
                k += 1;
                assert(out@ =~= before + r@.take(k as int));
            }
            assert(r@.take(r@.len() as int) =~= r@);
            assert(out@ + replace_from(s@, p@, r@, i + p@.len()) =~= before + (r@
                + replace_from(s@, p@, r@, i + p@.len())));
            i += p.len();
        } else {
            let ghost before = out@;
            out.push(s[i]);
            assert(out@ + replace_from(s@, p@, r@, i + 1) =~= before + (seq![s@[i as int]]
                + replace_from(s@, p@, r@, i + 1)));
            i += 1;
        }
    }
    assert(out@ =~= out@ + replace_from(s@, p@, r@, i as int));
    out
}


/// The `n`-th piece (from 0) of `s` split at the occurrences of `p`.
pub fn split_piece_exec(s: &Vec<char>, p: &Vec<char>, n: usize) -> (r: Option<Vec<char>>)
    ensures
        r matches Some(v) ==> split_piece(s@, p@, n as nat) == Some(v@),
        r is None ==> split_piece(s@, p@, n as nat) is None,
    decreases n,
{
    match find_exec(s, p, 0) {
        None => {
            if n == 0 {
                Some(slice(s, 0, s.len()))
            } else {
                None
            }
        },
        Some(i) => {
            if n == 0 {
                Some(slice(s, 0, i))
            } else {
                assert(i + p@.len() <= s@.len());
                assert(s@.len() == s.len());
                let rest = slice(s, i + p.len(), s.len());
                assert(rest@ =~= s@.skip(i + p@.len()));
                split_piece_exec(&rest, p, n - 1)
            }
        },
    }
}

/// The last index below `j` that holds `c`.
pub fn rfind_char_exec(s: &Vec<char>, c: char, j: usize) -> (r: Option<usize>)
    requires
        j <= s@.len(),
    ensures
        r matches Some(i) ==> rfind_char(s@, c, j as int) == Some(i as int) && i < j,
        r is None ==> rfind_char(s@, c, j as int) is None,
{
    let mut k: usize = j;
    while k > 0 && s[k - 1] != c
        invariant
            k <= j <= s@.len(),
            rfind_char(s@, c, j as int) == rfind_char(s@, c, k as int),
        decreases k,
    {
        k -= 1;
    }
    if k == 0 {
        None
    } else {
        Some(k - 1)
    }
}

/// The text between the first and the last double quote of `s`, where there are two.
pub fn quoted_exec(s: &Vec<char>) -> (r: Option<Vec<char>>)
    ensures
        r matches Some(v) ==> quoted(s@) == Some(v@),
        r is None ==> quoted(s@) is None,
{
    let q = vec!['"'];
    assert(q@ =~= seq!['"']);
    match (find_exec(s, &q, 0), rfind_char_exec(s, '"', s.len())) {
        (Some(f), Some(l)) => {
            if f < l {
                Some(slice(s, f + 1, l))
            } else {
                None
            }
        },
        _ => None,
    }
}

/// Script text with its escapes resolved (see [`clean_up_text`]).
pub fn clean_up_chars(v: &Vec<char>) -> (r: Vec<char>)
    ensures
        r@ == clean_up(v@),
{
    let once = replace_exec(v, &chars_of("\\\""), &chars_of("\""));
    replace_exec(&once, &chars_of("\\n"), &chars_of("\n"))
}

/// Whether `s` holds the text `p`.
pub fn contains_exec(s: &Vec<char>, p: &str) -> (r: bool)
    ensures
        r == contains(s@, p@),
{
    find_exec(s, &chars_of(p), 0).is_some()
}

/// The characters of `v` as a string.
pub fn text_of(v: &Vec<char>) -> (r: String)
    ensures
        r@ == v@,
{
    let r = string_of(v, 0, v.len());
    assert(v@.subrange(0, v@.len() as int) =~= v@);
    r
}

/// Whether `s` ends with the text `p`.
pub fn ends_with_exec(s: &Vec<char>, p: &str) -> (r: bool)
    ensures
        r == ends_with(s@, p@),
{
    let pv = chars_of(p);
    if pv.len() > s.len() {
        return false;
    }
    matches_at_exec(s, &pv, s.len() - pv.len())
}

/// Whether `s` begins with the text `p`.
pub fn starts_with_exec(s: &Vec<char>, p: &str) -> (r: bool)
    ensures
        r == starts_with(s@, p@),
{
    matches_at_exec(s, &chars_of(p), 0)
}

/// Whether `a` and `b` hold the same characters.
pub fn equal_chars(a: &Vec<char>, b: &Vec<char>) -> (r: bool)
    ensures
        r == (a@ == b@),
{
    if a.len() != b.len() {
        return false;
    }
    let r = matches_at_exec(a, b, 0);
    assert(a@.subrange(0, b@.len() as int) =~= a@);
    r
}

/// Resolves the escapes of script text: an escaped quote (backslash, quote) becomes a
/// quote, then an escaped `n` (backslash, `n`) becomes a line break.
pub fn clean_up_text(text: String) -> (r: String)
    ensures
        r@ == clean_up(text@),
{
    let v = chars_of(text.as_str());
    let r = clean_up_chars(&v);
    string_of(&r, 0, r.len())
}

/// Makes text safe for the slide markup: `$`, `%`, `#` and `_` are preceded by a
/// backslash, and empty text becomes `~`, a non-breaking space, so that no slide body
/// is ever empty.
pub fn escape_for_latex(text: String) -> (r: String)
    ensures
        r@ == escape(text@),
{
    let v = chars_of(text.as_str());
    if v.len() == 0 {
        return String::from_str("~");
    }
    let a = replace_exec(&v, &chars_of("$"), &chars_of("\\$"));
    let b = replace_exec(&a, &chars_of("%"), &chars_of("\\%"));
    let c = replace_exec(&b, &chars_of("#"), &chars_of("\\#"));
    let d = replace_exec(&c, &chars_of("_"), &chars_of("\\_"));
    string_of(&d, 0, d.len())
}

} // verus!
