//! Small string utilities shared by the rest of the crate.

use vstd::prelude::*;
use vstd::std_specs::iter::IteratorSpec;
use vstd::string::*;

verus! {

broadcast use vstd::string::group_string_axioms;

/// The character that stands for a single decimal digit.
pub open spec fn digit_char(d: nat) -> char
    recommends
        d < 10,
{
    if d == 0 {
        '0'
    } else if d == 1 {
        '1'
    } else if d == 2 {
        '2'
    } else if d == 3 {
        '3'
    } else if d == 4 {
        '4'
    } else if d == 5 {
        '5'
    } else if d == 6 {
        '6'
    } else if d == 7 {
        '7'
    } else if d == 8 {
        '8'
    } else {
        '9'
    }
}

/// The decimal representation of a natural number, most significant digit first.
pub open spec fn decimal(n: nat) -> Seq<char>
    decreases n,
{
    if n < 10 {
        seq![digit_char(n)]
    } else {
        decimal(n / 10).push(digit_char(n % 10))
    }
}

/// The one-character string of a decimal digit.
fn digit_str(d: u64) -> (s: &'static str)
    requires
        d < 10,
    ensures
        s@ == seq![digit_char(d as nat)],
{
    proof {
        reveal_strlit("0");
        reveal_strlit("1");
        reveal_strlit("2");
        reveal_strlit("3");
        reveal_strlit("4");
        reveal_strlit("5");
        reveal_strlit("6");
        reveal_strlit("7");
        reveal_strlit("8");
        reveal_strlit("9");
    }
    let s = if d == 0 {
        "0"
    } else if d == 1 {
        "1"
    } else if d == 2 {
        "2"
    } else if d == 3 {
        "3"
    } else if d == 4 {
        "4"
    } else if d == 5 {
        "5"
    } else if d == 6 {
        "6"
    } else if d == 7 {
        "7"
    } else if d == 8 {
        "8"
    } else {
        "9"
    };
    assert(s@ =~= seq![digit_char(d as nat)]);
    s
}

/// Writes a number in decimal.
pub fn u64_to_string(n: u64) -> (s: String)
    ensures
        s@ == decimal(n as nat),
    decreases n,
{
    if n < 10 {
        String::from_str(digit_str(n))
    } else {
        let head = u64_to_string(n / 10);
        head.concat(digit_str(n % 10))
    }
}

/// Whether two string slices hold the same characters.
pub fn str_eq(a: &str, b: &str) -> (r: bool)
    ensures
        r == (a@ == b@),
{
    let x = String::from_str(a);
    let y = String::from_str(b);
    x == y
}

/// The characters of a string slice, in order.
pub fn chars_of(s: &str) -> (v: Vec<char>)
    ensures
        v@ == s@,
{
    let mut it = s.chars();
    let mut out: Vec<char> = Vec::new();
    loop
        invariant
            out@ + it.remaining() == s@,
            it.obeys_prophetic_iter_laws(),
        ensures
            out@ == s@,
        decreases s@.len() - out@.len(),
    {
        let ghost before = it.remaining();
        match it.next() {
            Some(c) => {
                out.push(c);
                assert(out@ + it.remaining() =~= s@) by {
                    assert(before =~= seq![c] + before.drop_first());
                }
            },
            None => {
                assert(out@ =~= s@);
                break ;
            },
        }
    }
    out
}

/// Whether `text` begins with the characters of `prefix`.
pub fn has_prefix(text: &Vec<char>, prefix: &str) -> (r: bool)
    ensures
        r == prefix@.is_prefix_of(text@),
{
    let p = chars_of(prefix);
    if p.len() > text.len() {
        return false;
    }
    let mut i: usize = 0;
    while i < p.len()
        invariant
            i <= p.len(),
            p.len() <= text.len(),
            p@ == prefix@,
            forall|k: int| 0 <= k < i ==> p@[k] == text@[k],
        decreases p.len() - i,
    {
        if p[i] != text[i] {
            assert(prefix@[i as int] != text@.subrange(0, prefix@.len() as int)[i as int]);
            return false;
        }
        i = i + 1;
    }
    assert(prefix@ =~= text@.subrange(0, prefix@.len() as int));
    true
}

/// The characters that `char::is_whitespace` accepts: the code points with
/// the Unicode property `White_Space`.
pub open spec fn is_whitespace(c: char) -> bool {
    let u = c as u32;
    (0x09 <= u <= 0x0D) || u == 0x20 || u == 0x85 || u == 0xA0 || u == 0x1680 || (0x2000 <= u
        <= 0x200A) || u == 0x2028 || u == 0x2029 || u == 0x202F || u == 0x205F || u == 0x3000
}

/// Tests a character for white space.
pub fn char_is_whitespace(c: char) -> (r: bool)
    ensures
        r == is_whitespace(c),
{
    let u: u32 = c as u32;
    (0x09 <= u && u <= 0x0D) || u == 0x20 || u == 0x85 || u == 0xA0 || u == 0x1680 || (0x2000 <= u
        && u <= 0x200A) || u == 0x2028 || u == 0x2029 || u == 0x202F || u == 0x205F || u == 0x3000
}

/// The index of the first character at or after `from` that is no white
/// space, or the length where there is none.
pub open spec fn trim_start_at(s: Seq<char>, from: int) -> int
    decreases s.len() - from,
{
    if from < 0 || from >= s.len() || !is_whitespace(s[from]) {
        from
    } else {
        trim_start_at(s, from + 1)
    }
}

/// The index just after the last character below `to` and not below `from`
/// that is no white space, or `from` where there is none.
pub open spec fn trim_end_at(s: Seq<char>, from: int, to: int) -> int
    decreases to - from,
{
    if to <= from || to > s.len() || !is_whitespace(s[to - 1]) {
        to
    } else {
        trim_end_at(s, from, to - 1)
    }
}

/// A text without its leading and trailing white space, as `str::trim` gives it.
pub open spec fn trimmed(s: Seq<char>) -> Seq<char> {
    let start = trim_start_at(s, 0);
    s.subrange(start, trim_end_at(s, start, s.len() as int))
}

/// The bounds of a text within its surrounding white space.
pub fn trim_bounds(text: &Vec<char>) -> (r: (usize, usize))
    ensures
        r.0 <= r.1 <= text.len(),
        r.0 == trim_start_at(text@, 0),
        r.1 == trim_end_at(text@, r.0 as int, text@.len() as int),
        trimmed(text@) == text@.subrange(r.0 as int, r.1 as int),
{
    let mut start: usize = 0;
    while start < text.len() && char_is_whitespace(text[start])
        invariant
            start <= text.len(),
            trim_start_at(text@, 0) == trim_start_at(text@, start as int),
        decreases text.len() - start,
    {
        start = start + 1;
    }
    let mut end: usize = text.len();
    while end > start && char_is_whitespace(text[end - 1])
        invariant
            start <= end <= text.len(),
            trim_end_at(text@, start as int, text@.len() as int) == trim_end_at(
                text@,
                start as int,
                end as int,
            ),
        decreases end - start,
    {
        end = end - 1;
    }
    (start, end)
}

/// Whether a text, without its surrounding white space, is exactly `token`.
pub fn trimmed_is(text: &Vec<char>, token: &str) -> (r: bool)
    ensures
        r == (trimmed(text@) == token@),
{
    let t = chars_of(token);
    let (start, end) = trim_bounds(text);
    if end - start != t.len() {
        return false;
    }
    let mut i: usize = 0;
    while i < t.len()
        invariant
            i <= t.len(),
            start <= end <= text.len(),
            end - start == t.len(),
            t@ == token@,
            trimmed(text@) == text@.subrange(start as int, end as int),
            forall|k: int| 0 <= k < i ==> t@[k] == text@[start + k],
        decreases t.len() - i,
    {
        if t[i] != text[start + i] {
            assert(text@.subrange(start as int, end as int)[i as int] != token@[i as int]);
            return false;
        }
        i = i + 1;
    }
    assert(text@.subrange(start as int, end as int) =~= token@);
    true
}

/// Two numbers with the same decimal representation are the same number.
pub proof fn lemma_decimal_injective(a: nat, b: nat)
    requires
        decimal(a) == decimal(b),
    ensures
        a == b,
    decreases a,
{
    if a < 10 {
        if b >= 10 {
            lemma_decimal_len(b / 10);
            assert(decimal(b).len() >= 2);
            assert(decimal(a).len() == 1);
        } else {
            assert(decimal(a)[0] == digit_char(a));
            assert(decimal(b)[0] == digit_char(b));
            lemma_digit_char_injective(a, b);
        }
    } else {
        if b < 10 {
            lemma_decimal_len(a / 10);
            assert(decimal(a).len() >= 2);
            assert(decimal(b).len() == 1);
        } else {
            let x = decimal(a / 10);
            let y = decimal(b / 10);
            assert(decimal(a) == x.push(digit_char(a % 10)));
            assert(decimal(b) == y.push(digit_char(b % 10)));
            assert(decimal(a).last() == digit_char(a % 10));
            assert(decimal(b).last() == digit_char(b % 10));
            lemma_digit_char_injective(a % 10, b % 10);
            assert(x =~= decimal(a).drop_last());
            assert(y =~= decimal(b).drop_last());
            lemma_decimal_injective(a / 10, b / 10);
            assert(a == 10 * (a / 10) + a % 10);
            assert(b == 10 * (b / 10) + b % 10);
        }
    }
}

/// Different digits have different characters.
pub proof fn lemma_digit_char_injective(a: nat, b: nat)
    requires
        a < 10,
        b < 10,
        digit_char(a) == digit_char(b),
    ensures
        a == b,
{
}

/// A decimal representation has at least one digit.
pub proof fn lemma_decimal_len(n: nat)
    ensures
        decimal(n).len() >= 1,
    decreases n,
{
    if n >= 10 {
        lemma_decimal_len(n / 10);
    }
}

/// The views of a list of strings.
pub open spec fn texts(list: Seq<String>) -> Seq<Seq<char>> {
    list.map_values(|s: String| s@)
}

/// Copies a list of strings.
pub fn clone_strings(list: &Vec<String>) -> (copy: Vec<String>)
    ensures
        texts(copy@) == texts(list@),
{
    let mut copy: Vec<String> = Vec::new();
    let mut i: usize = 0;
    while i < list.len()
        invariant
            i <= list.len(),
            copy@.len() == i,
            forall|k: int| 0 <= k < i ==> (#[trigger] copy@[k])@ == list@[k]@,
        decreases list.len() - i,
    {
        copy.push(list[i].clone());
        i = i + 1;
    }
    assert(texts(copy@) =~= texts(list@));
    copy
}

/// The decimal representation of an integer, with a minus sign where it is
/// negative.
pub open spec fn decimal_int(i: int) -> Seq<char> {
    if i < 0 {
        seq!['-'] + decimal((-i) as nat)
    } else {
        decimal(i as nat)
    }
}

/// Writes a signed number in decimal.
pub fn i32_to_string(i: i32) -> (s: String)
    ensures
        s@ == decimal_int(i as int),
{
    if i < 0 {
        proof {
            reveal_strlit("-");
        }
        let magnitude: u64 = (0 - (i as i64)) as u64;
        let s = String::from_str("-").concat(u64_to_string(magnitude).as_str());
        assert(s@ =~= decimal_int(i as int));
        s
    } else {
        u64_to_string(i as u64)
    }
}

/// Writes a size in decimal.
pub fn usize_to_string(n: usize) -> (s: String)
    ensures
        s@ == decimal(n as nat),
{
    u64_to_string(n as u64)
}

/// A text without its trailing white space, as `str::trim_end` gives it.
pub open spec fn trimmed_end(s: Seq<char>) -> Seq<char> {
    s.subrange(0, trim_end_at(s, 0, s.len() as int))
}

/// The length of a text without its trailing white space.
pub fn trim_end_len(text: &Vec<char>) -> (end: usize)
    ensures
        end <= text.len(),
        end == trim_end_at(text@, 0, text@.len() as int),
{
    let mut end: usize = text.len();
    while end > 0 && char_is_whitespace(text[end - 1])
        invariant
            end <= text.len(),
            trim_end_at(text@, 0, text@.len() as int) == trim_end_at(text@, 0, end as int),
        decreases end,
    {
        end = end - 1;
    }
    end
}

/// Removes the trailing white space of a text.
pub fn trim_end(s: &str) -> (r: String)
    ensures
        r@ == trimmed_end(s@),
{
    let text = chars_of(s);
    let end = trim_end_len(&text);
    String::from_str(s.substring_char(0, end))
}

/// Removes the leading and trailing white space of a text.
pub fn trim(s: &str) -> (r: String)
    ensures
        r@ == trimmed(s@),
{
    let text = chars_of(s);
    let (start, end) = trim_bounds(&text);
    String::from_str(s.substring_char(start, end))
}

/// The index of the first occurrence of a character, if it occurs.
pub open spec fn first_index_of(s: Seq<char>, c: char) -> Option<int> {
    if exists|i: int| 0 <= i < s.len() && s[i] == c {
        Some(choose|i: int| 0 <= i < s.len() && s[i] == c && forall|k: int| 0 <= k < i ==> s[k] != c)
    } else {
        None
    }
}

/// Finds the first occurrence of a character.
pub fn find_char(text: &Vec<char>, c: char) -> (r: Option<usize>)
    ensures
        match r {
            Some(i) => i < text@.len() && text@[i as int] == c && forall|k: int|
                0 <= k < i ==> text@[k] != c,
            None => forall|k: int| 0 <= k < text@.len() ==> text@[k] != c,
        },
        match r {
            Some(i) => first_index_of(text@, c) == Some(i as int),
            None => first_index_of(text@, c) is None,
        },
{
    let mut i: usize = 0;
    while i < text.len()
        invariant
            i <= text.len(),
            forall|k: int| 0 <= k < i ==> text@[k] != c,
        decreases text.len() - i,
    {
        if text[i] == c {
            proof {
                let s = text@;
                let j = choose|j: int|
                    0 <= j < s.len() && s[j] == c && forall|k: int| 0 <= k < j ==> s[k] != c;
                assert(0 <= i < s.len() && s[i as int] == c && forall|k: int|
                    0 <= k < i ==> s[k] != c);
                if j < i {
                    assert(s[j] != c);
                } else if i < j {
                    assert(s[i as int] != c);
                }
            }
            return Some(i);
        }
        i = i + 1;
    }
    None
}

/// Whether a character occurs in a text.
pub fn contains_char(text: &Vec<char>, c: char) -> (r: bool)
    ensures
        r == text@.contains(c),
{
    match find_char(text, c) {
        Some(i) => {
            assert(text@[i as int] == c);
            true
        },
        None => false,
    }
}

/// Collects characters into a `String`, as `String`'s `FromIterator` for
/// characters does: the string holds exactly these characters, in order.
#[verifier::external_body]
pub(crate) fn string_from_chars(chars: &Vec<char>) -> (s: String)
    ensures
        s@ == chars@,
{
    String::from_iter(chars.iter())
}

/// Appends the characters of `more` to `out`.
pub fn push_chars(out: &mut Vec<char>, more: &Vec<char>)
    ensures
        final(out)@ == old(out)@ + more@,
{
    let mut i: usize = 0;
    while i < more.len()
        invariant
            i <= more.len(),
            out@ == old(out)@ + more@.take(i as int),
        decreases more.len() - i,
    {
        out.push(more[i]);
        i = i + 1;
        assert(out@ =~= old(out)@ + more@.take(i as int));
    }
    assert(more@.take(more@.len() as int) =~= more@);
}

/// A line without the carriage return at its end, if it has one.
pub open spec fn strip_cr(line: Seq<char>) -> Seq<char> {
    if line.len() > 0 && line.last() == '\r' {
        line.drop_last()
    } else {
        line
    }
}

/// The lines of a text, as `str::lines` gives them: the text is cut after
/// each line feed; a line loses its line feed and a carriage return before
/// it; what follows the last line feed is a line if it is not empty.
#[verifier::opaque]
pub open spec fn lines_of(s: Seq<char>) -> Seq<Seq<char>>
    decreases s.len(),
{
    if s.len() == 0 {
        Seq::empty()
    } else {
        match first_index_of(s, '\n') {
            None => seq![s],
            Some(i) => if 0 <= i < s.len() {
                seq![strip_cr(s.take(i))] + lines_of(s.skip(i + 1))
            } else {
                seq![s]
            },
        }
    }
}

/// The views of a list of lines.
pub open spec fn lines_view(lines: Seq<Vec<char>>) -> Seq<Seq<char>> {
    lines.map_values(|l: Vec<char>| l@)
}

/// The characters of `text` from `from` up to `to`.
pub fn slice_chars(text: &Vec<char>, from: usize, to: usize) -> (r: Vec<char>)
    requires
        from <= to <= text.len(),
    ensures
        r@ == text@.subrange(from as int, to as int),
{
    let mut out: Vec<char> = Vec::new();
    let mut i: usize = from;
    while i < to
        invariant
            from <= i <= to <= text.len(),
            out@ == text@.subrange(from as int, i as int),
        decreases to - i,
    {
        out.push(text[i]);
        i = i + 1;
        assert(out@ =~= text@.subrange(from as int, i as int));
    }
    out
}

/// The lines of what follows `start`, where the next line feed stands at `i`.
pub proof fn lemma_lines_cut(s: Seq<char>, start: int, i: int)
    requires
        0 <= start <= i < s.len(),
        s[i] == '\n',
        forall|k: int| start <= k < i ==> s[k] != '\n',
    ensures
        lines_of(s.skip(start)) == seq![strip_cr(s.subrange(start, i))] + lines_of(s.skip(i + 1)),
{
    reveal(lines_of);
    let rest = s.skip(start);
    let at = i - start;
    assert(rest[at] == '\n');
    assert forall|k: int| 0 <= k < at implies rest[k] != '\n' by {
        assert(rest[k] == s[start + k]);
    }
    let found = first_index_of(rest, '\n');
    assert(found is Some);
    let j = found->0;
    assert(0 <= j < rest.len() && rest[j] == '\n' && forall|k: int|
        0 <= k < j ==> rest[k] != '\n');
    if j < at {
        assert(rest[j] != '\n');
    } else if at < j {
        assert(rest[at] != '\n');
    }
    assert(rest.skip(at + 1) =~= s.skip(i + 1));
    assert(rest.take(at) =~= s.subrange(start, i));
}

/// The lines of what follows `start`, where no line feed follows.
pub proof fn lemma_lines_rest(s: Seq<char>, start: int)
    requires
        0 <= start <= s.len(),
        forall|k: int| start <= k < s.len() ==> s[k] != '\n',
    ensures
        lines_of(s.skip(start)) == if start < s.len() {
            seq![s.skip(start)]
        } else {
            Seq::<Seq<char>>::empty()
        },
{
    reveal(lines_of);
    let rest = s.skip(start);
    if start < s.len() {
        assert forall|k: int| 0 <= k < rest.len() implies rest[k] != '\n' by {
            assert(rest[k] == s[start + k]);
        }
        assert(first_index_of(rest, '\n') is None);
    }
}

/// Cuts a text into its lines.
pub fn split_lines(text: &Vec<char>) -> (lines: Vec<Vec<char>>)
    ensures
        lines_view(lines@) == lines_of(text@),
{
    let mut lines: Vec<Vec<char>> = Vec::new();
    let mut start: usize = 0;
    let mut i: usize = 0;
    let ghost mut done: Seq<Seq<char>> = Seq::empty();
    proof {
        assert(text@.skip(0) =~= text@);
        assert(done + lines_of(text@.skip(0)) =~= lines_of(text@));
        assert(lines_view(lines@) =~= done);
    }
    while i < text.len()
        invariant
            start <= i <= text.len(),
            lines_view(lines@) == done,
            done + lines_of(text@.skip(start as int)) == lines_of(text@),
            forall|k: int| start <= k < i ==> text@[k] != '\n',
        decreases text.len() - i,
    {
        if text[i] == '\n' {
            let end = if i > start && text[i - 1] == '\r' {
                i - 1
            } else {
                i
            };
            let line = slice_chars(text, start, end);
            proof {
                lemma_lines_cut(text@, start as int, i as int);
                let whole = text@.subrange(start as int, i as int);
                assert(line@ =~= strip_cr(whole));
                let tail = lines_of(text@.skip(i + 1));
                assert(done + (seq![line@] + tail) =~= done.push(line@) + tail);
            }
            lines.push(line);
            proof {
                assert(lines_view(lines@) =~= done.push(line@));
                done = done.push(line@);
            }
            start = i + 1;
        }
        i = i + 1;
    }
    proof {
        lemma_lines_rest(text@, start as int);
    }
    if start < text.len() {
        let line = slice_chars(text, start, text.len());
        proof {
            assert(line@ =~= text@.skip(start as int));
            assert(done + seq![line@] =~= done.push(line@));
        }
        lines.push(line);
        assert(lines_view(lines@) =~= done.push(line@));
    } else {
        assert(done + Seq::<Seq<char>>::empty() =~= done);
    }
    lines
}

/// Lines put together with a line feed between each two.
pub open spec fn joined(lines: Seq<Seq<char>>) -> Seq<char>
    decreases lines.len(),
{
    if lines.len() == 0 {
        Seq::empty()
    } else if lines.len() == 1 {
        lines[0]
    } else {
        joined(lines.drop_last()) + seq!['\n'] + lines.last()
    }
}

/// Puts the lines from `from` on together with a line feed between each two.
pub fn join_lines(lines: &Vec<Vec<char>>, from: usize) -> (out: Vec<char>)
    requires
        from <= lines.len(),
    ensures
        out@ == joined(lines_view(lines@).skip(from as int)),
{
    let ghost all = lines_view(lines@).skip(from as int);
    let mut out: Vec<char> = Vec::new();
    let mut i: usize = from;
    assert(all.take(0) =~= Seq::<Seq<char>>::empty());
    while i < lines.len()
        invariant
            from <= i <= lines.len(),
            all == lines_view(lines@).skip(from as int),
            out@ == joined(all.take(i - from)),
        decreases lines.len() - i,
    {
        proof {
            let upto = all.take(i - from + 1);
            assert(upto.drop_last() =~= all.take(i - from));
            assert(upto.last() == lines@[i as int]@);
            if i > from {
                assert(upto.len() > 1);
            } else {
                assert(upto.len() == 1);
                assert(upto[0] == lines@[i as int]@);
            }
        }
        if i > from {
            out.push('\n');
        }
        let ghost before = out@;
        push_chars(&mut out, &lines[i]);
        assert(out@ =~= joined(all.take(i - from + 1))) by {
            if i > from {
                assert(before =~= joined(all.take(i - from)) + seq!['\n']);
            } else {
                assert(before =~= Seq::<char>::empty());
            }
        }
        i = i + 1;
    }
    assert(all.take(i - from) =~= all);
    out
}

/// What `String::from_utf8_lossy` makes of bytes: their text, with the
/// replacement character in place of what is no UTF-8.
pub uninterp spec fn utf8_lossy(bytes: Seq<u8>) -> Seq<char>;

/// Reads bytes as text with `String::from_utf8_lossy`. The result is
/// `utf8_lossy` of the bytes.
#[verifier::external_body]
pub(crate) fn lossy_text(bytes: &Vec<u8>) -> (s: String)
    ensures
        s@ == utf8_lossy(bytes@),
{
    String::from_utf8_lossy(bytes).into_owned()
}

/// What `String::from_utf8` makes of bytes: their text, or the text of the
/// error it reports for bytes that are no UTF-8.
pub uninterp spec fn utf8_strict(bytes: Seq<u8>) -> Result<Seq<char>, Seq<char>>;

/// Reads bytes as text with `String::from_utf8`; an error is given as the
/// text it displays. The result is `utf8_strict` of the bytes.
#[verifier::external_body]
pub(crate) fn strict_text(bytes: Vec<u8>) -> (r: Result<String, String>)
    ensures
        match r {
            Ok(s) => utf8_strict(bytes@) == Ok::<Seq<char>, Seq<char>>(s@),
            Err(e) => utf8_strict(bytes@) == Err::<Seq<char>, Seq<char>>(e@),
        },
{
    String::from_utf8(bytes).map_err(|e| e.to_string())
}

} // verus!
