//! Text helpers: models of the string operations the rest of the library uses.

use vstd::prelude::*;
use vstd::string::*;

verus! {

/// `String::push` appends one character.
pub assume_specification[ std::string::String::push ](s: &mut std::string::String, c: char)
    ensures
        final(s)@ == old(s)@.push(c),
;

/// What `str::to_uppercase` returns of a text that is not all ASCII: the uppercase equivalent
/// under Unicode.
pub uninterp spec fn unicode_uppercased(s: Seq<char>) -> Seq<char>;

/// What `str::to_lowercase` returns of a text that is not all ASCII: the lowercase equivalent
/// under Unicode.
pub uninterp spec fn unicode_lowercased(s: Seq<char>) -> Seq<char>;

/// Whether every character of a text is ASCII.
pub open spec fn all_ascii(s: Seq<char>) -> bool {
    forall|i: int| 0 <= i < s.len() ==> (#[trigger] s[i]) as int <= 127
}

/// The uppercase equivalent of an ASCII letter; any other character itself.
pub open spec fn ascii_upper(c: char) -> char {
    if 'a' <= c && c <= 'z' {
        (c as int - 'a' as int + 'A' as int) as char
    } else {
        c
    }
}

/// The lowercase equivalent of an ASCII letter; any other character itself.
pub open spec fn ascii_lower(c: char) -> char {
    if 'A' <= c && c <= 'Z' {
        (c as int - 'A' as int + 'a' as int) as char
    } else {
        c
    }
}

/// A text in upper case: ASCII texts letter by letter, others as Unicode has it.
pub open spec fn uppercased(s: Seq<char>) -> Seq<char> {
    if all_ascii(s) {
        s.map_values(|c: char| ascii_upper(c))
    } else {
        unicode_uppercased(s)
    }
}

/// A text in lower case: ASCII texts letter by letter, others as Unicode has it.
pub open spec fn lowercased(s: Seq<char>) -> Seq<char> {
    if all_ascii(s) {
        s.map_values(|c: char| ascii_lower(c))
    } else {
        unicode_lowercased(s)
    }
}

/// Whether a character has the Unicode property White_Space.
pub open spec fn is_space(c: char) -> bool {
    ||| '\u{9}' <= c && c <= '\u{d}'
    ||| c == ' '
    ||| c == '\u{85}'
    ||| c == '\u{a0}'
    ||| c == '\u{1680}'
    ||| '\u{2000}' <= c && c <= '\u{200a}'
    ||| c == '\u{2028}'
    ||| c == '\u{2029}'
    ||| c == '\u{202f}'
    ||| c == '\u{205f}'
    ||| c == '\u{3000}'
}

/// What `String::from_utf8_lossy` returns: the bytes read as UTF-8, with
/// replacement characters where they are not valid.
pub uninterp spec fn lossy_utf8(b: Seq<u8>) -> Seq<char>;

/// The message of the error of `str::parse::<i64>` on a text that is no `i64`.
pub uninterp spec fn int_parse_error(s: Seq<char>) -> Seq<char>;

/// A text as `Debug` writes it: in quotes, with what needs it escaped.
pub uninterp spec fn quoted(s: Seq<char>) -> Seq<char>;

/// A text without the white space at its start.
pub open spec fn start_trimmed(s: Seq<char>) -> Seq<char>
    decreases s.len(),
{
    if s.len() > 0 && is_space(s[0]) {
        start_trimmed(s.drop_first())
    } else {
        s
    }
}

/// A text without the white space at its end.
pub open spec fn end_trimmed(s: Seq<char>) -> Seq<char>
    decreases s.len(),
{
    if s.len() > 0 && is_space(s.last()) {
        end_trimmed(s.drop_last())
    } else {
        s
    }
}

/// A text without the white space at its start and its end.
pub open spec fn trimmed(s: Seq<char>) -> Seq<char> {
    end_trimmed(start_trimmed(s))
}

/// Whether two texts have the same characters. They do exactly where their UTF-8 encodings agree.
pub(crate) fn same_text(a: &str, b: &str) -> (same: bool)
    ensures
        same == (a@ == b@),
{
    let x: &[u8] = a.as_bytes();
    let y: &[u8] = b.as_bytes();
    proof {
        vstd::utf8::encode_utf8_decode_utf8(a@);
        vstd::utf8::encode_utf8_decode_utf8(b@);
    }
    if x.len() != y.len() {
        return false;
    }
    let mut i: usize = 0;
    while i < x.len()
        invariant
            x@.len() == y@.len(),
            x@ == vstd::utf8::encode_utf8(a@),
            y@ == vstd::utf8::encode_utf8(b@),
            i <= x@.len(),
            forall|k: int| 0 <= k < i ==> x@[k] == y@[k],
        decreases x@.len() - i,
    {
        if x[i] != y[i] {
            return false;
        }
        i += 1;
    }
    assert(x@ =~= y@);
    true
}

/// `str::to_uppercase`: of an ASCII text it changes the letters alone; of any other the result is
/// a function of the text.
#[verifier::external_body]
fn unicode_upper(s: &str) -> (out: String)
    ensures
        out@ == (if all_ascii(s@) {
            s@.map_values(|c: char| ascii_upper(c))
        } else {
            unicode_uppercased(s@)
        }),
{
    s.to_uppercase()
}

/// `str::to_lowercase`: of an ASCII text it changes the letters alone; of any other the result is
/// a function of the text.
#[verifier::external_body]
fn unicode_lower(s: &str) -> (out: String)
    ensures
        out@ == (if all_ascii(s@) {
            s@.map_values(|c: char| ascii_lower(c))
        } else {
            unicode_lowercased(s@)
        }),
{
    s.to_lowercase()
}

/// The text in upper case.
pub(crate) fn to_uppercase(s: &str) -> (out: String)
    ensures
        out@ == uppercased(s@),
{
    unicode_upper(s)
}

/// The text in lower case.
pub(crate) fn to_lowercase(s: &str) -> (out: String)
    ensures
        out@ == lowercased(s@),
{
    unicode_lower(s)
}

/// The `Debug` text of a `str`, which is a function of the text alone.
#[verifier::external_body]
pub(crate) fn quote(s: &str) -> (out: String)
    ensures
        out@ == quoted(s@),
{
    format!("{:?}", s)
}

/// `String::from_utf8_lossy`, whose result is a function of the bytes alone.
#[verifier::external_body]
pub(crate) fn from_utf8_lossy(bytes: &Vec<u8>) -> (out: String)
    ensures
        out@ == lossy_utf8(bytes@),
{
    String::from_utf8_lossy(bytes).into_owned()
}

/// Whether `c` is an ASCII decimal digit.
pub open spec fn is_digit(c: char) -> bool {
    '0' <= c && c <= '9'
}

/// Whether every character is an ASCII decimal digit.
pub open spec fn all_digits(s: Seq<char>) -> bool {
    forall|i: int| 0 <= i < s.len() ==> is_digit(#[trigger] s[i])
}

/// The number a run of decimal digits stands for.
pub open spec fn digits_value(s: Seq<char>) -> int
    decreases s.len(),
{
    if s.len() == 0 {
        0
    } else {
        digits_value(s.drop_last()) * 10 + (s.last() as int - '0' as int)
    }
}

/// The integer that a text stands for: an optional sign and at least one digit.
pub open spec fn int_value(s: Seq<char>) -> Option<int> {
    let signed = s.len() > 0 && (s[0] == '+' || s[0] == '-');
    let digits = if signed {
        s.skip(1)
    } else {
        s
    };
    if digits.len() == 0 || !all_digits(digits) {
        None
    } else if signed && s[0] == '-' {
        Some(-digits_value(digits))
    } else {
        Some(digits_value(digits))
    }
}

/// `str::parse::<i64>`: `Ok` with the integer exactly when the text is an optional
/// sign and decimal digits for a number in the range of `i64`; the error is given by
/// its message.
#[verifier::external_body]
pub(crate) fn parse_int(s: &str) -> (out: Result<i64, String>)
    ensures
        match out {
            Ok(v) => int_value(s@) == Some(v as int),
            Err(m) => m@ == int_parse_error(s@) && match int_value(s@) {
                Some(v) => v < i64::MIN || v > i64::MAX,
                None => true,
            },
        },
{
    s.parse::<i64>().map_err(|e| e.to_string())
}

/// The decimal digits of a natural number, without leading zeros.
pub open spec fn digits(n: nat) -> Seq<char>
    decreases n,
{
    if n < 10 {
        seq![('0' as int + n) as char]
    } else {
        digits(n / 10).push(('0' as int + n % 10) as char)
    }
}

/// The decimal text of an integer.
pub open spec fn int_text(i: int) -> Seq<char> {
    if i < 0 {
        seq!['-'] + digits((-i) as nat)
    } else {
        digits(i as nat)
    }
}

/// Appends the decimal digits of `n` to `out`.
fn push_digits(out: &mut String, n: u64)
    ensures
        final(out)@ == old(out)@ + digits(n as nat),
    decreases n,
{
    if n >= 10 {
        push_digits(out, n / 10);
    }
    let d: u8 = (n % 10) as u8;
    out.push((48u8 + d) as char);
    assert(final(out)@ =~= old(out)@ + digits(n as nat));
}

/// The decimal text of `i`.
pub fn int_to_text(i: i64) -> (out: String)
    ensures
        out@ == int_text(i as int),
{
    let mut out = String::new();
    if i < 0 {
        out.push('-');
        let magnitude: u64 = (-(i as i128)) as u64;
        push_digits(&mut out, magnitude);
    } else {
        push_digits(&mut out, i as u64);
    }
    assert(out@ =~= int_text(i as int));
    out
}

/// The decimal text of `n`.
pub fn usize_to_text(n: usize) -> (out: String)
    ensures
        out@ == int_text(n as int),
{
    let mut out = String::new();
    push_digits(&mut out, n as u64);
    assert(out@ =~= int_text(n as int));
    out
}

/// The characters of `s`.
pub fn chars_of(s: &str) -> (out: Vec<char>)
    ensures
        out@ == s@,
{
    let mut out: Vec<char> = Vec::new();
    for c in it: s.chars()
        invariant
            out@ == it.seq().take(it.index() as int),
            it.seq() == s@,
    {
        out.push(c);
        assert(out@ =~= it.seq().take(it.index() + 1));
    }
    assert(out@ =~= s@);
    out
}

/// The text of the characters `from..to` of `chars`.
pub fn text_of_range(chars: &Vec<char>, from: usize, to: usize) -> (out: String)
    requires
        from <= to <= chars@.len(),
    ensures
        out@ == chars@.subrange(from as int, to as int),
{
    let mut out = String::new();
    for i in from..to
        invariant
            from <= to <= chars@.len(),
            out@ == chars@.subrange(from as int, i as int),
    {
        out.push(chars[i]);
        assert(out@ =~= chars@.subrange(from as int, i + 1));
    }
    out
}

/// The text of all characters of `chars`.
pub fn text_of(chars: &Vec<char>) -> (out: String)
    ensures
        out@ == chars@,
{
    let out = text_of_range(chars, 0, chars.len());
    assert(out@ =~= chars@);
    out
}

/// `char::is_whitespace`: whether the character has the property White_Space.
#[verifier::external_body]
fn is_whitespace(c: char) -> (out: bool)
    ensures
        out == is_space(c),
{
    c.is_whitespace()
}

/// The text without the white space at its end.
pub fn trim_end(s: &str) -> (out: String)
    ensures
        out@ == end_trimmed(s@),
{
    let chars = chars_of(s);
    let mut n: usize = chars.len();
    assert(s@.take(n as int) =~= s@);
    while n > 0 && is_whitespace(chars[n - 1])
        invariant
            n <= chars@.len(),
            chars@ == s@,
            end_trimmed(s@) == end_trimmed(s@.take(n as int)),
        decreases n,
    {
        assert(s@.take(n as int).drop_last() =~= s@.take(n - 1));
        n = n - 1;
    }
    let out = text_of_range(&chars, 0, n);
    assert(out@ =~= s@.take(n as int));
    out
}

/// The text without the white space at its start and its end.
pub fn trim(s: &str) -> (out: String)
    ensures
        out@ == trimmed(s@),
{
    let chars = chars_of(s);
    let mut i: usize = 0;
    assert(s@.skip(0) =~= s@);
    while i < chars.len() && is_whitespace(chars[i])
        invariant
            i <= chars@.len(),
            chars@ == s@,
            start_trimmed(s@) == start_trimmed(s@.skip(i as int)),
        decreases chars.len() - i,
    {
        assert(s@.skip(i as int).drop_first() =~= s@.skip(i + 1));
        i = i + 1;
    }
    let rest = text_of_range(&chars, i, chars.len());
    assert(rest@ =~= s@.skip(i as int));
    trim_end(rest.as_str())
}

/// What follows the last `.` of a name; the whole name where it has none.
pub open spec fn unqualified(s: Seq<char>) -> Seq<char>
    decreases s.len(),
{
    if s.len() == 0 || s.last() == '.' {
        Seq::empty()
    } else {
        unqualified(s.drop_last()).push(s.last())
    }
}

/// The unqualified part of a name.
pub fn unqualified_name(s: &str) -> (out: String)
    ensures
        out@ == unqualified(s@),
{
    let chars = chars_of(s);
    let n = chars.len();
    let mut start: usize = n;
    while start > 0 && chars[start - 1] != '.'
        invariant
            start <= n,
            n == chars@.len(),
            chars@ == s@,
            forall|j: int| start <= j < n ==> chars@[j] != '.',
        decreases start,
    {
        start = start - 1;
    }
    proof {
        lemma_unqualified(s@, start as int);
    }
    text_of_range(&chars, start, n)
}

/// The part from `start` on, when nothing after it is a `.` and a `.` or the start of
/// the name comes before it.
proof fn lemma_unqualified(s: Seq<char>, start: int)
    requires
        0 <= start <= s.len(),
        start == 0 || s[start - 1] == '.',
        forall|j: int| start <= j < s.len() ==> s[j] != '.',
    ensures
        unqualified(s) == s.subrange(start, s.len() as int),
    decreases s.len(),
{
    if start < s.len() {
        lemma_unqualified(s.drop_last(), start);
        assert(s.drop_last().subrange(start, s.len() - 1).push(s.last()) =~= s.subrange(start, s.len() as int));
    }
    assert(unqualified(s) =~= s.subrange(start, s.len() as int));
}

/// Whether two column names denote the same column: they are equal, or one is the
/// unqualified part of the other.
pub open spec fn names_match(a: Seq<char>, b: Seq<char>) -> bool {
    a == b || unqualified(a) == b || unqualified(b) == a
}

/// Whether two column names denote the same column.
pub fn column_names_match(a: &str, b: &str) -> (matched: bool)
    ensures
        matched == names_match(a@, b@),
{
    if same_text(a, b) {
        return true;
    }
    let tail_a = unqualified_name(a);
    if same_text(tail_a.as_str(), b) {
        return true;
    }
    let tail_b = unqualified_name(b);
    same_text(tail_b.as_str(), a)
}

/// The views of a sequence of strings.
pub open spec fn views(s: Seq<String>) -> Seq<Seq<char>> {
    s.map_values(|e: String| e@)
}

/// A copy of a list of strings.
pub fn copy_strings(s: &Vec<String>) -> (out: Vec<String>)
    ensures
        views(out@) == views(s@),
        out@ == s@,
{
    let mut out: Vec<String> = Vec::new();
    for i in 0..s.len()
        invariant
            out@ == s@.take(i as int),
    {
        out.push(s[i].clone());
        assert(out@ =~= s@.take(i + 1));
    }
    assert(out@ =~= s@);
    out
}

/// Whether `name` is one of `names`.
pub fn contains_text(names: &Vec<String>, name: &str) -> (found: bool)
    ensures
        found == views(names@).contains(name@),
{
    for i in 0..names.len()
        invariant
            forall|j: int| 0 <= j < i ==> views(names@)[j] != name@,
    {
        if same_text(names[i].as_str(), name) {
            assert(views(names@)[i as int] == name@);
            return true;
        }
    }
    false
}

/// The pieces of a text between the occurrences of a separator.
pub open spec fn pieces(s: Seq<char>, separator: char) -> Seq<Seq<char>>
    decreases s.len(),
{
    if s.len() == 0 {
        seq![Seq::empty()]
    } else {
        let before = pieces(s.drop_last(), separator);
        if s.last() == separator {
            before.push(Seq::empty())
        } else {
            before.drop_last().push(before.last().push(s.last()))
        }
    }
}

/// Splits a text at the occurrences of a separator.
pub fn split(s: &str, separator: char) -> (out: Vec<String>)
    ensures
        views(out@) == pieces(s@, separator),
        out@.len() > 0,
{
    let chars = chars_of(s);
    let mut done: Vec<String> = Vec::new();
    let mut current = String::new();
    assert(views(done@).push(current@) =~= pieces(s@.take(0), separator));
    for i in 0..chars.len()
        invariant
            chars@ == s@,
            views(done@).push(current@) == pieces(s@.take(i as int), separator),
    {
        let ghost before = views(done@);
        let ghost whole = pieces(s@.take(i as int), separator);
        assert(s@.take(i + 1).drop_last() =~= s@.take(i as int));
        assert(whole.drop_last() =~= before);
        if chars[i] == separator {
            done.push(current);
            current = String::new();
            assert(views(done@) =~= whole);
            assert(current@ =~= Seq::empty());
        } else {
            current.push(chars[i]);
        }
    }
    let ghost last = current@;
    let ghost before = views(done@);
    done.push(current);
    assert(views(done@) =~= before.push(last));
    assert(s@.take(s@.len() as int) =~= s@);
    done
}

/// The texts one after another, with a separator between them.
pub open spec fn joined(parts: Seq<Seq<char>>, separator: char) -> Seq<char>
    decreases parts.len(),
{
    if parts.len() == 0 {
        Seq::empty()
    } else if parts.len() == 1 {
        parts[0]
    } else {
        joined(parts.drop_last(), separator).push(separator) + parts.last()
    }
}

/// Appends a text.
pub fn append(out: &mut String, s: &str)
    ensures
        final(out)@ == old(out)@ + s@,
{
    let chars = chars_of(s);
    let ghost before = out@;
    assert(before + s@.take(0) =~= before);
    for i in 0..chars.len()
        invariant
            chars@ == s@,
            out@ == before + s@.take(i as int),
    {
        out.push(chars[i]);
        assert(before + s@.take(i + 1) =~= (before + s@.take(i as int)).push(s@[i as int]));
    }
    assert(s@.take(s@.len() as int) =~= s@);
}

/// Joins texts with a separator between them.
pub fn join(parts: &Vec<String>, separator: char) -> (out: String)
    ensures
        out@ == joined(views(parts@), separator),
{
    let mut out = String::new();
    assert(out@ =~= joined(views(parts@).take(0), separator));
    for i in 0..parts.len()
        invariant
            out@ == joined(views(parts@).take(i as int), separator),
    {
        assert(views(parts@).take(i + 1).drop_last() =~= views(parts@).take(i as int));
        if i > 0 {
            out.push(separator);
        }
        append(&mut out, parts[i].as_str());
        assert(out@ =~= joined(views(parts@).take(i + 1), separator));
    }
    assert(views(parts@).take(parts@.len() as int) =~= views(parts@));
    out
}

/// The message of the error of `str::parse::<u64>` on a text that is no `u64`.
pub uninterp spec fn nat_parse_error(s: Seq<char>) -> Seq<char>;

/// The natural number that a text stands for: an optional plus sign and at least one digit.
pub open spec fn nat_value(s: Seq<char>) -> Option<int> {
    let digits = if s.len() > 0 && s[0] == '+' {
        s.skip(1)
    } else {
        s
    };
    if digits.len() == 0 || !all_digits(digits) {
        None
    } else {
        Some(digits_value(digits))
    }
}

/// `str::parse::<u64>`: `Ok` with the number exactly when the text is an optional plus sign
/// and decimal digits for a number in the range of `u64`; the error is given by its message.
#[verifier::external_body]
pub(crate) fn parse_nat(s: &str) -> (out: Result<u64, String>)
    ensures
        match out {
            Ok(v) => nat_value(s@) == Some(v as int),
            Err(m) => m@ == nat_parse_error(s@) && match nat_value(s@) {
                Some(v) => v > u64::MAX,
                None => true,
            },
        },
{
    s.parse::<u64>().map_err(|e| e.to_string())
}

/// Two names match in whichever order they are given.
pub proof fn names_match_both_ways(a: Seq<char>, b: Seq<char>)
    ensures
        names_match(a, b) == names_match(b, a),
        names_match(a, a),
{
}

proof fn the_last_part_has_no_dot(s: Seq<char>)
    ensures
        !unqualified(s).contains('.'),
    decreases s.len(),
{
    if s.len() > 0 && s.last() != '.' {
        the_last_part_has_no_dot(s.drop_last());
        let u = unqualified(s.drop_last());
        assert forall|i: int| 0 <= i < unqualified(s).len() implies unqualified(s)[i] != '.' by {
            if i < u.len() {
                assert(u.contains(u[i]));
            }
        }
    }
}

proof fn the_last_part_follows_the_dot(q: Seq<char>, name: Seq<char>)
    requires
        !name.contains('.'),
    ensures
        unqualified(q.push('.') + name) == name,
    decreases name.len(),
{
    let s = q.push('.') + name;
    if name.len() == 0 {
        assert(s =~= q.push('.'));
    } else {
        assert(name.contains(name.last()));
        assert(s.drop_last() =~= q.push('.') + name.drop_last());
        assert forall|i: int| 0 <= i < name.drop_last().len() implies name.drop_last()[i] != '.' by {
            assert(name.contains(name[i]));
        }
        the_last_part_follows_the_dot(q, name.drop_last());
        assert(name =~= name.drop_last().push(name.last()));
    }
}

/// A column's name matches it behind any qualifier, and behind two different qualifiers it does not
/// match itself.
pub proof fn names_match_behind_one_qualifier(p: Seq<char>, q: Seq<char>, name: Seq<char>)
    requires
        !name.contains('.'),
    ensures
        names_match(q.push('.') + name, name),
        p.push('.') + name != q.push('.') + name ==> !names_match(p.push('.') + name, q.push('.') + name),
{
    the_last_part_follows_the_dot(p, name);
    the_last_part_follows_the_dot(q, name);
    let a = p.push('.') + name;
    let b = q.push('.') + name;
    assert(a[p.len() as int] == '.');
    assert(b[q.len() as int] == '.');
    assert(a.contains('.') && b.contains('.'));
}

} // verus!
