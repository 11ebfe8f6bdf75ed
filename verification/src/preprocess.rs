//! Rewriting of statements that the parser does not know.

use crate::text;
use vstd::prelude::*;
use vstd::string::*;

verus! {

/// A text with its ASCII letters in upper case.
pub open spec fn upper(s: Seq<char>) -> Seq<char> {
    s.map_values(|c: char| text::ascii_upper(c))
}

/// Whether a text has another at a position.
pub open spec fn occurs_at(s: Seq<char>, t: Seq<char>, i: int) -> bool {
    0 <= i && i + t.len() <= s.len() && s.subrange(i, i + t.len()) == t
}

/// The first position, from `i` on, at which a text has another.
pub open spec fn found_from(s: Seq<char>, t: Seq<char>, i: int) -> Option<int>
    decreases s.len() + 1 - i,
{
    if i + t.len() > s.len() || i > s.len() {
        None
    } else if occurs_at(s, t, i) {
        Some(i)
    } else {
        found_from(s, t, i + 1)
    }
}

/// The tokenizer that a full-text index names after its columns; `simple` where it names
/// none.
pub open spec fn tokenizer_of(tail: Seq<char>) -> Seq<char> {
    if occurs_at(upper(tail), "USING "@, 0) {
        text::trimmed(tail.skip("USING "@.len() as int))
    } else {
        "simple"@
    }
}

/// The statement that creates an index with a method.
pub open spec fn index_statement(name: Seq<char>, table: Seq<char>, tokenizer: Seq<char>, column: Seq<char>) -> Seq<
    char,
> {
    "CREATE INDEX "@ + name + " ON "@ + table + " USING "@ + tokenizer + " ("@ + column + ")"@
}

/// The columns and the tokenizer of a full-text index of a table: the text from the opening
/// parenthesis on.
pub open spec fn rewritten_columns(name: Seq<char>, table: Seq<char>, paren: Seq<char>) -> Option<Seq<char>> {
    match found_from(paren, ")"@, 0) {
        None => None,
        Some(k) => Some(
            index_statement(
                name,
                table,
                tokenizer_of(text::trimmed(paren.skip(k + 1))),
                text::trimmed(paren.subrange(1, k)),
            ),
        ),
    }
}

/// The statement for a full-text index: what follows `CREATE FULLTEXT INDEX`.
pub open spec fn rewritten_index(rest: Seq<char>) -> Option<Seq<char>> {
    match found_from(upper(rest), " ON "@, 0) {
        None => None,
        Some(i) => {
            let after = text::trimmed(rest.skip(i + " ON "@.len()));
            match found_from(after, "("@, 0) {
                None => None,
                Some(j) => rewritten_columns(
                    text::trimmed(rest.take(i)),
                    text::trimmed(after.take(j)),
                    after.skip(j),
                ),
            }
        },
    }
}

/// A statement as the parser takes it: `CREATE FULLTEXT INDEX name ON table (column) [USING
/// tokenizer]` becomes `CREATE INDEX name ON table USING tokenizer (column)`, anything else
/// stays as it is.
pub open spec fn preprocessed(sql: Seq<char>) -> Seq<char> {
    let t = text::trimmed(sql);
    if occurs_at(upper(t), "CREATE FULLTEXT INDEX"@, 0) {
        match rewritten_index(text::trimmed(t.skip("CREATE FULLTEXT INDEX"@.len() as int))) {
            Some(s) => s,
            None => sql,
        }
    } else {
        sql
    }
}

/// The upper case equivalent of an ASCII letter.
fn to_ascii_upper(c: char) -> (out: char)
    ensures
        out == text::ascii_upper(c),
{
    if 'a' <= c && c <= 'z' {
        let n: u8 = (c as u32 - 32) as u8;
        n as char
    } else {
        c
    }
}

/// The characters of a text with its ASCII letters in upper case.
fn upper_chars(s: &Vec<char>) -> (out: Vec<char>)
    ensures
        out@ == upper(s@),
{
    let mut out: Vec<char> = Vec::new();
    for i in 0..s.len()
        invariant
            out@.len() == i,
            forall|j: int| 0 <= j < i ==> out@[j] == text::ascii_upper(s@[j]),
    {
        out.push(to_ascii_upper(s[i]));
    }
    assert(out@ =~= upper(s@));
    out
}

/// Whether a text has another at a position.
fn has_at(s: &Vec<char>, t: &Vec<char>, i: usize) -> (out: bool)
    ensures
        out == occurs_at(s@, t@, i as int),
{
    if t.len() > s.len() || i > s.len() - t.len() {
        return false;
    }
    let n = s.len();
    for k in 0..t.len()
        invariant
            n == s@.len(),
            i + t@.len() <= n,
            forall|j: int| 0 <= j < k ==> s@[i + j] == t@[j],
    {
        if s[i + k] != t[k] {
            assert(s@.subrange(i as int, i + t@.len())[k as int] != t@[k as int]);
            return false;
        }
    }
    assert(s@.subrange(i as int, i + t@.len()) =~= t@);
    true
}

/// The first position at which a text has another.
fn find(s: &Vec<char>, t: &Vec<char>) -> (out: Option<usize>)
    ensures
        match out {
            Some(i) => found_from(s@, t@, 0) == Some(i as int) && i + t@.len() <= s@.len(),
            None => found_from(s@, t@, 0) is None,
        },
{
    if t.len() > s.len() {
        return None;
    }
    let last: usize = s.len() - t.len();
    let mut i: usize = 0;
    loop
        invariant
            i <= last,
            last + t@.len() == s@.len(),
            found_from(s@, t@, 0) == found_from(s@, t@, i as int),
        decreases last - i,
    {
        if has_at(s, t, i) {
            return Some(i);
        }
        if i == last {
            assert(found_from(s@, t@, i + 1) is None);
            return None;
        }
        i = i + 1;
    }
}

/// The trimmed text of some characters of a text.
fn trimmed_range(s: &Vec<char>, from: usize, to: usize) -> (out: Vec<char>)
    requires
        from <= to <= s@.len(),
    ensures
        out@ == text::trimmed(s@.subrange(from as int, to as int)),
{
    let part = text::text_of_range(s, from, to);
    let trimmed = text::trim(part.as_str());
    text::chars_of(trimmed.as_str())
}

/// The tokenizer that a full-text index names after its columns.
fn find_tokenizer(tail: &Vec<char>) -> (out: Vec<char>)
    ensures
        out@ == tokenizer_of(tail@),
{
    let using = text::chars_of("USING ");
    let raised = upper_chars(tail);
    if has_at(&raised, &using, 0) {
        let out = trimmed_range(tail, using.len(), tail.len());
        assert(tail@.subrange(using@.len() as int, tail@.len() as int) =~= tail@.skip(using@.len() as int));
        out
    } else {
        text::chars_of("simple")
    }
}

/// The statement that creates an index with a method.
fn write_index(name: &Vec<char>, table: &Vec<char>, tokenizer: &Vec<char>, column: &Vec<char>) -> (out: String)
    ensures
        out@ == index_statement(name@, table@, tokenizer@, column@),
{
    let mut out = String::new();
    let name = text::text_of(name);
    let table = text::text_of(table);
    let tokenizer = text::text_of(tokenizer);
    let column = text::text_of(column);
    text::append(&mut out, "CREATE INDEX ");
    text::append(&mut out, name.as_str());
    text::append(&mut out, " ON ");
    text::append(&mut out, table.as_str());
    text::append(&mut out, " USING ");
    text::append(&mut out, tokenizer.as_str());
    text::append(&mut out, " (");
    text::append(&mut out, column.as_str());
    text::append(&mut out, ")");
    assert(out@ =~= index_statement(name@, table@, tokenizer@, column@));
    out
}

/// The model of an optional text.
spec fn maybe_text(o: Option<String>) -> Option<Seq<char>> {
    match o {
        Some(s) => Some(s@),
        None => None,
    }
}

/// The statement for a full-text index, from the opening parenthesis on.
fn rewrite_columns(name: &Vec<char>, table: &Vec<char>, paren: &Vec<char>) -> (out: Option<String>)
    requires
        paren@.len() > 0,
        paren@[0] == '(',
    ensures
        maybe_text(out) == rewritten_columns(name@, table@, paren@),
{
    let close = text::chars_of(")");
    proof {
        reveal_strlit(")");
        assert(close@.len() == 1 && close@[0] == ')');
    }
    match find(paren, &close) {
        None => None,
        Some(k) => {
            proof {
                if k == 0 {
                    found_occurs(paren@, close@, 0);
                    assert(paren@.subrange(0, 1)[0] == '(');
                }
            }
            let n = paren.len();
            let tail = trimmed_range(paren, k + 1, n);
            assert(paren@.subrange(k + 1, paren@.len() as int) =~= paren@.skip(k + 1));
            let tokenizer = find_tokenizer(&tail);
            let column = trimmed_range(paren, 1, k);
            Some(write_index(name, table, &tokenizer, &column))
        },
    }
}

/// What is found at a position occurs there.
proof fn found_occurs(s: Seq<char>, t: Seq<char>, i: int)
    requires
        i >= 0,
    ensures
        found_from(s, t, i) matches Some(k) ==> occurs_at(s, t, k) && k >= i,
    decreases s.len() + 1 - i,
{
    if i + t.len() <= s.len() && !occurs_at(s, t, i) {
        found_occurs(s, t, i + 1);
    }
}

/// The statement for a full-text index.
fn rewrite_index(rest: &Vec<char>) -> (out: Option<String>)
    ensures
        maybe_text(out) == rewritten_index(rest@),
{
    let on = text::chars_of(" ON ");
    let raised = upper_chars(rest);
    match find(&raised, &on) {
        None => None,
        Some(i) => {
            let n = rest.len();
            let after = trimmed_range(rest, i + on.len(), n);
            assert(rest@.subrange(i + on@.len(), rest@.len() as int) =~= rest@.skip(i + on@.len()));
            let open = text::chars_of("(");
            match find(&after, &open) {
                None => None,
                Some(j) => {
                    proof {
                        reveal_strlit("(");
                        found_occurs(after@, open@, 0);
                        assert(after@.subrange(j as int, j + 1)[0] == '(');
                    }
                    let name = trimmed_range(rest, 0, i);
                    assert(rest@.subrange(0, i as int) =~= rest@.take(i as int));
                    let table = trimmed_range(&after, 0, j);
                    assert(after@.subrange(0, j as int) =~= after@.take(j as int));
                    let paren_text = text::text_of_range(&after, j, after.len());
                    let paren = text::chars_of(paren_text.as_str());
                    assert(paren@ =~= after@.skip(j as int));
                    rewrite_columns(&name, &table, &paren)
                },
            }
        },
    }
}

/// A statement as the parser takes it.
pub fn preprocess_sql(sql: &str) -> (out: String)
    ensures
        out@ == preprocessed(sql@),
{
    let trimmed = text::trim(sql);
    let chars = text::chars_of(trimmed.as_str());
    let create = text::chars_of("CREATE FULLTEXT INDEX");
    let raised = upper_chars(&chars);
    if has_at(&raised, &create, 0) {
        let rest = trimmed_range(&chars, create.len(), chars.len());
        assert(chars@.subrange(create@.len() as int, chars@.len() as int) =~= chars@.skip(create@.len() as int));
        match rewrite_index(&rest) {
            Some(s) => s,
            None => sql.to_owned(),
        }
    } else {
        sql.to_owned()
    }
}

/// A text that begins and ends with other than white space is trimmed.
proof fn trimmed_already(s: Seq<char>)
    requires
        s.len() > 0,
        !text::is_space(s[0]),
        !text::is_space(s.last()),
    ensures
        text::trimmed(s) == s,
{
}

/// What is rewritten begins with other words than what is.
proof fn rewritten_stays(name: Seq<char>, table: Seq<char>, tokenizer: Seq<char>, column: Seq<char>)
    ensures
        preprocessed(index_statement(name, table, tokenizer, column)) == index_statement(name, table, tokenizer, column),
{
    let s = index_statement(name, table, tokenizer, column);
    reveal_strlit("CREATE INDEX ");
    reveal_strlit(")");
    reveal_strlit("CREATE FULLTEXT INDEX");
    let start = "CREATE INDEX "@;
    let create = "CREATE FULLTEXT INDEX"@;
    let end = ")"@;
    assert(s[0] == start[0] && start[0] == 'C');
    assert(s[7] == start[7] && start[7] == 'I');
    assert(s.last() == end[0] && end[0] == ')');
    trimmed_already(s);
    if occurs_at(upper(s), create, 0) {
        assert(upper(s).subrange(0, create.len() as int)[7] == create[7]);
        assert(upper(s)[7] == text::ascii_upper('I'));
    }
}

/// Preprocessing a preprocessed statement changes nothing.
pub proof fn preprocessing_twice_changes_nothing(sql: Seq<char>)
    ensures
        preprocessed(preprocessed(sql)) == preprocessed(sql),
{
    let t = text::trimmed(sql);
    let rest = text::trimmed(t.skip("CREATE FULLTEXT INDEX"@.len() as int));
    if occurs_at(upper(t), "CREATE FULLTEXT INDEX"@, 0) && rewritten_index(rest) is Some {
        let i = found_from(upper(rest), " ON "@, 0)->0;
        let after = text::trimmed(rest.skip(i + " ON "@.len()));
        let j = found_from(after, "("@, 0)->0;
        let paren = after.skip(j);
        let k = found_from(paren, ")"@, 0)->0;
        rewritten_stays(
            text::trimmed(rest.take(i)),
            text::trimmed(after.take(j)),
            tokenizer_of(text::trimmed(paren.skip(k + 1))),
            text::trimmed(paren.subrange(1, k)),
        );
    }
}

} // verus!
