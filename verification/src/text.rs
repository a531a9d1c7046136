//! Text helpers shared by the library: decimal rendering and parsing of
//! unsigned integers, SQL quote escaping and character-level string building.
use vstd::prelude::*;

verus! {

/// The decimal digit character for `d` (for `0 <= d < 10`).
pub open spec fn digit_char(d: int) -> char {
    if d == 0 {
        '0'
    } else if d == 1 {
        '1'
    } else if d == 2 {
        '2'
    } else if d == 3 {
        '3'
    } else if d == 4 {
        '4'
    } else if d == 5 {
        '5'
    } else if d == 6 {
        '6'
    } else if d == 7 {
        '7'
    } else if d == 8 {
        '8'
    } else {
        '9'
    }
}

/// The decimal representation of `n`, without sign or leading zeros.
pub open spec fn decimal(n: nat) -> Seq<char>
    decreases n,
{
    if n < 10 {
        seq![digit_char(n as int)]
    } else {
        decimal(n / 10).push(digit_char((n % 10) as int))
    }
}

/// Appends one character to a string.
/// Trusted: `String::push`, which std documents as appending the given
/// `char` to the end of the string.
#[verifier::external_body]
pub(crate) fn push_char(s: &mut String, c: char)
    ensures
        final(s)@ == old(s)@.push(c),
{
    s.push(c)
}

fn digit_to_char(d: u32) -> (c: char)
    requires
        d < 10,
    ensures
        c == digit_char(d as int),
{
    if d == 0 {
        '0'
    } else if d == 1 {
        '1'
    } else if d == 2 {
        '2'
    } else if d == 3 {
        '3'
    } else if d == 4 {
        '4'
    } else if d == 5 {
        '5'
    } else if d == 6 {
        '6'
    } else if d == 7 {
        '7'
    } else if d == 8 {
        '8'
    } else {
        '9'
    }
}

/// Appends the decimal representation of `n` to `s`.
pub fn push_decimal(s: &mut String, n: u32)
    ensures
        final(s)@ == old(s)@ + decimal(n as nat),
    decreases n,
{
    if n < 10 {
        push_char(s, digit_to_char(n));
    } else {
        push_decimal(s, n / 10);
        push_char(s, digit_to_char(n % 10));
    }
}

/// Appends the decimal representation of the count `n` to `s`.
pub fn push_decimal_usize(s: &mut String, n: usize)
    ensures
        final(s)@ == old(s)@ + decimal(n as nat),
    decreases n,
{
    if n < 10 {
        push_char(s, digit_to_char(n as u32));
    } else {
        push_decimal_usize(s, n / 10);
        push_char(s, digit_to_char((n % 10) as u32));
    }
}

/// The decimal representation of `n`, as `n.to_string()` gives it.
pub fn u32_to_decimal(n: u32) -> (s: String)
    ensures
        s@ == decimal(n as nat),
{
    let mut s = String::new();
    push_decimal(&mut s, n);
    s
}


/// The characters of `s`, in order.
pub fn chars_of(s: &str) -> (v: Vec<char>)
    ensures
        v@ == s@,
{
    let mut v: Vec<char> = Vec::new();
    for c in it: s.chars()
        invariant
            v@ == it.seq().take(it.index() as int),
    {
        v.push(c);
    }
    v
}


/// The escape of one character: a single quote doubled, anything else as it
/// is.
pub open spec fn escape_char(c: char) -> Seq<char> {
    if c == '\'' {
        seq!['\'', '\'']
    } else {
        seq![c]
    }
}

/// `s` with every single quote doubled, the way SQL escapes a quote inside
/// a quoted string literal.
pub open spec fn escape_quotes(s: Seq<char>) -> Seq<char>
    decreases s.len(),
{
    if s.len() == 0 {
        s
    } else {
        escape_quotes(s.drop_last()) + escape_char(s.last())
    }
}

/// Doubles every single quote of `input`, as `input.replace("'", "''")` does.
pub fn escape_sql(input: &str) -> (res: String)
    ensures
        res@ == escape_quotes(input@),
{
    let mut res = String::new();
    for c in it: input.chars()
        invariant
            it.seq() == input@,
            res@ == escape_quotes(input@.take(it.index() as int)),
    {
        let ghost i = it.index() as int;
        assert(input@.take(i + 1).drop_last() =~= input@.take(i));
        if c == '\'' {
            push_char(&mut res, '\'');
            push_char(&mut res, '\'');
        } else {
            push_char(&mut res, c);
        }
    }
    assert(input@.take(input@.len() as int) =~= input@);
    res
}


/// Whether `c` is one of the ASCII digits `0` to `9`.
pub open spec fn is_digit(c: char) -> bool {
    48 <= (c as u32) <= 57
}

/// The numeric value of the ASCII digit `c`.
pub open spec fn digit_value(c: char) -> int {
    (c as u32) - 48
}

/// Whether every character of `ds` is an ASCII digit.
pub open spec fn all_digits(ds: Seq<char>) -> bool {
    forall|i: int| 0 <= i < ds.len() ==> is_digit(#[trigger] ds[i])
}

/// The value of the decimal numeral `ds` (most significant digit first).
pub open spec fn digits_value(ds: Seq<char>) -> int
    decreases ds.len(),
{
    if ds.len() == 0 {
        0
    } else {
        digits_value(ds.drop_last()) * 10 + digit_value(ds.last())
    }
}

/// The digits of an unsigned numeral: `s` without one leading `+`.
pub open spec fn unsigned_digits(s: Seq<char>) -> Seq<char> {
    if s.len() > 0 && s[0] == '+' {
        s.drop_first()
    } else {
        s
    }
}

/// What `str::parse::<u32>` gives for `s`: an optional `+` followed by at
/// least one ASCII digit, whose value fits in a `u32`; anything else fails.
pub open spec fn parse_u32_spec(s: Seq<char>) -> Option<u32> {
    let ds = unsigned_digits(s);
    if ds.len() > 0 && all_digits(ds) && digits_value(ds) <= u32::MAX {
        Some(digits_value(ds) as u32)
    } else {
        None
    }
}

proof fn lemma_digits_value_prefix(ds: Seq<char>, j: int)
    requires
        all_digits(ds),
        0 <= j <= ds.len(),
    ensures
        0 <= digits_value(ds.take(j)) <= digits_value(ds),
    decreases ds.len(),
{
    if ds.len() == 0 {
        assert(ds.take(j) =~= ds);
    } else if j == ds.len() {
        assert(ds.take(j) =~= ds);
        lemma_digits_value_prefix(ds.drop_last(), j - 1);
    } else {
        assert(is_digit(ds[ds.len() - 1]));
        assert(all_digits(ds.drop_last()));
        lemma_digits_value_prefix(ds.drop_last(), j);
        assert(ds.drop_last().take(j) =~= ds.take(j));
        lemma_digits_value_prefix(ds.drop_last(), ds.len() - 1);
        assert(ds.drop_last().take(ds.len() - 1) =~= ds.drop_last());
    }
}

/// Parses the numeral held in `s[lo..hi]` as `str::parse::<u32>` would.
pub fn parse_u32_chars(s: &Vec<char>, lo: usize, hi: usize) -> (r: Option<u32>)
    requires
        lo <= hi <= s.len(),
    ensures
        r == parse_u32_spec(s@.subrange(lo as int, hi as int)),
{
    let ghost whole = s@.subrange(lo as int, hi as int);
    let mut start = lo;
    if lo < hi && s[lo] == '+' {
        start = lo + 1;
    }
    let ghost ds = s@.subrange(start as int, hi as int);
    assert(ds =~= unsigned_digits(whole));
    if start == hi {
        return None;
    }
    let mut acc: u64 = 0;
    let mut i = start;
    while i < hi
        invariant
            lo <= start <= i <= hi <= s.len(),
            ds == s@.subrange(start as int, hi as int),
            ds == unsigned_digits(whole),
            whole == s@.subrange(lo as int, hi as int),
            all_digits(ds.take(i - start)),
            acc == digits_value(ds.take(i - start)),
            acc <= u32::MAX,
        decreases hi - i,
    {
        let c = s[i];
        let cv = c as u32;
        let ghost k = i - start;
        assert(ds[k] == c);
        if cv < 48 || cv > 57 {
            assert(!is_digit(ds[k]));
            return None;
        }
        assert(ds.take(k + 1).drop_last() =~= ds.take(k));
        assert(ds.take(k + 1).last() == c);
        acc = acc * 10 + (cv - 48) as u64;
        assert(all_digits(ds.take(k + 1)));
        if acc > 4294967295 {
            proof {
                if all_digits(ds) {
                    lemma_digits_value_prefix(ds, k + 1);
                }
            }
            return None;
        }
        i = i + 1;
    }
    assert(ds.take(hi - start) =~= ds);
    Some(acc as u32)
}

/// Parses `s` as `str::parse::<u32>` would.
pub fn parse_u32(s: &str) -> (r: Option<u32>)
    ensures
        r == parse_u32_spec(s@),
{
    let v = chars_of(s);
    assert(v@.subrange(0, v@.len() as int) =~= s@);
    parse_u32_chars(&v, 0, v.len())
}

/// A number written in decimal reads back as itself: its decimal text is a
/// non-empty run of digits, without commas, that parses to the number.
pub proof fn lemma_decimal_reads_back(n: nat)
    requires
        n <= u32::MAX,
    ensures
        decimal(n).len() > 0,
        all_digits(decimal(n)),
        digits_value(decimal(n)) == n,
        !decimal(n).contains(','),
        parse_u32_spec(decimal(n)) == Some(n as u32),
    decreases n,
{
    let d = decimal(n);
    if n < 10 {
        assert(d.drop_last() =~= Seq::<char>::empty());
        assert(digit_value(digit_char(n as int)) == n);
        assert(digits_value(d) == digits_value(d.drop_last()) * 10 + digit_value(d.last()));
        assert(digits_value(Seq::<char>::empty()) == 0);
    } else {
        lemma_decimal_reads_back(n / 10);
        let p = decimal(n / 10);
        assert(d.drop_last() =~= p);
        assert(digit_value(digit_char((n % 10) as int)) == n % 10);
        assert(d.last() == digit_char((n % 10) as int));
        assert(digits_value(d) == digits_value(p) * 10 + digit_value(d.last()));
        assert((n / 10) * 10 + n % 10 == n);
        assert forall|i: int| 0 <= i < d.len() implies is_digit(#[trigger] d[i]) by {
            if i < p.len() {
                assert(d[i] == p[i]);
            }
        }
        assert forall|i: int| 0 <= i < d.len() implies d[i] != ',' by {
            assert(is_digit(d[i]));
        }
    }
    assert(is_digit(d[0]));
    assert(unsigned_digits(d) == d);
}

/// How SQL reads the body of a single-quoted string literal: two single
/// quotes in a row stand for one.
pub open spec fn sql_literal_text(e: Seq<char>) -> Seq<char>
    decreases e.len(),
{
    if e.len() == 0 {
        e
    } else if e.len() >= 2 && e[0] == '\'' && e[1] == '\'' {
        seq!['\''] + sql_literal_text(e.skip(2))
    } else {
        seq![e[0]] + sql_literal_text(e.drop_first())
    }
}

/// Whether every single quote of `e` is one of a doubled pair, so that `e`
/// cannot end a single-quoted SQL string literal early.
pub open spec fn quotes_paired(e: Seq<char>) -> bool
    decreases e.len(),
{
    if e.len() == 0 {
        true
    } else if e[0] == '\'' {
        e.len() >= 2 && e[1] == '\'' && quotes_paired(e.skip(2))
    } else {
        quotes_paired(e.drop_first())
    }
}

proof fn lemma_escape_front(s: Seq<char>)
    requires
        s.len() > 0,
    ensures
        escape_quotes(s) == escape_char(s[0]) + escape_quotes(s.drop_first()),
    decreases s.len(),
{
    if s.len() == 1 {
        assert(s.drop_last() =~= Seq::<char>::empty());
        assert(s.drop_first() =~= Seq::<char>::empty());
        assert(escape_quotes(s.drop_last()) =~= Seq::<char>::empty());
        assert(s.last() == s[0]);
        assert(escape_quotes(s) =~= escape_char(s[0]));
        assert(escape_char(s[0]) + Seq::<char>::empty() =~= escape_char(s[0]));
    } else {
        let t = s.drop_last();
        lemma_escape_front(t);
        assert(t[0] == s[0]);
        assert(t.drop_first() =~= s.drop_first().drop_last());
        assert(s.drop_first().last() == s.last());
        assert(escape_quotes(s) =~= escape_quotes(t) + escape_char(s.last()));
        assert(escape_quotes(s.drop_first()) =~= escape_quotes(t.drop_first()) + escape_char(s.last()));
        assert(escape_quotes(s) =~= escape_char(s[0]) + escape_quotes(s.drop_first()));
    }
}

/// Escaping makes a text safe to put in a single-quoted SQL string literal:
/// every quote of the escaped text is doubled, and SQL reads the literal
/// back as the text itself.
pub proof fn lemma_escape_reads_back(s: Seq<char>)
    ensures
        quotes_paired(escape_quotes(s)),
        sql_literal_text(escape_quotes(s)) == s,
    decreases s.len(),
{
    if s.len() == 0 {
        assert(escape_quotes(s) =~= s);
    } else {
        lemma_escape_front(s);
        let rest = s.drop_first();
        lemma_escape_reads_back(rest);
        let e = escape_quotes(s);
        let er = escape_quotes(rest);
        if s[0] == '\'' {
            assert(e.skip(2) =~= er);
            assert(e[0] == '\'' && e[1] == '\'');
            assert(seq!['\''] + rest =~= s);
        } else {
            assert(e.drop_first() =~= er);
            assert(e[0] == s[0]);
            assert(seq![s[0]] + rest =~= s);
        }
    }
}

/// A text without single quotes is its own escape, and SQL reads it back
/// from a quoted literal as itself.
pub proof fn lemma_quote_free_text(s: Seq<char>)
    requires
        !s.contains('\''),
    ensures
        escape_quotes(s) == s,
        sql_literal_text(s) == s,
    decreases s.len(),
{
    if s.len() > 0 {
        let t = s.drop_first();
        assert(!t.contains('\'')) by {
            if t.contains('\'') {
                let i = choose|i: int| 0 <= i < t.len() && t[i] == '\'';
                assert(s[i + 1] == '\'');
            }
        }
        lemma_quote_free_text(t);
        lemma_escape_front(s);
        assert(s[0] != '\'');
        assert(seq![s[0]] + t =~= s);
    }
}

pub proof fn lemma_decimal_quote_free(n: nat)
    requires
        n <= u32::MAX,
    ensures
        !decimal(n).contains('\''),
{
    lemma_decimal_reads_back(n);
    let d = decimal(n);
    if d.contains('\'') {
        let i = choose|i: int| 0 <= i < d.len() && d[i] == '\'';
        assert(is_digit(d[i]));
    }
}

/// A number written in decimal into a quoted SQL literal reads back as its
/// decimal text, and so as the number.
pub proof fn lemma_quoted_decimal_reads_back(n: nat)
    requires
        n <= u32::MAX,
    ensures
        sql_literal_text(decimal(n)) == decimal(n),
        parse_u32_spec(decimal(n)) == Some(n as u32),
{
    lemma_decimal_quote_free(n);
    lemma_quote_free_text(decimal(n));
    lemma_decimal_reads_back(n);
}


/// The value of the single-quoted SQL string literal whose text starts at
/// the beginning of `s` (just after its opening quote), as SQL reads it: a
/// doubled quote stands for one quote, a lone quote closes the literal.
pub open spec fn literal_value(s: Seq<char>) -> Seq<char>
    decreases s.len(),
{
    if s.len() == 0 {
        s
    } else if s[0] == '\'' {
        if s.len() >= 2 && s[1] == '\'' {
            seq!['\''] + literal_value(s.skip(2))
        } else {
            Seq::empty()
        }
    } else {
        seq![s[0]] + literal_value(s.drop_first())
    }
}

/// What follows the closing quote of the literal whose text starts at the
/// beginning of `s`; empty when the literal is never closed.
pub open spec fn literal_rest(s: Seq<char>) -> Seq<char>
    decreases s.len(),
{
    if s.len() == 0 {
        s
    } else if s[0] == '\'' {
        if s.len() >= 2 && s[1] == '\'' {
            literal_rest(s.skip(2))
        } else {
            s.drop_first()
        }
    } else {
        literal_rest(s.drop_first())
    }
}

/// What follows a literal is shorter than the literal's text with it.
pub proof fn lemma_literal_rest_shorter(s: Seq<char>)
    ensures
        literal_rest(s).len() <= s.len(),
    decreases s.len(),
{
    if s.len() > 0 {
        if s[0] == '\'' {
            if s.len() >= 2 && s[1] == '\'' {
                lemma_literal_rest_shorter(s.skip(2));
            }
        } else {
            lemma_literal_rest_shorter(s.drop_first());
        }
    }
}

/// The values of the single-quoted string literals of the SQL statement
/// `s`, in order: what running the statement stores for them.
pub open spec fn sql_literals(s: Seq<char>) -> Seq<Seq<char>>
    decreases s.len(),
{
    if s.len() == 0 {
        Seq::empty()
    } else if s[0] == '\'' {
        proof {
            lemma_literal_rest_shorter(s.drop_first());
        }
        seq![literal_value(s.drop_first())] + sql_literals(literal_rest(s.drop_first()))
    } else {
        sql_literals(s.drop_first())
    }
}

/// Text without a quote holds no literal and opens none.
pub proof fn lemma_literals_skip(p: Seq<char>, s: Seq<char>)
    requires
        !p.contains('\''),
    ensures
        sql_literals(p + s) == sql_literals(s),
    decreases p.len(),
{
    if p.len() > 0 {
        let t = p.drop_first();
        assert(!t.contains('\'')) by {
            if t.contains('\'') {
                let i = choose|i: int| 0 <= i < t.len() && t[i] == '\'';
                assert(p[i + 1] == '\'');
            }
        }
        assert(p[0] != '\'');
        lemma_literals_skip(t, s);
        assert((p + s).drop_first() =~= t + s);
    }
}

/// Text escaped for SQL, closed by a quote that no quote follows, reads back
/// as the text, and the literal ends there.
proof fn lemma_literal_escaped(raw: Seq<char>, rest: Seq<char>)
    requires
        rest.len() == 0 || rest[0] != '\'',
    ensures
        literal_value(escape_quotes(raw) + seq!['\''] + rest) == raw,
        literal_rest(escape_quotes(raw) + seq!['\''] + rest) == rest,
    decreases raw.len(),
{
    let s = escape_quotes(raw) + seq!['\''] + rest;
    if raw.len() == 0 {
        assert(escape_quotes(raw) =~= raw);
        assert(s =~= seq!['\''] + rest);
        assert(s.drop_first() =~= rest);
        assert(Seq::<char>::empty() =~= raw);
    } else {
        lemma_escape_front(raw);
        let r2 = raw.drop_first();
        lemma_literal_escaped(r2, rest);
        let tail = escape_quotes(r2) + seq!['\''] + rest;
        if raw[0] == '\'' {
            assert(s =~= seq!['\'', '\''] + tail);
            assert(s.skip(2) =~= tail);
            assert(seq!['\''] + r2 =~= raw);
        } else {
            assert(s =~= seq![raw[0]] + tail);
            assert(s.drop_first() =~= tail);
            assert(seq![raw[0]] + r2 =~= raw);
        }
    }
}

/// A quoted literal holding text escaped for SQL, that no quote follows,
/// reads back as that text, and the statement goes on after it.
pub proof fn lemma_literals_quoted(raw: Seq<char>, rest: Seq<char>)
    requires
        rest.len() == 0 || rest[0] != '\'',
    ensures
        sql_literals(seq!['\''] + escape_quotes(raw) + seq!['\''] + rest) == seq![raw] + sql_literals(
            rest,
        ),
{
    let s = seq!['\''] + escape_quotes(raw) + seq!['\''] + rest;
    lemma_literal_escaped(raw, rest);
    assert(s.drop_first() =~= escape_quotes(raw) + seq!['\''] + rest);
}


/// Two texts without a quote make one without a quote.
pub proof fn lemma_no_quote_concat(a: Seq<char>, b: Seq<char>)
    requires
        !a.contains('\''),
        !b.contains('\''),
    ensures
        !(a + b).contains('\''),
{
    if (a + b).contains('\'') {
        let i = choose|i: int| 0 <= i < (a + b).len() && (a + b)[i] == '\'';
        if i < a.len() {
            assert(a[i] == '\'');
        } else {
            assert(b[i - a.len()] == '\'');
        }
    }
}

} // verus!
