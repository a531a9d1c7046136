//! Narrative texts: typed text made safe for SQL, and roll tables that map
//! ranges of roll results to texts and are stored as JSON.
use vstd::prelude::*;
use crate::roll_dice::Outcome;
use crate::text::{
    chars_of, decimal, digit_char, escape_quotes, escape_sql, lemma_decimal_reads_back,
    parse_u32_chars, parse_u32_spec, push_char, push_decimal,
};

verus! {

/// Text as the user typed it, with single quotes doubled for SQL.
#[derive(Clone, Debug)]
pub struct TypedNarrative {
    pub text: String,
}

impl TypedNarrative {
    pub fn new(text: String) -> (r: TypedNarrative)
        ensures
            r.text@ == escape_quotes(text@),
    {
        TypedNarrative { text: escape_sql(text.as_str()) }
    }
}

/// One row of a roll table: the inclusive range of roll results it covers
/// and its text, as plain values.
pub type TableEntryView = ((u32, u32), Seq<char>);

/// The rows of a roll table as plain values, in stored order.
pub open spec fn entries_view(table: Seq<((u32, u32), String)>) -> Seq<TableEntryView> {
    table.map_values(|e: ((u32, u32), String)| (e.0, e.1@))
}

/// The map that collecting `es` into a map gives: each range to the text of
/// its last row.
pub open spec fn entries_map(es: Seq<TableEntryView>) -> Map<(u32, u32), Seq<char>>
    decreases es.len(),
{
    if es.len() == 0 {
        Map::empty()
    } else {
        entries_map(es.drop_last()).insert(es.last().0, es.last().1)
    }
}

/// Whether no range occurs twice among the rows `es`.
pub open spec fn distinct_ranges(es: Seq<TableEntryView>) -> bool {
    forall|i: int, j: int| 0 <= i < es.len() && 0 <= j < es.len() && i != j ==> es[i].0 != es[j].0
}

/// Whether `range` covers the roll result `r`.
pub open spec fn covers(range: (u32, u32), r: u32) -> bool {
    range.0 <= r <= range.1
}

/// The text of the last row of `es` whose range covers `r`; empty when no
/// row does.
pub open spec fn last_covering_text(es: Seq<TableEntryView>, r: u32) -> Seq<char>
    decreases es.len(),
{
    if es.len() == 0 {
        Seq::empty()
    } else if covers(es.last().0, r) {
        es.last().1
    } else {
        last_covering_text(es.drop_last(), r)
    }
}

/// A roll table: ranges of roll results, each with its text. Each range
/// occurs once; the rows keep the order in which their ranges first came.
#[derive(Clone, Debug)]
pub struct TabledNarratives {
    pub table: Vec<((u32, u32), String)>,
}

/// The index of the last row of `es` with the range `key`; -1 when none.
pub open spec fn range_index(es: Seq<TableEntryView>, key: (u32, u32)) -> int
    decreases es.len(),
{
    if es.len() == 0 {
        -1
    } else if es.last().0 == key {
        es.len() - 1
    } else {
        range_index(es.drop_last(), key)
    }
}

/// The rows that collecting `es` into a table gives: a row whose range is
/// already there replaces that row's text, any other row goes at the end.
pub open spec fn collect_rows(es: Seq<TableEntryView>) -> Seq<TableEntryView>
    decreases es.len(),
{
    if es.len() == 0 {
        es
    } else {
        let prev = collect_rows(es.drop_last());
        let i = range_index(prev, es.last().0);
        if i >= 0 {
            prev.update(i, es.last())
        } else {
            prev.push(es.last())
        }
    }
}

proof fn lemma_range_index_found(es: Seq<TableEntryView>, key: (u32, u32), j: int)
    requires
        distinct_ranges(es),
        0 <= j < es.len(),
        es[j].0 == key,
    ensures
        range_index(es, key) == j,
    decreases es.len(),
{
    if j < es.len() - 1 {
        assert(es.last().0 != key);
        let t = es.drop_last();
        assert(distinct_ranges(t));
        assert(t[j] == es[j]);
        lemma_range_index_found(t, key, j);
    }
}

proof fn lemma_range_index_absent(es: Seq<TableEntryView>, key: (u32, u32))
    requires
        forall|j: int| 0 <= j < es.len() ==> es[j].0 != key,
    ensures
        range_index(es, key) == -1,
    decreases es.len(),
{
    if es.len() > 0 {
        let t = es.drop_last();
        assert(es[es.len() - 1].0 != key);
        assert forall|j: int| 0 <= j < t.len() implies t[j].0 != key by {
            assert(t[j] == es[j]);
        }
        lemma_range_index_absent(t, key);
    }
}

proof fn lemma_entries_map_distinct(es: Seq<TableEntryView>)
    requires
        distinct_ranges(es),
    ensures
        forall|j: int| 0 <= j < es.len() ==> #[trigger] entries_map(es).dom().contains(es[j].0)
            && entries_map(es)[es[j].0] == es[j].1,
        forall|k: (u32, u32)| #[trigger] entries_map(es).dom().contains(k)
            ==> exists|j: int| 0 <= j < es.len() && es[j].0 == k,
    decreases es.len(),
{
    if es.len() > 0 {
        let t = es.drop_last();
        assert(distinct_ranges(t));
        lemma_entries_map_distinct(t);
        assert forall|j: int| 0 <= j < es.len() implies #[trigger] entries_map(es).dom().contains(es[j].0)
            && entries_map(es)[es[j].0] == es[j].1 by {
            if j < es.len() - 1 {
                assert(t[j] == es[j]);
                assert(es[j].0 != es[es.len() - 1].0);
                assert(entries_map(t).dom().contains(t[j].0));
            }
        }
        assert forall|k: (u32, u32)| #[trigger] entries_map(es).dom().contains(k)
            implies exists|j: int| 0 <= j < es.len() && es[j].0 == k by {
            if k != es.last().0 {
                assert(entries_map(t).dom().contains(k));
                let j = choose|j: int| 0 <= j < t.len() && t[j].0 == k;
                assert(es[j].0 == k);
            } else {
                assert(es[es.len() - 1].0 == k);
            }
        }
    }
}

proof fn lemma_entries_map_update(es: Seq<TableEntryView>, j: int, v: Seq<char>)
    requires
        distinct_ranges(es),
        0 <= j < es.len(),
    ensures
        distinct_ranges(es.update(j, (es[j].0, v))),
        entries_map(es.update(j, (es[j].0, v))) == entries_map(es).insert(es[j].0, v),
{
    let u = es.update(j, (es[j].0, v));
    assert(distinct_ranges(u));
    lemma_entries_map_distinct(es);
    lemma_entries_map_distinct(u);
    let m1 = entries_map(u);
    let m2 = entries_map(es).insert(es[j].0, v);
    assert forall|k: (u32, u32)| m1.dom().contains(k) <==> m2.dom().contains(k) by {
        if m1.dom().contains(k) {
            let i = choose|i: int| 0 <= i < u.len() && u[i].0 == k;
            assert(es[i].0 == k);
        }
        if m2.dom().contains(k) && k != es[j].0 {
            let i = choose|i: int| 0 <= i < es.len() && es[i].0 == k;
            assert(u[i].0 == k);
        }
        if k == es[j].0 {
            assert(u[j].0 == k);
        }
    }
    assert forall|k: (u32, u32)| m1.dom().contains(k) implies m1[k] == m2[k] by {
        let i = choose|i: int| 0 <= i < u.len() && u[i].0 == k;
        assert(m1[u[i].0] == u[i].1);
        if i != j {
            assert(entries_map(es)[es[i].0] == es[i].1);
        }
    }
    assert(m1 =~= m2);
}

fn find_range(table: &Vec<((u32, u32), String)>, key: (u32, u32)) -> (r: Option<usize>)
    ensures
        match r {
            Some(j) => j < table.len() && table@[j as int].0 == key,
            None => forall|j: int| 0 <= j < table.len() ==> table@[j].0 != key,
        },
{
    let mut i: usize = 0;
    while i < table.len()
        invariant
            i <= table.len(),
            forall|j: int| 0 <= j < i ==> table@[j].0 != key,
        decreases table.len() - i,
    {
        if table[i].0.0 == key.0 && table[i].0.1 == key.1 {
            return Some(i);
        }
        i = i + 1;
    }
    None
}

impl TabledNarratives {
    /// The rows as plain values.
    pub open spec fn entries(self) -> Seq<TableEntryView> {
        entries_view(self.table@)
    }

    /// The table as a map from ranges to texts.
    pub open spec fn map(self) -> Map<(u32, u32), Seq<char>> {
        entries_map(self.entries())
    }

    /// Each range occurs once.
    pub open spec fn wf(self) -> bool {
        distinct_ranges(self.entries())
    }

    /// Collects `table` into a roll table. As when collecting into a map, a
    /// range that occurs more than once keeps its last text; rows come in
    /// the order in which their ranges first occur.
    pub fn new(table: Vec<((u32, u32), String)>) -> (r: TabledNarratives)
        ensures
            r.entries() == collect_rows(entries_view(table@)),
            r.wf(),
            r.map() == entries_map(entries_view(table@)),
    {
        let mut rows: Vec<((u32, u32), String)> = Vec::new();
        let ghost whole = entries_view(table@);
        let mut i: usize = 0;
        while i < table.len()
            invariant
                whole == entries_view(table@),
                i <= table.len(),
                distinct_ranges(entries_view(rows@)),
                entries_map(entries_view(rows@)) == entries_map(whole.take(i as int)),
                entries_view(rows@) == collect_rows(whole.take(i as int)),
            decreases table.len() - i,
        {
            let key = table[i].0;
            let text = table[i].1.clone();
            assert(whole.take(i + 1).drop_last() =~= whole.take(i as int));
            assert(whole[i as int] == (key, text@));
            let ghost before = entries_view(rows@);
            match find_range(&rows, key) {
                Some(j) => {
                    proof {
                        lemma_entries_map_update(before, j as int, text@);
                        lemma_range_index_found(before, key, j as int);
                    }
                    rows.set(j, (key, text));
                    assert(entries_view(rows@) =~= before.update(j as int, (key, whole[i as int].1)));
                },
                None => {
                    proof {
                        lemma_range_index_absent(before, key);
                    }
                    rows.push((key, text));
                    assert(entries_view(rows@) =~= before.push((key, whole[i as int].1)));
                    assert(entries_view(rows@).drop_last() =~= before);
                },
            }
            i = i + 1;
        }
        assert(whole.take(table.len() as int) =~= whole);
        TabledNarratives { table: rows }
    }

    /// The text of the table for a roll: the text of the last row whose
    /// range covers the roll's result. A roll that no row covers, or whose
    /// covering row has an empty text, is refused with a panic ("Roll
    /// failed to produce a value."), so it is left out.
    pub fn roll_to_text(&self, roll: &Outcome) -> (result: String)
        requires
            last_covering_text(self.entries(), roll.base_result).len() > 0,
        ensures
            result@ == last_covering_text(self.entries(), roll.base_result),
    {
        let roll_result: u32 = roll.base_result;
        let mut result = String::new();
        let mut i: usize = 0;
        while i < self.table.len()
            invariant
                i <= self.table.len(),
                result@ == last_covering_text(self.entries().take(i as int), roll_result),
            decreases self.table.len() - i,
        {
            assert(self.entries().take(i + 1).drop_last() =~= self.entries().take(i as int));
            let range = self.table[i].0;
            if roll_result >= range.0 && roll_result <= range.1 {
                result = self.table[i].1.clone();
            }
            i = i + 1;
        }
        assert(self.entries().take(self.table.len() as int) =~= self.entries());
        result
    }
}

/// The hexadecimal digit character for `d` (for `0 <= d < 16`), lower case.
pub open spec fn hex_digit_char(d: int) -> char {
    if d < 10 {
        digit_char(d)
    } else if d == 10 {
        'a'
    } else if d == 11 {
        'b'
    } else if d == 12 {
        'c'
    } else if d == 13 {
        'd'
    } else if d == 14 {
        'e'
    } else {
        'f'
    }
}

/// How `serde_json` writes one character inside a JSON string: `"` and `\`
/// behind a backslash, the control characters with a short escape where
/// JSON has one, the other control characters as `\u00XX`, anything else
/// as it is.
pub open spec fn json_escape_char(c: char) -> Seq<char> {
    let n = c as u32;
    if c == '"' {
        seq!['\\', '"']
    } else if c == '\\' {
        seq!['\\', '\\']
    } else if n == 8 {
        seq!['\\', 'b']
    } else if n == 9 {
        seq!['\\', 't']
    } else if n == 10 {
        seq!['\\', 'n']
    } else if n == 12 {
        seq!['\\', 'f']
    } else if n == 13 {
        seq!['\\', 'r']
    } else if n < 32 {
        seq!['\\', 'u', '0', '0', hex_digit_char((n / 16) as int), hex_digit_char((n % 16) as int)]
    } else {
        seq![c]
    }
}

/// The escaped contents of a JSON string for the text `s`.
pub open spec fn json_escaped(s: Seq<char>) -> Seq<char>
    decreases s.len(),
{
    if s.len() == 0 {
        Seq::empty()
    } else {
        json_escaped(s.drop_last()) + json_escape_char(s.last())
    }
}

/// The JSON string literal that `serde_json` writes for the text `s`.
pub open spec fn json_quoted(s: Seq<char>) -> Seq<char> {
    seq!['"'] + json_escaped(s) + seq!['"']
}

/// Trusted: `serde_json::to_string` on a `&str`. Its source writes a double
/// quote, then each byte of the text either as it is or, for the bytes of
/// its escape table (`"`, `\` and the control characters below 0x20), as the
/// escape that `json_escape_char` spells out, then a closing double quote.
/// Writing a string into the in-memory buffer never fails.
#[verifier::external_body]
fn json_string_literal(s: &str) -> (r: String)
    ensures
        r@ == json_quoted(s@),
{
    serde_json::to_string(s).unwrap()
}

/// The key under which a range is stored: `"{low},{high}"`.
pub open spec fn key_text(range: (u32, u32)) -> Seq<char> {
    decimal(range.0 as nat) + seq![','] + decimal(range.1 as nat)
}

/// The JSON object written for one row: `{"low,high":"text"}`.
pub open spec fn row_json_text(e: TableEntryView) -> Seq<char> {
    seq!['{'] + json_quoted(key_text(e.0)) + seq![':'] + json_quoted(e.1) + seq!['}']
}

/// The row objects of `es`, separated by commas.
pub open spec fn rows_json_text(es: Seq<TableEntryView>) -> Seq<char>
    decreases es.len(),
{
    if es.len() == 0 {
        Seq::empty()
    } else if es.len() == 1 {
        row_json_text(es[0])
    } else {
        rows_json_text(es.drop_last()) + seq![','] + row_json_text(es.last())
    }
}

/// The JSON text written for a table: an array of one-entry objects, one per
/// row and in row order, each mapping `"low,high"` to the row's text, in
/// the compact form that `serde_json::to_string` gives.
pub open spec fn table_json_text(es: Seq<TableEntryView>) -> Seq<char> {
    seq!['['] + rows_json_text(es) + seq![']']
}

impl TabledNarratives {
    /// Serializes the table into JSON to be stored in a database.
    pub fn values_to_json(&self) -> (json: String)
        ensures
            json@ == table_json_text(self.entries()),
    {
        let mut json = String::new();
        push_char(&mut json, '[');
        let mut i: usize = 0;
        while i < self.table.len()
            invariant
                i <= self.table.len(),
                json@ == seq!['['] + rows_json_text(self.entries().take(i as int)),
            decreases self.table.len() - i,
        {
            let ghost es = self.entries();
            assert(es.take(i + 1).drop_last() =~= es.take(i as int));
            let range = self.table[i].0;
            let mut key = String::new();
            push_decimal(&mut key, range.0);
            push_char(&mut key, ',');
            push_decimal(&mut key, range.1);
            assert(key@ =~= key_text(range));
            assert(es[i as int] == (range, self.table@[i as int].1@));
            let ghost prev = json@;
            if i > 0 {
                push_char(&mut json, ',');
            }
            push_char(&mut json, '{');
            let quoted_key = json_string_literal(key.as_str());
            json.append(quoted_key.as_str());
            push_char(&mut json, ':');
            let quoted_text = json_string_literal(self.table[i].1.as_str());
            json.append(quoted_text.as_str());
            push_char(&mut json, '}');
            proof {
                let t = es.take(i + 1);
                assert(t.last() == es[i as int]);
                let row = row_json_text(es[i as int]);
                if i == 0 {
                    assert(t[0] == es[0]);
                    assert(rows_json_text(t) == row);
                    assert(json@ =~= prev + row);
                } else {
                    assert(rows_json_text(t) == rows_json_text(t.drop_last()) + seq![','] + row);
                    assert(json@ =~= prev + seq![','] + row);
                }
                assert(json@ =~= seq!['['] + rows_json_text(t));
            }
            i = i + 1;
        }
        push_char(&mut json, ']');
        assert(self.entries().take(self.table.len() as int) =~= self.entries());
        json
    }
}

/// The characters of `s` before its first comma (all of `s` without one).
pub open spec fn before_comma(s: Seq<char>) -> Seq<char>
    decreases s.len(),
{
    if s.len() == 0 {
        s
    } else if s[0] == ',' {
        Seq::empty()
    } else {
        seq![s[0]] + before_comma(s.drop_first())
    }
}

/// The characters of `s` after its first comma (none without one).
pub open spec fn after_comma(s: Seq<char>) -> Seq<char>
    decreases s.len(),
{
    if s.len() == 0 {
        s
    } else if s[0] == ',' {
        s.drop_first()
    } else {
        after_comma(s.drop_first())
    }
}

/// Whether reading the key `s` as a range would index a second part that
/// `split(',')` does not give: the part before any comma is a number and
/// there is no comma. Such a key makes the reading panic.
pub open spec fn key_parse_panics(s: Seq<char>) -> bool {
    parse_u32_spec(before_comma(s)) is Some && !s.contains(',')
}

/// The range that the key `s` stands for: the first two comma-separated
/// parts read as numbers (any further parts are ignored); none when either
/// part is not a number.
pub open spec fn parse_key_spec(s: Seq<char>) -> Option<(u32, u32)> {
    match parse_u32_spec(before_comma(s)) {
        None => None,
        Some(x) => match parse_u32_spec(before_comma(after_comma(s))) {
            None => None,
            Some(y) => Some((x, y)),
        },
    }
}

proof fn lemma_comma_split(s: Seq<char>, i: int)
    requires
        0 <= i <= s.len(),
        forall|j: int| 0 <= j < i ==> s[j] != ',',
        i == s.len() || s[i] == ',',
    ensures
        before_comma(s) == s.take(i),
        i < s.len() ==> after_comma(s) == s.skip(i + 1),
        i == s.len() ==> !s.contains(','),
    decreases s.len(),
{
    if s.len() == 0 {
        assert(s.take(i) =~= s);
    } else if i == 0 {
        assert(s.take(0) =~= Seq::<char>::empty());
        assert(s.drop_first() =~= s.skip(1));
    } else {
        let t = s.drop_first();
        assert forall|j: int| 0 <= j < i - 1 implies t[j] != ',' by {
            assert(t[j] == s[j + 1]);
        }
        if i < s.len() {
            assert(t[i - 1] == s[i]);
        }
        lemma_comma_split(t, i - 1);
        assert(seq![s[0]] + t.take(i - 1) =~= s.take(i));
        if i < s.len() {
            assert(t.skip(i) =~= s.skip(i + 1));
        } else {
            assert forall|j: int| 0 <= j < s.len() implies s[j] != ',' by {}
        }
    }
}

fn find_comma(v: &Vec<char>, from: usize) -> (i: usize)
    requires
        from <= v.len(),
    ensures
        from <= i <= v.len(),
        forall|j: int| from <= j < i ==> v@[j] != ',',
        i == v.len() || v@[i as int] == ',',
{
    let mut i = from;
    while i < v.len()
        invariant
            from <= i <= v.len(),
            forall|j: int| from <= j < i ==> v@[j] != ',',
        decreases v.len() - i,
    {
        if v[i] == ',' {
            return i;
        }
        i = i + 1;
    }
    i
}

/// Reads a table key `"low,high"` as the range it stands for; a key written
/// for a range reads back as that range.
pub fn parse_key(key_str: &str) -> (r: Option<(u32, u32)>)
    requires
        !key_parse_panics(key_str@),
    ensures
        r == parse_key_spec(key_str@),
        forall|range: (u32, u32)| key_str@ == key_text(range) ==> r == Some(range),
{
    proof {
        assert forall|range: (u32, u32)| key_str@ == key_text(range) implies parse_key_spec(key_str@)
            == Some(range) by {
            lemma_key_reads_back(range);
        }
    }
    let v = chars_of(key_str);
    let ghost s = key_str@;
    let i = find_comma(&v, 0);
    proof {
        lemma_comma_split(s, i as int);
        assert(s.subrange(0, i as int) =~= s.take(i as int));
    }
    let x = match parse_u32_chars(&v, 0, i) {
        Some(x) => x,
        None => {
            return None;
        },
    };
    if i == v.len() {
        // `split(',')` gives a single part here; the requires rules it out.
        return None;
    }
    let j = find_comma(&v, i + 1);
    proof {
        let rest = s.skip(i + 1);
        assert forall|k: int| 0 <= k < j - (i + 1) implies rest[k] != ',' by {
            assert(rest[k] == s[k + i + 1]);
        }
        if j < v.len() {
            assert(rest[j - (i + 1)] == s[j as int]);
        }
        lemma_comma_split(rest, j - (i + 1));
        assert(rest.take(j - (i + 1)) =~= s.subrange(i + 1, j as int));
    }
    match parse_u32_chars(&v, i + 1, j) {
        Some(y) => Some((x, y)),
        None => None,
    }
}

/// A JSON value, holding as plain values what reading a stored table needs.
/// Numbers are kept as the text they were written as.
#[derive(Debug)]
pub enum JsonValue {
    Null,
    Bool(bool),
    Number(String),
    Str(String),
    Array(Vec<JsonValue>),
    Object(Vec<(String, JsonValue)>),
}

/// The rows that the members `pairs` of an object give: each member whose
/// key reads as a range and whose value is a string.
pub open spec fn pair_entries(pairs: Seq<(String, JsonValue)>) -> Seq<TableEntryView>
    decreases pairs.len(),
{
    if pairs.len() == 0 {
        Seq::empty()
    } else {
        let rest = pair_entries(pairs.drop_last());
        match parse_key_spec(pairs.last().0@) {
            Some(range) => match pairs.last().1 {
                JsonValue::Str(text) => rest.push((range, text@)),
                _ => rest,
            },
            None => rest,
        }
    }
}

/// The rows that the items of an array give: those of each object item.
pub open spec fn item_entries(items: Seq<JsonValue>) -> Seq<TableEntryView>
    decreases items.len(),
{
    if items.len() == 0 {
        Seq::empty()
    } else {
        item_entries(items.drop_last()) + match items.last() {
            JsonValue::Object(pairs) => pair_entries(pairs@),
            _ => Seq::empty(),
        }
    }
}

/// The rows that a stored table `v` gives, in order: nothing unless `v` is
/// an array.
pub open spec fn json_entries(v: JsonValue) -> Seq<TableEntryView> {
    match v {
        JsonValue::Array(items) => item_entries(items@),
        _ => Seq::empty(),
    }
}

/// Whether every key of every object item of the array `v` can be read
/// without the panic of `key_parse_panics`.
pub open spec fn json_keys_readable(v: JsonValue) -> bool {
    match v {
        JsonValue::Array(items) => forall|i: int|
            0 <= i < items@.len() ==> match #[trigger] items@[i] {
                JsonValue::Object(pairs) => forall|k: int|
                    0 <= k < pairs@.len() ==> !key_parse_panics(#[trigger] pairs@[k].0@),
                _ => true,
            },
        _ => true,
    }
}

fn object_entries(pairs: &Vec<(String, JsonValue)>, out: &mut Vec<((u32, u32), String)>)
    requires
        forall|k: int| 0 <= k < pairs@.len() ==> !key_parse_panics(#[trigger] pairs@[k].0@),
    ensures
        entries_view(final(out)@) == entries_view(old(out)@) + pair_entries(pairs@),
{
    let mut k: usize = 0;
    while k < pairs.len()
        invariant
            k <= pairs.len(),
            forall|k: int| 0 <= k < pairs@.len() ==> !key_parse_panics(#[trigger] pairs@[k].0@),
            entries_view(out@) == entries_view(old(out)@) + pair_entries(pairs@.take(k as int)),
        decreases pairs.len() - k,
    {
        assert(pairs@.take(k + 1).drop_last() =~= pairs@.take(k as int));
        assert(pairs@.take(k + 1).last() == pairs@[k as int]);
        let key = &pairs[k].0;
        let value = &pairs[k].1;
        let ghost before = out@;
        match parse_key(key.as_str()) {
            Some(range) => {
                match value {
                    JsonValue::Str(text) => {
                        out.push((range, text.clone()));
                        assert(entries_view(out@) =~= entries_view(before).push((range, text@)));
                    },
                    _ => {},
                }
            },
            None => {},
        }
        k = k + 1;
    }
    assert(pairs@.take(pairs.len() as int) =~= pairs@);
}

impl TabledNarratives {
    /// Reads a table back from its stored JSON: every member of every object
    /// item of the array whose key reads as a range (`"low,high"`) and whose
    /// value is a string becomes a row; anything else is skipped. A range
    /// that occurs more than once keeps its last text.
    pub fn from_json_value(value: &JsonValue) -> (r: TabledNarratives)
        requires
            json_keys_readable(*value),
        ensures
            r.entries() == collect_rows(json_entries(*value)),
            r.wf(),
            r.map() == entries_map(json_entries(*value)),
    {
        let mut rows: Vec<((u32, u32), String)> = Vec::new();
        match value {
            JsonValue::Array(items) => {
                let mut i: usize = 0;
                while i < items.len()
                    invariant
                        i <= items.len(),
                        json_keys_readable(*value),
                        *value == JsonValue::Array(*items),
                        entries_view(rows@) == item_entries(items@.take(i as int)),
                    decreases items.len() - i,
                {
                    assert(items@.take(i + 1).drop_last() =~= items@.take(i as int));
                    assert(items@.take(i + 1).last() == items@[i as int]);
                    let ghost before = rows@;
                    match &items[i] {
                        JsonValue::Object(pairs) => {
                            object_entries(pairs, &mut rows);
                        },
                        _ => {
                            assert(entries_view(rows@) =~= entries_view(before) + Seq::empty());
                        },
                    }
                    i = i + 1;
                }
                assert(items@.take(items.len() as int) =~= items@);
            },
            _ => {
                assert(entries_view(rows@) =~= Seq::empty());
            },
        }
        TabledNarratives::new(rows)
    }
}

/// A range written as a table key (`"low,high"`) reads back as the same
/// range, without panic.
pub proof fn lemma_key_reads_back(range: (u32, u32))
    ensures
        !key_parse_panics(key_text(range)),
        parse_key_spec(key_text(range)) == Some(range),
{
    let a = decimal(range.0 as nat);
    let b = decimal(range.1 as nat);
    let s = key_text(range);
    lemma_decimal_reads_back(range.0 as nat);
    lemma_decimal_reads_back(range.1 as nat);
    assert forall|j: int| 0 <= j < a.len() implies s[j] != ',' by {
        assert(s[j] == a[j]);
    }
    lemma_comma_split(s, a.len() as int);
    assert(s.take(a.len() as int) =~= a);
    assert(s.skip(a.len() as int + 1) =~= b);
    assert(s.contains(',')) by {
        assert(s[a.len() as int] == ',');
    }
    assert forall|j: int| 0 <= j < b.len() implies b[j] != ',' by {}
    lemma_comma_split(b, b.len() as int);
    assert(b.take(b.len() as int) =~= b);
}

/// Whether `item` is the JSON object written for the row `e`: one member,
/// from the row's key `"low,high"` to the row's text.
pub open spec fn is_row_json(item: JsonValue, e: TableEntryView) -> bool {
    match item {
        JsonValue::Object(pairs) => {
            &&& pairs@.len() == 1
            &&& pairs@[0].0@ == key_text(e.0)
            &&& match pairs@[0].1 {
                JsonValue::Str(text) => text@ == e.1,
                _ => false,
            }
        },
        _ => false,
    }
}

/// Whether `v` is the JSON value written for the rows `es`: an array with
/// one row object per row, in order. `values_to_json` gives the compact text
/// of such a value (`table_json_text`).
pub open spec fn is_table_json(v: JsonValue, es: Seq<TableEntryView>) -> bool {
    match v {
        JsonValue::Array(items) => {
            &&& items@.len() == es.len()
            &&& forall|i: int| 0 <= i < es.len() ==> is_row_json(#[trigger] items@[i], es[i])
        },
        _ => false,
    }
}

proof fn lemma_items_round_trip(s: Seq<JsonValue>, es: Seq<TableEntryView>)
    requires
        s.len() == es.len(),
        forall|j: int| 0 <= j < es.len() ==> is_row_json(#[trigger] s[j], es[j]),
    ensures
        item_entries(s) == es,
    decreases s.len(),
{
    if s.len() > 0 {
        let n = s.len() - 1;
        assert forall|j: int| 0 <= j < n implies is_row_json(#[trigger] s.drop_last()[j], es.drop_last()[j]) by {
            assert(is_row_json(s[j], es[j]));
        }
        lemma_items_round_trip(s.drop_last(), es.drop_last());
        assert(is_row_json(s[n], es[n]));
        lemma_key_reads_back(es[n].0);
        if let JsonValue::Object(pairs) = s[n] {
            let p = pairs@;
            assert(p.drop_last() =~= Seq::<(String, JsonValue)>::empty());
            assert(p.last() == p[0]);
            assert(pair_entries(p.drop_last()) =~= Seq::<TableEntryView>::empty());
            assert(parse_key_spec(p[0].0@) == Some(es[n].0));
            if let JsonValue::Str(text) = p[0].1 {
                assert(text@ == es[n].1);
                assert(pair_entries(p) =~= seq![(es[n].0, text@)]);
            }
            assert(pair_entries(p) =~= seq![es[n]]);
        }
        assert(es =~= es.drop_last() + seq![es[n]]);
    }
}

proof fn lemma_collect_distinct(es: Seq<TableEntryView>)
    requires
        distinct_ranges(es),
    ensures
        collect_rows(es) == es,
    decreases es.len(),
{
    if es.len() > 0 {
        let t = es.drop_last();
        assert(distinct_ranges(t));
        lemma_collect_distinct(t);
        assert forall|j: int| 0 <= j < t.len() implies t[j].0 != es.last().0 by {
            assert(t[j] == es[j]);
        }
        lemma_range_index_absent(t, es.last().0);
        assert(t.push(es.last()) =~= es);
    }
}

/// Reading back what was written: the JSON value that the rows `es` are
/// written as reads back, without panic, as the same rows in the same order;
/// rows whose ranges are distinct are collected back into exactly themselves.
pub proof fn lemma_json_rows_read_back(v: JsonValue, es: Seq<TableEntryView>)
    requires
        is_table_json(v, es),
    ensures
        json_keys_readable(v),
        json_entries(v) == es,
        distinct_ranges(es) ==> collect_rows(json_entries(v)) == es,
{
    if distinct_ranges(es) {
        lemma_collect_distinct(es);
    }
    if let JsonValue::Array(items) = v {
        let s = items@;
        assert forall|i: int| 0 <= i < s.len() implies match #[trigger] s[i] {
            JsonValue::Object(pairs) => forall|k: int|
                0 <= k < pairs@.len() ==> !key_parse_panics(#[trigger] pairs@[k].0@),
            _ => true,
        } by {
            assert(is_row_json(s[i], es[i]));
            lemma_key_reads_back(es[i].0);
        }
        lemma_items_round_trip(s, es);
    }
}

/// The same for a whole table: the JSON value that a table is written as
/// reads back as the same rows, and so as the same map from ranges to texts.
pub proof fn lemma_table_json_round_trip(t: TabledNarratives, v: JsonValue)
    requires
        is_table_json(v, t.entries()),
    ensures
        json_keys_readable(v),
        json_entries(v) == t.entries(),
        entries_map(json_entries(v)) == t.map(),
        t.wf() ==> collect_rows(json_entries(v)) == t.entries(),
{
    lemma_json_rows_read_back(v, t.entries());
}

/// Whether no two ranges of `es` share a roll result.
pub open spec fn disjoint_ranges(es: Seq<TableEntryView>) -> bool {
    forall|i: int, j: int|
        0 <= i < es.len() && 0 <= j < es.len() && i != j ==> !(es[i].0.0 <= es[j].0.1
            && es[j].0.0 <= es[i].0.1)
}

/// With ranges that do not overlap, the text a roll gets is the text of the
/// one range that covers it, whatever the order of the rows: the table
/// reads as the map from ranges to texts.
pub proof fn lemma_disjoint_table_lookup(t: TabledNarratives, r: u32, range: (u32, u32))
    requires
        t.wf(),
        disjoint_ranges(t.entries()),
        t.map().dom().contains(range),
        range.0 <= r,
        r <= range.1,
    ensures
        last_covering_text(t.entries(), r) == t.map()[range],
{
    let es = t.entries();
    lemma_entries_map_distinct(es);
    let k = choose|k: int| 0 <= k < es.len() && es[k].0 == range;
    lemma_last_covering_unique(es, r, k);
}

/// Ranges include both ends: in a table whose ranges do not overlap, a
/// roll result from a row's low end to its high end, both included, gets
/// that row's text.
pub proof fn lemma_roll_gets_row_text(es: Seq<TableEntryView>, i: int, r: u32)
    requires
        disjoint_ranges(es),
        0 <= i < es.len(),
        es[i].0.0 <= r,
        r <= es[i].0.1,
    ensures
        last_covering_text(es, r) == es[i].1,
{
    lemma_last_covering_unique(es, r, i);
}

/// A roll result that lies in no row's range, ends included, gets no text.
pub proof fn lemma_roll_outside_rows(es: Seq<TableEntryView>, r: u32)
    requires
        forall|i: int| 0 <= i < es.len() ==> !(es[i].0.0 <= r && r <= es[i].0.1),
    ensures
        last_covering_text(es, r) == Seq::<char>::empty(),
    decreases es.len(),
{
    if es.len() > 0 {
        let t = es.drop_last();
        assert(es.last() == es[es.len() - 1]);
        assert forall|i: int| 0 <= i < t.len() implies !(t[i].0.0 <= r && r <= t[i].0.1) by {
            assert(t[i] == es[i]);
        }
        lemma_roll_outside_rows(t, r);
    }
}

proof fn lemma_last_covering_unique(es: Seq<TableEntryView>, r: u32, k: int)
    requires
        disjoint_ranges(es),
        0 <= k < es.len(),
        covers(es[k].0, r),
    ensures
        last_covering_text(es, r) == es[k].1,
    decreases es.len(),
{
    let n = es.len() - 1;
    if k < n {
        assert(!covers(es[n].0, r)) by {
            assert(!(es[k].0.0 <= es[n].0.1 && es[n].0.0 <= es[k].0.1));
        }
        let t = es.drop_last();
        assert(disjoint_ranges(t)) by {
            assert forall|i: int, j: int|
                0 <= i < t.len() && 0 <= j < t.len() && i != j implies !(t[i].0.0 <= t[j].0.1
                && t[j].0.0 <= t[i].0.1) by {
                assert(t[i] == es[i] && t[j] == es[j]);
            }
        }
        assert(t[k] == es[k]);
        lemma_last_covering_unique(t, r, k);
    }
}

/// A JSON value as `serde_json` parses it.
#[verifier::external_type_specification]
#[verifier::external_body]
pub struct ExSerdeJsonValue(serde_json::Value);

/// What parsing the text `text` as JSON gives: none when it is not JSON.
pub uninterp spec fn json_parse(text: Seq<char>) -> Option<JsonValue>;

/// Trusted: the value `serde_json` parsed, changed into a `JsonValue`
/// variant by variant (a number as its text, an object's members in the
/// order the parsed map gives them).
#[verifier::external_body]
fn json_value_of(v: serde_json::Value) -> JsonValue {
    match v {
        serde_json::Value::Null => JsonValue::Null,
        serde_json::Value::Bool(b) => JsonValue::Bool(b),
        serde_json::Value::Number(n) => JsonValue::Number(n.to_string()),
        serde_json::Value::String(t) => JsonValue::Str(t),
        serde_json::Value::Array(a) => JsonValue::Array(a.into_iter().map(json_value_of).collect()),
        serde_json::Value::Object(o) => JsonValue::Object(
            o.into_iter().map(|(k, x)| (k, json_value_of(x))).collect(),
        ),
    }
}

/// Trusted: `serde_json::from_str::<serde_json::Value>`, its error turned
/// into none. The result is named, not spelled out. One fact is stated: its
/// parser reads back what its writer writes, so the text written for the
/// rows `es` (compact array of one-member objects, strings escaped as
/// `json_quoted` says) parses as that array of objects, each mapping the
/// row's key to the row's text.
#[verifier::external_body]
fn parse_json(text: &str) -> (r: Option<JsonValue>)
    ensures
        r == json_parse(text@),
        forall|es: Seq<TableEntryView>|
            text@ == table_json_text(es) ==> r is Some && is_table_json(r->0, es),
{
    serde_json::from_str::<serde_json::Value>(text).ok().map(json_value_of)
}

/// Whether reading `key` as a range would panic (`key_parse_panics`).
fn key_panics(key: &str) -> (r: bool)
    ensures
        r == key_parse_panics(key@),
{
    let v = chars_of(key);
    let i = find_comma(&v, 0);
    proof {
        lemma_comma_split(key@, i as int);
        assert(key@.subrange(0, i as int) =~= key@.take(i as int));
    }
    match parse_u32_chars(&v, 0, i) {
        Some(_) => i == v.len(),
        None => false,
    }
}

/// Whether every key of `value` can be read (`json_keys_readable`).
pub fn keys_readable(value: &JsonValue) -> (r: bool)
    ensures
        r == json_keys_readable(*value),
{
    match value {
        JsonValue::Array(items) => {
            let mut i: usize = 0;
            while i < items.len()
                invariant
                    i <= items.len(),
                    *value == JsonValue::Array(*items),
                    forall|j: int|
                        0 <= j < i ==> match #[trigger] items@[j] {
                            JsonValue::Object(pairs) => forall|k: int|
                                0 <= k < pairs@.len() ==> !key_parse_panics(#[trigger] pairs@[k].0@),
                            _ => true,
                        },
                decreases items.len() - i,
            {
                match &items[i] {
                    JsonValue::Object(pairs) => {
                        let mut k: usize = 0;
                        while k < pairs.len()
                            invariant
                                k <= pairs.len(),
                                i < items.len(),
                                *value == JsonValue::Array(*items),
                                items@[i as int] == JsonValue::Object(*pairs),
                                forall|m: int| 0 <= m < k ==> !key_parse_panics(#[trigger] pairs@[m].0@),
                            decreases pairs.len() - k,
                        {
                            if key_panics(pairs[k].0.as_str()) {
                                proof {
                                    if json_keys_readable(*value) {
                                        let item = items@[i as int];
                                        assert(match item {
                                            JsonValue::Object(p) => forall|m: int|
                                                0 <= m < p@.len() ==> !key_parse_panics(
                                                    #[trigger] p@[m].0@,
                                                ),
                                            _ => true,
                                        });
                                        assert(!key_parse_panics(pairs@[k as int].0@));
                                    }
                                }
                                return false;
                            }
                            k = k + 1;
                        }
                    },
                    _ => {},
                }
                i = i + 1;
            }
            true
        },
        _ => true,
    }
}

impl TabledNarratives {
    /// Reads a table back from its stored JSON text: the text is parsed and
    /// its rows read as `from_json_value` reads them. Text that is not JSON,
    /// or a key that `key_parse_panics`, is left out: reading it panics
    /// (`try_values_from_json` tests for it). The text written for rows
    /// reads back as those rows, collected, with the same map; rows with
    /// distinct ranges read back as themselves.
    pub fn values_from_json(json_str: &str) -> (t: TabledNarratives)
        requires
            json_parse(json_str@) is Some,
            json_keys_readable(json_parse(json_str@)->0),
        ensures
            t.entries() == collect_rows(json_entries(json_parse(json_str@)->0)),
            t.wf(),
            t.map() == entries_map(json_entries(json_parse(json_str@)->0)),
            forall|es: Seq<TableEntryView>|
                json_str@ == table_json_text(es) ==> t.entries() == collect_rows(es) && t.map()
                    == entries_map(es),
            forall|es: Seq<TableEntryView>|
                json_str@ == table_json_text(es) && distinct_ranges(es) ==> t.entries() == es,
    {
        let parsed = parse_json(json_str);
        proof {
            assert forall|es: Seq<TableEntryView>| json_str@ == table_json_text(es) implies (
            json_entries(parsed->0) == es && (distinct_ranges(es) ==> collect_rows(es) == es)) by {
                lemma_json_rows_read_back(parsed->0, es);
            }
        }
        let value = parsed.unwrap();
        TabledNarratives::from_json_value(&value)
    }

    /// Reads a table back from its stored JSON text where that can be done:
    /// none for text that is not JSON or a key that `key_parse_panics`,
    /// else what `values_from_json` reads. The text written for rows always
    /// reads back, as those rows collected and with the same map.
    pub fn try_values_from_json(json_str: &str) -> (r: Option<TabledNarratives>)
        ensures
            r is Some <==> (json_parse(json_str@) is Some && json_keys_readable(
                json_parse(json_str@)->0,
            )),
            r matches Some(t) ==> {
                &&& t.entries() == collect_rows(json_entries(json_parse(json_str@)->0))
                &&& t.wf()
                &&& t.map() == entries_map(json_entries(json_parse(json_str@)->0))
            },
            forall|es: Seq<TableEntryView>|
                json_str@ == table_json_text(es) ==> r is Some && (r->0).entries() == collect_rows(
                    es,
                ) && (r->0).map() == entries_map(es),
            forall|es: Seq<TableEntryView>|
                json_str@ == table_json_text(es) && distinct_ranges(es) ==> r is Some && (
                r->0).entries() == es,
    {
        let parsed = parse_json(json_str);
        proof {
            assert forall|es: Seq<TableEntryView>| json_str@ == table_json_text(es) implies (
            parsed is Some && json_keys_readable(parsed->0)) by {
                lemma_json_rows_read_back(parsed->0, es);
            }
        }
        match parsed {
            None => None,
            Some(value) => {
                if keys_readable(&value) {
                    Some(TabledNarratives::values_from_json(json_str))
                } else {
                    None
                }
            },
        }
    }
}

} // verus!
