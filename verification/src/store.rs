//! What storing campaigns takes besides running SQL: the statements that
//! create, list, load and delete campaigns, and reading stored rows back
//! into entities.
use vstd::prelude::*;
use crate::entities::{Attribute, Counter, Skill};
use crate::narratives::TypedNarrative;
use crate::roll_dice::{dice_label_text, kept_count, valid_rolls, Critical, Outcome, Roll};
use crate::text::{
    decimal, escape_quotes, lemma_decimal_reads_back, lemma_escape_reads_back,
    lemma_quote_free_text, lemma_quoted_decimal_reads_back, parse_u32, parse_u32_spec, push_decimal,
    push_decimal_usize, sql_literal_text,
};

verus! {

/// The statement that creates a campaign named `name`.
pub open spec fn insert_ttrpg_text(name: Seq<char>) -> Seq<char> {
    "INSERT INTO ttrpgs (name) VALUES ('"@ + name + "')"@
}

pub fn insert_ttrpg_query(name: &str) -> (q: String)
    ensures
        q@ == insert_ttrpg_text(name@),
{
    let mut q = String::new();
    q.append("INSERT INTO ttrpgs (name) VALUES ('");
    q.append(name);
    q.append("')");
    q
}

/// The statement that selects the rows of `table_name` that belong to the
/// campaign `ttrpg_id`.
pub open spec fn elements_text(table_name: Seq<char>, ttrpg_id: u32) -> Seq<char> {
    "SELECT * FROM "@ + table_name + " WHERE ttrpg_id = "@ + decimal(ttrpg_id as nat)
}

pub fn elements_query(table_name: &str, ttrpg_id: u32) -> (q: String)
    ensures
        q@ == elements_text(table_name@, ttrpg_id),
{
    let mut q = String::new();
    q.append("SELECT * FROM ");
    q.append(table_name);
    q.append(" WHERE ttrpg_id = ");
    push_decimal(&mut q, ttrpg_id);
    q
}

/// The statements that delete a campaign and every element of it.
pub open spec fn delete_ttrpg_text(ttrpg_id: u32) -> Seq<char> {
    let id = decimal(ttrpg_id as nat);
    "\n        DELETE FROM ttrpgs WHERE id = "@ + id + ";\n        DELETE FROM stories WHERE ttrpg_id = "@
        + id + ";\n        DELETE FROM attributes WHERE ttrpg_id = "@ + id
        + ";\n        DELETE FROM all_rolls WHERE ttrpg_id = "@ + id
        + ";\n        DELETE FROM skills WHERE ttrpg_id = "@ + id
        + ";\n        DELETE FROM counters WHERE ttrpg_id = "@ + id
        + ";\n        DELETE FROM tables WHERE ttrpg_id = "@ + id + "; \n        "@
}

pub fn delete_ttrpg_query(ttrpg_id: u32) -> (q: String)
    ensures
        q@ == delete_ttrpg_text(ttrpg_id),
{
    let mut q = String::new();
    q.append("\n        DELETE FROM ttrpgs WHERE id = ");
    push_decimal(&mut q, ttrpg_id);
    q.append(";\n        DELETE FROM stories WHERE ttrpg_id = ");
    push_decimal(&mut q, ttrpg_id);
    q.append(";\n        DELETE FROM attributes WHERE ttrpg_id = ");
    push_decimal(&mut q, ttrpg_id);
    q.append(";\n        DELETE FROM all_rolls WHERE ttrpg_id = ");
    push_decimal(&mut q, ttrpg_id);
    q.append(";\n        DELETE FROM skills WHERE ttrpg_id = ");
    push_decimal(&mut q, ttrpg_id);
    q.append(";\n        DELETE FROM counters WHERE ttrpg_id = ");
    push_decimal(&mut q, ttrpg_id);
    q.append(";\n        DELETE FROM tables WHERE ttrpg_id = ");
    push_decimal(&mut q, ttrpg_id);
    q.append("; \n        ");
    q
}

/// The message that reports a deleted campaign.
pub open spec fn deletion_text(ttrpg_name: Seq<char>) -> Seq<char> {
    "TTRPG "@ + ttrpg_name + " successfully deleted!"@
}

pub fn deletion_message(ttrpg_name: &str) -> (m: String)
    ensures
        m@ == deletion_text(ttrpg_name@),
{
    let mut m = String::new();
    m.append("TTRPG ");
    m.append(ttrpg_name);
    m.append(" successfully deleted!");
    m
}

/// The overview of a loaded campaign: how many elements of each kind it has.
pub open spec fn overview_text(
    stories: usize,
    attributes: usize,
    skills: usize,
    counters: usize,
    tables: usize,
) -> Seq<char> {
    "Element Overview\n\nStories: "@ + decimal(stories as nat) + "\nAttributes: "@
        + decimal(attributes as nat) + "\nSkills: "@ + decimal(skills as nat) + "\nCounters:"@
        + decimal(counters as nat) + "\nTables: "@ + decimal(tables as nat)
}

pub fn element_overview(
    stories: usize,
    attributes: usize,
    skills: usize,
    counters: usize,
    tables: usize,
) -> (m: String)
    ensures
        m@ == overview_text(stories, attributes, skills, counters, tables),
{
    let mut m = String::new();
    m.append("Element Overview\n\nStories: ");
    push_decimal_usize(&mut m, stories);
    m.append("\nAttributes: ");
    push_decimal_usize(&mut m, attributes);
    m.append("\nSkills: ");
    push_decimal_usize(&mut m, skills);
    m.append("\nCounters:");
    push_decimal_usize(&mut m, counters);
    m.append("\nTables: ");
    push_decimal_usize(&mut m, tables);
    m
}

/// The text of cell `i` of a stored row; none when the row is shorter or the
/// cell is NULL.
pub open spec fn cell_text(row: Seq<Option<String>>, i: int) -> Option<Seq<char>> {
    if 0 <= i < row.len() {
        match row[i] {
            Some(t) => Some(t@),
            None => None,
        }
    } else {
        None
    }
}

/// Cell `i` of a stored row read as a number; none when it is missing or is
/// not a number.
pub open spec fn cell_u32(row: Seq<Option<String>>, i: int) -> Option<u32> {
    match cell_text(row, i) {
        Some(t) => parse_u32_spec(t),
        None => None,
    }
}

fn cell_string(row: &Vec<Option<String>>, i: usize) -> (r: Option<String>)
    ensures
        r is Some <==> cell_text(row@, i as int) is Some,
        r matches Some(t) ==> t@ == cell_text(row@, i as int)->0,
{
    if i < row.len() {
        match &row[i] {
            Some(t) => Some(t.clone()),
            None => None,
        }
    } else {
        None
    }
}

fn cell_number(row: &Vec<Option<String>>, i: usize) -> (r: Option<u32>)
    ensures
        r == cell_u32(row@, i as int),
{
    if i < row.len() {
        match &row[i] {
            Some(t) => parse_u32(t.as_str()),
            None => None,
        }
    } else {
        None
    }
}

/// Reads a stored story row (id, campaign, text) back as its id and its
/// text, escaped as a typed narrative. Where reading the row would panic
/// (a missing cell, an id that is not a number) the result is none.
pub fn story_from_row(row: &Vec<Option<String>>) -> (r: Option<(u32, TypedNarrative)>)
    ensures
        r is Some <==> (cell_u32(row@, 0) is Some && cell_text(row@, 2) is Some),
        r matches Some((id, text)) ==> id == cell_u32(row@, 0)->0
            && text.text@ == escape_quotes(cell_text(row@, 2)->0),
{
    let id = match cell_number(row, 0) {
        Some(id) => id,
        None => {
            return None;
        },
    };
    let text = match cell_string(row, 2) {
        Some(t) => t,
        None => {
            return None;
        },
    };
    Some((id, TypedNarrative::new(text)))
}

/// Reads a stored attribute row (id, campaign, description, roll
/// description, result) back. The stored outcome counts as an attribute
/// roll with a critical of 20, its best and worst dice both 1. Where reading
/// the row would panic the result is none.
pub fn attribute_from_row(row: &Vec<Option<String>>) -> (r: Option<(u32, Attribute)>)
    ensures
        r is Some <==> (cell_u32(row@, 0) is Some && cell_text(row@, 2) is Some && cell_text(
            row@,
            3,
        ) is Some && cell_u32(row@, 4) is Some),
        r matches Some((id, a)) ==> {
            &&& id == cell_u32(row@, 0)->0
            &&& a.description.text@ == escape_quotes(cell_text(row@, 2)->0)
            &&& a.attribute.roll_description@ == cell_text(row@, 3)->0
            &&& a.attribute.base_result == cell_u32(row@, 4)->0
            &&& a.attribute.max == 1 && a.attribute.min == 1
            &&& a.attribute.attribute
            &&& a.attribute.critical == 20
            &&& a.label@ == Seq::<char>::empty()
        },
{
    let id = match cell_number(row, 0) {
        Some(id) => id,
        None => {
            return None;
        },
    };
    let description = match cell_string(row, 2) {
        Some(t) => t,
        None => {
            return None;
        },
    };
    let roll_description = match cell_string(row, 3) {
        Some(t) => t,
        None => {
            return None;
        },
    };
    let base_result = match cell_number(row, 4) {
        Some(n) => n,
        None => {
            return None;
        },
    };
    let outcome = Outcome {
        roll_description,
        base_result,
        max: 1,
        min: 1,
        attribute: true,
        critical: 20,
    };
    proof {
        reveal_strlit("");
    }
    Some((id, Attribute::new(TypedNarrative::new(description), outcome, "")))
}

/// Reads a stored skill row (id, campaign, description, dice label, dice,
/// amount) back. Where reading the row would panic the result is none.
pub fn skill_from_row(row: &Vec<Option<String>>) -> (r: Option<(u32, Skill)>)
    ensures
        r is Some <==> (cell_u32(row@, 0) is Some && cell_text(row@, 2) is Some && cell_text(
            row@,
            3,
        ) is Some && cell_u32(row@, 4) is Some && cell_u32(row@, 5) is Some),
        r matches Some((id, sk)) ==> {
            &&& id == cell_u32(row@, 0)->0
            &&& sk.description.text@ == escape_quotes(cell_text(row@, 2)->0)
            &&& sk.roll.dice_label@ == cell_text(row@, 3)->0
            &&& sk.roll.dice == cell_u32(row@, 4)->0
            &&& sk.roll.amount == cell_u32(row@, 5)->0
            &&& sk.label@ == Seq::<char>::empty()
        },
{
    let id = match cell_number(row, 0) {
        Some(id) => id,
        None => {
            return None;
        },
    };
    let description = match cell_string(row, 2) {
        Some(t) => t,
        None => {
            return None;
        },
    };
    let dice_label = match cell_string(row, 3) {
        Some(t) => t,
        None => {
            return None;
        },
    };
    let dice = match cell_number(row, 4) {
        Some(n) => n,
        None => {
            return None;
        },
    };
    let amount = match cell_number(row, 5) {
        Some(n) => n,
        None => {
            return None;
        },
    };
    proof {
        reveal_strlit("");
    }
    Some((id, Skill::new(TypedNarrative::new(description), Roll { dice_label, dice, amount }, "")))
}

/// Reads a stored counter row (id, campaign, description, number) back.
/// Where reading the row would panic the result is none.
pub fn counter_from_row(row: &Vec<Option<String>>) -> (r: Option<(u32, Counter)>)
    ensures
        r is Some <==> (cell_u32(row@, 0) is Some && cell_text(row@, 2) is Some && cell_u32(
            row@,
            3,
        ) is Some),
        r matches Some((id, c)) ==> {
            &&& id == cell_u32(row@, 0)->0
            &&& c.description.text@ == escape_quotes(cell_text(row@, 2)->0)
            &&& c.number == cell_u32(row@, 3)->0
            &&& c.label@ == Seq::<char>::empty()
        },
{
    let id = match cell_number(row, 0) {
        Some(id) => id,
        None => {
            return None;
        },
    };
    let description = match cell_string(row, 2) {
        Some(t) => t,
        None => {
            return None;
        },
    };
    let number = match cell_number(row, 3) {
        Some(n) => n,
        None => {
            return None;
        },
    };
    proof {
        reveal_strlit("");
    }
    Some((id, Counter::new(TypedNarrative::new(description), number, "")))
}

/// Reads a stored table row (id, campaign, description, rows as JSON) back
/// as its id, its description and the JSON text of its rows. Where reading
/// the row would panic the result is none.
pub fn table_parts_from_row(row: &Vec<Option<String>>) -> (r: Option<(u32, TypedNarrative, String)>)
    ensures
        r is Some <==> (cell_u32(row@, 0) is Some && cell_text(row@, 2) is Some && cell_text(
            row@,
            3,
        ) is Some),
        r matches Some((id, d, json)) ==> {
            &&& id == cell_u32(row@, 0)->0
            &&& d.text@ == escape_quotes(cell_text(row@, 2)->0)
            &&& json@ == cell_text(row@, 3)->0
        },
{
    let id = match cell_number(row, 0) {
        Some(id) => id,
        None => {
            return None;
        },
    };
    let description = match cell_string(row, 2) {
        Some(t) => t,
        None => {
            return None;
        },
    };
    let json = match cell_string(row, 3) {
        Some(t) => t,
        None => {
            return None;
        },
    };
    Some((id, TypedNarrative::new(description), json))
}

/// The critical that the setting `n` selects: 1 selects a critical of 1,
/// anything else a critical of 20.
pub fn critical_from_setting(n: u32) -> (c: Critical)
    ensures
        c == (if n == 1 {
            Critical::One
        } else {
            Critical::Twenty
        }),
{
    if n == 20 {
        Critical::Twenty
    } else if n == 1 {
        Critical::One
    } else {
        Critical::Twenty
    }
}

/// Rerolls a stored roll row: cell 0 is read as its id, cells 4 and 5 as the
/// sides and number of dice, cell 6 as the bonus; the dice are rolled anew
/// as a plain (not attribute) roll. The result is none where reading the row
/// would panic: a missing cell or one that is not a number, or a roll that
/// `Outcome::new` leaves out.
pub fn roll_from_row(row: &Vec<Option<String>>, crit: &Critical) -> (r: Option<(u32, Outcome)>)
    ensures
        r is Some <==> ({
            &&& cell_u32(row@, 0) is Some
            &&& cell_u32(row@, 4) is Some
            &&& cell_u32(row@, 5) is Some
            &&& cell_u32(row@, 6) is Some
            &&& cell_u32(row@, 5)->0 >= 1
            &&& cell_u32(row@, 4)->0 >= 1
            &&& kept_count(cell_u32(row@, 5)->0, false) * cell_u32(row@, 4)->0 + cell_u32(row@, 6)->0
                <= u32::MAX
        }),
        r matches Some((id, _)) ==> id == cell_u32(row@, 0)->0,
        r is Some ==> exists|rolled: Seq<u32>|
            valid_rolls(rolled, cell_u32(row@, 4)->0, cell_u32(row@, 5)->0)
                && #[trigger] (r->0).1.is_outcome_of(
                dice_label_text(cell_u32(row@, 4)->0, cell_u32(row@, 5)->0),
                *crit,
                cell_u32(row@, 6)->0,
                false,
                rolled,
            ),
{
    let id = match cell_number(row, 0) {
        Some(id) => id,
        None => {
            return None;
        },
    };
    let dice = match cell_number(row, 4) {
        Some(n) => n,
        None => {
            return None;
        },
    };
    let amount = match cell_number(row, 5) {
        Some(n) => n,
        None => {
            return None;
        },
    };
    let bonus = match cell_number(row, 6) {
        Some(n) => n,
        None => {
            return None;
        },
    };
    if amount < 1 || dice < 1 {
        return None;
    }
    let a = amount as u64;
    let d = dice as u64;
    assert(a * d <= 0xffff_fffe_0000_0001) by (nonlinear_arith)
        requires
            a <= 0xffff_ffff,
            d <= 0xffff_ffff,
    ;
    if a * d + (bonus as u64) > 4294967295 {
        return None;
    }
    let roll = Roll::new(dice, amount);
    let out = Outcome::new(&roll, crit, bonus, false);
    proof {
        let rs = choose|rs: Seq<u32>|
            valid_rolls(rs, roll.dice, roll.amount) && #[trigger] out.is_outcome_of(
                roll.dice_label@,
                *crit,
                bonus,
                false,
                rs,
            );
        assert(out.is_outcome_of(dice_label_text(dice, amount), *crit, bonus, false, rs));
        assert(valid_rolls(rs, cell_u32(row@, 4)->0, cell_u32(row@, 5)->0));
        assert(exists|rolled: Seq<u32>|
            valid_rolls(rolled, cell_u32(row@, 4)->0, cell_u32(row@, 5)->0)
                && #[trigger] out.is_outcome_of(
                dice_label_text(cell_u32(row@, 4)->0, cell_u32(row@, 5)->0),
                *crit,
                cell_u32(row@, 6)->0,
                false,
                rolled,
            ));
    }
    let r = Some((id, out));
    assert((r->0).1 == out);
    assert(exists|rolled: Seq<u32>|
        valid_rolls(rolled, cell_u32(row@, 4)->0, cell_u32(row@, 5)->0)
            && #[trigger] (r->0).1.is_outcome_of(
            dice_label_text(cell_u32(row@, 4)->0, cell_u32(row@, 5)->0),
            *crit,
            cell_u32(row@, 6)->0,
            false,
            rolled,
        ));
    r
}

/// What looking a campaign up by name among the stored campaign rows finds.
#[derive(Debug, PartialEq, Eq, Structural)]
pub enum TtrpgLookup {
    /// The id of the last row with that name.
    Found(u32),
    /// No row has that name.
    Missing,
    /// A row without a name, or a matching row whose id is not a number:
    /// reading such rows panics.
    Unreadable,
}

/// Looks `name` up among the campaign rows `rows` (id, date, name), front to
/// back: a later row with the name replaces an earlier one.
pub open spec fn ttrpg_lookup(rows: Seq<Seq<Option<String>>>, name: Seq<char>) -> TtrpgLookup
    decreases rows.len(),
{
    if rows.len() == 0 {
        TtrpgLookup::Missing
    } else {
        let prev = ttrpg_lookup(rows.drop_last(), name);
        let row = rows.last();
        match prev {
            TtrpgLookup::Unreadable => TtrpgLookup::Unreadable,
            _ => match cell_text(row, 2) {
                None => TtrpgLookup::Unreadable,
                Some(n) => if n == name {
                    match cell_u32(row, 0) {
                        None => TtrpgLookup::Unreadable,
                        Some(id) => TtrpgLookup::Found(id),
                    }
                } else {
                    prev
                },
            },
        }
    }
}

/// A lookup finds a campaign only under a row whose name cell is exactly
/// `name`, and the id it gives is that row's id.
pub proof fn lemma_lookup_found_row(rows: Seq<Seq<Option<String>>>, name: Seq<char>, id: u32)
    requires
        ttrpg_lookup(rows, name) == TtrpgLookup::Found(id),
    ensures
        exists|i: int|
            0 <= i < rows.len() && cell_text(#[trigger] rows[i], 2) == Some(name) && cell_u32(
                rows[i],
                0,
            ) == Some(id),
    decreases rows.len(),
{
    let n = rows.len() - 1;
    let row = rows.last();
    assert(row == rows[n]);
    if cell_text(row, 2) == Some(name) {
        assert(cell_u32(rows[n], 0) == Some(id));
    } else {
        let t = rows.drop_last();
        lemma_lookup_found_row(t, name, id);
        let i = choose|i: int|
            0 <= i < t.len() && cell_text(#[trigger] t[i], 2) == Some(name) && cell_u32(t[i], 0)
                == Some(id);
        assert(rows[i] == t[i]);
    }
}

/// A stored row under another name leaves what a lookup finds as it was.
pub proof fn lemma_lookup_ignores_other_names(
    rows: Seq<Seq<Option<String>>>,
    row: Seq<Option<String>>,
    name: Seq<char>,
)
    requires
        cell_text(row, 2) is Some,
        cell_text(row, 2)->0 != name,
    ensures
        ttrpg_lookup(rows.push(row), name) == ttrpg_lookup(rows, name),
{
    assert(rows.push(row).drop_last() =~= rows);
}

/// A stored row under the name, with a readable id, is what a lookup finds,
/// whatever came before it (unless that could not be read).
pub proof fn lemma_lookup_finds_last_named_row(
    rows: Seq<Seq<Option<String>>>,
    row: Seq<Option<String>>,
    name: Seq<char>,
    id: u32,
)
    requires
        !(ttrpg_lookup(rows, name) is Unreadable),
        cell_text(row, 2) == Some(name),
        cell_u32(row, 0) == Some(id),
    ensures
        ttrpg_lookup(rows.push(row), name) == TtrpgLookup::Found(id),
{
    assert(rows.push(row).drop_last() =~= rows);
}

/// With every stored row named, none of them `name`, the campaign is missing.
pub proof fn lemma_lookup_missing(rows: Seq<Seq<Option<String>>>, name: Seq<char>)
    requires
        forall|i: int|
            0 <= i < rows.len() ==> cell_text(#[trigger] rows[i], 2) is Some && cell_text(rows[i], 2)->0
                != name,
    ensures
        ttrpg_lookup(rows, name) == TtrpgLookup::Missing,
    decreases rows.len(),
{
    if rows.len() > 0 {
        let t = rows.drop_last();
        assert(rows.last() == rows[rows.len() - 1]);
        assert forall|i: int| 0 <= i < t.len() implies cell_text(#[trigger] t[i], 2) is Some
            && cell_text(t[i], 2)->0 != name by {
            assert(t[i] == rows[i]);
        }
        lemma_lookup_missing(t, name);
    }
}

/// The views of the rows `rows`.
pub open spec fn rows_view(rows: Seq<Vec<Option<String>>>) -> Seq<Seq<Option<String>>> {
    rows.map_values(|r: Vec<Option<String>>| r@)
}

/// Finds the campaign named `name` among the stored campaign rows.
pub fn find_ttrpg(rows: &Vec<Vec<Option<String>>>, name: &str) -> (r: TtrpgLookup)
    ensures
        r == ttrpg_lookup(rows_view(rows@), name@),
{
    let mut found = TtrpgLookup::Missing;
    let mut i: usize = 0;
    while i < rows.len()
        invariant
            i <= rows.len(),
            found == ttrpg_lookup(rows_view(rows@).take(i as int), name@),
        decreases rows.len() - i,
    {
        let ghost all = rows_view(rows@);
        assert(all.take(i + 1).drop_last() =~= all.take(i as int));
        assert(all.take(i + 1).last() == rows@[i as int]@);
        match found {
            TtrpgLookup::Unreadable => {},
            _ => {
                match cell_string(&rows[i], 2) {
                    None => {
                        found = TtrpgLookup::Unreadable;
                    },
                    Some(n) => {
                        if n.eq(&name.to_owned()) {
                            found = match cell_number(&rows[i], 0) {
                                None => TtrpgLookup::Unreadable,
                                Some(id) => TtrpgLookup::Found(id),
                            };
                        }
                    },
                }
            },
        }
        i = i + 1;
    }
    assert(rows_view(rows@).take(rows.len() as int) =~= rows_view(rows@));
    found
}

/// What opening a campaign by name does, once the stored campaigns were
/// looked through.
#[derive(Debug, PartialEq, Eq, Structural)]
pub enum CampaignOpening {
    /// No campaign has the name: store a new one (`insert_ttrpg_query`) and
    /// hand it back, with id 0.
    Create,
    /// Hand back the stored campaign with this id.
    Open(u32),
    /// The campaign exists but is not being loaded: hand back nothing.
    Decline,
}

/// Decides what opening a campaign does from what the lookup found: a
/// missing campaign is created, a found one is handed back only when it is
/// being loaded. Unreadable rows are left out: reading them panics.
pub fn campaign_opening(lookup: TtrpgLookup, loading: bool) -> (r: CampaignOpening)
    requires
        !(lookup is Unreadable),
    ensures
        lookup is Missing ==> r == CampaignOpening::Create,
        lookup matches TtrpgLookup::Found(id) ==> r == (if loading {
            CampaignOpening::Open(id)
        } else {
            CampaignOpening::Decline
        }),
{
    match lookup {
        TtrpgLookup::Found(id) => {
            if loading {
                CampaignOpening::Open(id)
            } else {
                CampaignOpening::Decline
            }
        },
        _ => CampaignOpening::Create,
    }
}

/// Whether `c` has the Unicode White_Space property, which is what
/// `char::is_whitespace` tests: tab to carriage return, space, next line,
/// no-break space, ogham space mark, the spaces from en quad to hair space,
/// line and paragraph separators, narrow no-break space, medium
/// mathematical space and ideographic space.
pub open spec fn white_space(c: char) -> bool {
    let n = c as u32;
    ||| 0x09 <= n <= 0x0d
    ||| n == 0x20
    ||| n == 0x85
    ||| n == 0xa0
    ||| n == 0x1680
    ||| 0x2000 <= n <= 0x200a
    ||| n == 0x2028
    ||| n == 0x2029
    ||| n == 0x202f
    ||| n == 0x205f
    ||| n == 0x3000
}

/// Whether `c` is white space, as `char::is_whitespace` says.
pub fn is_white_space(c: char) -> (r: bool)
    ensures
        r == white_space(c),
{
    let n = c as u32;
    (0x09 <= n && n <= 0x0d) || n == 0x20 || n == 0x85 || n == 0xa0 || n == 0x1680 || (0x2000
        <= n && n <= 0x200a) || n == 0x2028 || n == 0x2029 || n == 0x202f || n == 0x205f || n
        == 0x3000
}

/// Whether `name` can name a new database: not empty and free of white
/// space.
pub fn valid_database_name(name: &str) -> (r: bool)
    ensures
        r == (name@.len() > 0 && forall|i: int| 0 <= i < name@.len() ==> !white_space(#[trigger] name@[i])),
{
    let v = crate::text::chars_of(name);
    if v.len() == 0 {
        return false;
    }
    let mut i: usize = 0;
    while i < v.len()
        invariant
            v@ == name@,
            i <= v.len(),
            forall|j: int| 0 <= j < i ==> !white_space(#[trigger] name@[j]),
        decreases v.len() - i,
    {
        if is_white_space(v[i]) {
            return false;
        }
        i = i + 1;
    }
    true
}

/// Whether cell `i` of `row` holds what the database stores for a number
/// written into a statement: its decimal text.
pub open spec fn stored_number(row: Seq<Option<String>>, i: int, n: u32) -> bool {
    cell_text(row, i) == Some(decimal(n as nat))
}

/// Whether cell `i` of `row` holds what the database stores for the text `t`
/// written between single quotes: the literal as SQL reads it.
pub open spec fn stored_text(row: Seq<Option<String>>, i: int, t: Seq<char>) -> bool {
    cell_text(row, i) == Some(sql_literal_text(t))
}

/// Whether `row` is the row that the database holds, under the id `id`,
/// after running `story_save_text(campaign_id, text)`.
pub open spec fn story_row_saved(row: Seq<Option<String>>, id: u32, campaign_id: u32, text: Seq<char>) -> bool {
    &&& row.len() == 3
    &&& stored_number(row, 0, id)
    &&& stored_number(row, 1, campaign_id)
    &&& stored_text(row, 2, text)
}

/// Whether `row` is the row that the database holds, under the id `id`,
/// after running the save statement of an attribute (`attribute_save_text`).
pub open spec fn attribute_row_saved(
    row: Seq<Option<String>>,
    id: u32,
    campaign_id: u32,
    description: Seq<char>,
    roll_description: Seq<char>,
    base_result: u32,
) -> bool {
    &&& row.len() == 5
    &&& stored_number(row, 0, id)
    &&& stored_number(row, 1, campaign_id)
    &&& stored_text(row, 2, description)
    &&& stored_text(row, 3, roll_description)
    &&& stored_text(row, 4, decimal(base_result as nat))
}

/// Whether `row` is the row that the database holds, under the id `id`,
/// after running the save statement of a skill (`skill_save_text`).
pub open spec fn skill_row_saved(
    row: Seq<Option<String>>,
    id: u32,
    campaign_id: u32,
    description: Seq<char>,
    dice_label: Seq<char>,
    dice: u32,
    amount: u32,
) -> bool {
    &&& row.len() == 6
    &&& stored_number(row, 0, id)
    &&& stored_number(row, 1, campaign_id)
    &&& stored_text(row, 2, description)
    &&& stored_text(row, 3, dice_label)
    &&& stored_number(row, 4, dice)
    &&& stored_number(row, 5, amount)
}

/// Whether `row` is the row that the database holds, under the id `id`,
/// after running the save statement of a counter (`counter_save_text`).
pub open spec fn counter_row_saved(
    row: Seq<Option<String>>,
    id: u32,
    campaign_id: u32,
    description: Seq<char>,
    number: u32,
) -> bool {
    &&& row.len() == 4
    &&& stored_number(row, 0, id)
    &&& stored_number(row, 1, campaign_id)
    &&& stored_text(row, 2, description)
    &&& stored_number(row, 3, number)
}

/// A typed text (escaped for SQL) stored in a row reads back, escaped again
/// as the row readers escape it, as the same typed text.
proof fn lemma_typed_cell_reads_back(row: Seq<Option<String>>, i: int, typed: Seq<char>)
    requires
        stored_text(row, i, escape_quotes(typed)),
    ensures
        cell_text(row, i) is Some,
        escape_quotes(cell_text(row, i)->0) == escape_quotes(typed),
{
    lemma_escape_reads_back(typed);
}

/// Saving a story and loading it again: the row its save statement stores
/// reads back (`story_from_row`) with its id and the same typed text.
pub proof fn lemma_story_save_load(row: Seq<Option<String>>, id: u32, campaign_id: u32, typed: Seq<char>)
    requires
        story_row_saved(row, id, campaign_id, escape_quotes(typed)),
    ensures
        cell_u32(row, 0) == Some(id),
        cell_text(row, 2) is Some,
        escape_quotes(cell_text(row, 2)->0) == escape_quotes(typed),
{
    lemma_decimal_reads_back(id as nat);
    lemma_typed_cell_reads_back(row, 2, typed);
}

/// Saving an attribute and loading it again: for a typed description and a
/// roll description without single quotes (as `Outcome` writes them), the
/// row its save statement stores reads back (`attribute_from_row`) with its
/// id, the same description, roll description and result.
pub proof fn lemma_attribute_save_load(
    row: Seq<Option<String>>,
    id: u32,
    campaign_id: u32,
    a: Attribute,
    typed: Seq<char>,
)
    requires
        a.description.text@ == escape_quotes(typed),
        !a.attribute.roll_description@.contains('\''),
        attribute_row_saved(
            row,
            id,
            campaign_id,
            a.description.text@,
            a.attribute.roll_description@,
            a.attribute.base_result,
        ),
    ensures
        cell_u32(row, 0) == Some(id),
        cell_text(row, 2) is Some && escape_quotes(cell_text(row, 2)->0) == a.description.text@,
        cell_text(row, 3) == Some(a.attribute.roll_description@),
        cell_u32(row, 4) == Some(a.attribute.base_result),
{
    lemma_decimal_reads_back(id as nat);
    lemma_typed_cell_reads_back(row, 2, typed);
    lemma_quote_free_text(a.attribute.roll_description@);
    lemma_quoted_decimal_reads_back(a.attribute.base_result as nat);
}

/// Saving a skill and loading it again: for a typed description and a dice
/// label without single quotes (as `Roll::new` writes it), the row its save
/// statement stores reads back (`skill_from_row`) with its id, the same
/// description, dice label, sides and number of dice.
pub proof fn lemma_skill_save_load(
    row: Seq<Option<String>>,
    id: u32,
    campaign_id: u32,
    sk: Skill,
    typed: Seq<char>,
)
    requires
        sk.description.text@ == escape_quotes(typed),
        !sk.roll.dice_label@.contains('\''),
        skill_row_saved(
            row,
            id,
            campaign_id,
            sk.description.text@,
            sk.roll.dice_label@,
            sk.roll.dice,
            sk.roll.amount,
        ),
    ensures
        cell_u32(row, 0) == Some(id),
        cell_text(row, 2) is Some && escape_quotes(cell_text(row, 2)->0) == sk.description.text@,
        cell_text(row, 3) == Some(sk.roll.dice_label@),
        cell_u32(row, 4) == Some(sk.roll.dice),
        cell_u32(row, 5) == Some(sk.roll.amount),
{
    lemma_decimal_reads_back(id as nat);
    lemma_typed_cell_reads_back(row, 2, typed);
    lemma_quote_free_text(sk.roll.dice_label@);
    lemma_decimal_reads_back(sk.roll.dice as nat);
    lemma_decimal_reads_back(sk.roll.amount as nat);
}

/// Saving a counter and loading it again: for a typed description, the row
/// its save statement stores reads back (`counter_from_row`) with its id,
/// the same description and number.
pub proof fn lemma_counter_save_load(
    row: Seq<Option<String>>,
    id: u32,
    campaign_id: u32,
    c: Counter,
    typed: Seq<char>,
)
    requires
        c.description.text@ == escape_quotes(typed),
        counter_row_saved(row, id, campaign_id, c.description.text@, c.number),
    ensures
        cell_u32(row, 0) == Some(id),
        cell_text(row, 2) is Some && escape_quotes(cell_text(row, 2)->0) == c.description.text@,
        cell_u32(row, 3) == Some(c.number),
{
    lemma_decimal_reads_back(id as nat);
    lemma_typed_cell_reads_back(row, 2, typed);
    lemma_decimal_reads_back(c.number as nat);
}

} // verus!
