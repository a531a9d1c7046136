//! The entities of a campaign (attributes, skills, counters and tables) and
//! the SQL statements that store, update and delete them.
use vstd::prelude::*;
use crate::narratives::{table_json_text, TabledNarratives, TypedNarrative};
use crate::roll_dice::{Outcome, Roll};
use crate::text::{
    decimal, escape_quotes, lemma_decimal_quote_free, lemma_literals_quoted, lemma_literals_skip,
    lemma_no_quote_concat, lemma_quote_free_text, push_decimal, sql_literals,
};

verus! {

/// An attribute: a description with the outcome of an attribute roll.
#[derive(Clone, Debug)]
pub struct Attribute {
    pub description: TypedNarrative,
    pub attribute: Outcome,
    pub label: String,
}

impl Attribute {
    /// Only an attribute roll makes an attribute: any other outcome is
    /// refused with a panic, so it is left out here.
    pub fn new(description: TypedNarrative, attribute: Outcome, label: &str) -> (r: Attribute)
        requires
            attribute.attribute,
        ensures
            r.description == description,
            r.attribute == attribute,
            r.label@ == label@,
    {
        Attribute { description, attribute, label: label.to_owned() }
    }
}

/// A skill: a description with the roll it is tested with.
#[derive(Clone, Debug)]
pub struct Skill {
    pub description: TypedNarrative,
    pub roll: Roll,
    pub label: String,
}

impl Skill {
    pub fn new(description: TypedNarrative, roll: Roll, label: &str) -> (r: Skill)
        ensures
            r.description == description,
            r.roll == roll,
            r.label@ == label@,
    {
        Skill { description, roll, label: label.to_owned() }
    }
}

/// A counter: a description with a number that can change.
#[derive(Clone, Debug)]
pub struct Counter {
    pub description: TypedNarrative,
    pub number: u32,
    pub label: String,
}

impl Counter {
    pub fn new(description: TypedNarrative, number: u32, label: &str) -> (r: Counter)
        ensures
            r.description == description,
            r.number == number,
            r.label@ == label@,
    {
        Counter { description, number, label: label.to_owned() }
    }

    pub fn change_number(&mut self, new_number: u32)
        ensures
            final(self).number == new_number,
            final(self).description == old(self).description,
            final(self).label == old(self).label,
    {
        self.number = new_number;
    }
}

/// A table: a description with a roll table.
#[derive(Clone, Debug)]
pub struct Table {
    pub description: TypedNarrative,
    pub table: TabledNarratives,
    pub label: String,
}

impl Table {
    pub fn new(description: TypedNarrative, table: TabledNarratives, label: &str) -> (r: Table)
        ensures
            r.description == description,
            r.table == table,
            r.label@ == label@,
    {
        Table { description, table, label: label.to_owned() }
    }
}

/// The SQL statements that store, update and delete an entity of a
/// campaign; a caller runs them on the campaign's database.
pub trait SaveLoad {
    type Entity;

    /// The statement that inserts `self` into the campaign `campaign_id`.
    fn save_query(&self, campaign_id: u32) -> String;

    /// The statement that overwrites the stored entity `entity_id` with
    /// `update_entity`.
    fn update_query(&self, entity_id: u32, update_entity: Self::Entity) -> String;

    /// The statement that deletes the stored entity `entity_id`.
    fn delete_query(&self, entity_id: u32) -> String;
}

pub open spec fn attribute_save_text(
    campaign_id: u32,
    description: Seq<char>,
    roll_description: Seq<char>,
    base_result: u32,
) -> Seq<char> {
    "\n            INSERT INTO attributes (\n                ttrpg_id,\n                description,\n                roll_description,\n                base_result\n            )\n            VALUES ("@
        + decimal(campaign_id as nat) + ", '"@ + description + "', '"@ + roll_description + "', '"@
        + decimal(base_result as nat) + "')\n            "@
}

pub open spec fn attribute_update_text(
    entity_id: u32,
    description: Seq<char>,
    roll_description: Seq<char>,
    base_result: u32,
) -> Seq<char> {
    "\n            UPDATE attributes SET description = '"@ + description + "', roll_description = '"@
        + roll_description + "', base_result = "@ + decimal(base_result as nat) + " WHERE id = "@
        + decimal(entity_id as nat) + ";\n            "@
}

pub open spec fn attribute_delete_text(entity_id: u32) -> Seq<char> {
    "\n            DELETE FROM attributes WHERE id = "@ + decimal(entity_id as nat) + ";\n            "@
}

impl SaveLoad for Attribute {
    type Entity = Attribute;

    fn save_query(&self, campaign_id: u32) -> (q: String)
        ensures
            q@ == attribute_save_text(
                campaign_id,
                self.description.text@,
                self.attribute.roll_description@,
                self.attribute.base_result,
            ),
    {
        let mut q = String::new();
        q.append(
            "\n            INSERT INTO attributes (\n                ttrpg_id,\n                description,\n                roll_description,\n                base_result\n            )\n            VALUES (",
        );
        push_decimal(&mut q, campaign_id);
        q.append(", '");
        q.append(self.description.text.as_str());
        q.append("', '");
        q.append(self.attribute.roll_description.as_str());
        q.append("', '");
        push_decimal(&mut q, self.attribute.base_result);
        q.append("')\n            ");
        q
    }

    fn update_query(&self, entity_id: u32, update_entity: Attribute) -> (q: String)
        ensures
            q@ == attribute_update_text(
                entity_id,
                update_entity.description.text@,
                update_entity.attribute.roll_description@,
                update_entity.attribute.base_result,
            ),
    {
        let mut q = String::new();
        q.append("\n            UPDATE attributes SET description = '");
        q.append(update_entity.description.text.as_str());
        q.append("', roll_description = '");
        q.append(update_entity.attribute.roll_description.as_str());
        q.append("', base_result = ");
        push_decimal(&mut q, update_entity.attribute.base_result);
        q.append(" WHERE id = ");
        push_decimal(&mut q, entity_id);
        q.append(";\n            ");
        q
    }

    fn delete_query(&self, entity_id: u32) -> (q: String)
        ensures
            q@ == attribute_delete_text(entity_id),
    {
        let mut q = String::new();
        q.append("\n            DELETE FROM attributes WHERE id = ");
        push_decimal(&mut q, entity_id);
        q.append(";\n            ");
        q
    }
}

/// The statement that stores a skill.
pub open spec fn skill_save_text(campaign_id: u32, description: Seq<char>, dice_label: Seq<char>, dice: u32, amount: u32) -> Seq<char> {
    "\n                INSERT INTO skills (\n                    ttrpg_id,\n                    description,\n                    dice_label,\n                    dice,\n                    amount\n                ) VALUES ("@
        + decimal(campaign_id as nat)
        + ", '"@
        + description
        + "', '"@
        + dice_label
        + "', "@
        + decimal(dice as nat)
        + ", "@
        + decimal(amount as nat)
        + ")\n            "@
}

/// The statement that overwrites a stored skill.
pub open spec fn skill_update_text(entity_id: u32, description: Seq<char>, dice_label: Seq<char>, dice: u32, amount: u32) -> Seq<char> {
    "\n            UPDATE skills SET description = '"@
        + description
        + "', dice_label = '"@
        + dice_label
        + "', dice = "@
        + decimal(dice as nat)
        + ", amount = "@
        + decimal(amount as nat)
        + " WHERE id = "@
        + decimal(entity_id as nat)
        + "\n            "@
}

/// The statement that deletes a stored skill.
pub open spec fn skill_delete_text(entity_id: u32) -> Seq<char> {
    "\n            DELETE FROM skills WHERE id = "@
        + decimal(entity_id as nat)
        + ";\n            "@
}

impl SaveLoad for Skill {
    type Entity = Skill;

    fn save_query(&self, campaign_id: u32) -> (q: String)
        ensures
            q@ == skill_save_text(
                campaign_id,
                self.description.text@,
                self.roll.dice_label@,
                self.roll.dice,
                self.roll.amount,
            ),
    {
        let mut q = String::new();
        q.append("\n                INSERT INTO skills (\n                    ttrpg_id,\n                    description,\n                    dice_label,\n                    dice,\n                    amount\n                ) VALUES (");
        push_decimal(&mut q, campaign_id);
        q.append(", '");
        q.append(self.description.text.as_str());
        q.append("', '");
        q.append(self.roll.dice_label.as_str());
        q.append("', ");
        push_decimal(&mut q, self.roll.dice);
        q.append(", ");
        push_decimal(&mut q, self.roll.amount);
        q.append(")\n            ");
        q
    }

    fn update_query(&self, entity_id: u32, update_entity: Skill) -> (q: String)
        ensures
            q@ == skill_update_text(
                entity_id,
                update_entity.description.text@,
                update_entity.roll.dice_label@,
                update_entity.roll.dice,
                update_entity.roll.amount,
            ),
    {
        let mut q = String::new();
        q.append("\n            UPDATE skills SET description = '");
        q.append(update_entity.description.text.as_str());
        q.append("', dice_label = '");
        q.append(update_entity.roll.dice_label.as_str());
        q.append("', dice = ");
        push_decimal(&mut q, update_entity.roll.dice);
        q.append(", amount = ");
        push_decimal(&mut q, update_entity.roll.amount);
        q.append(" WHERE id = ");
        push_decimal(&mut q, entity_id);
        q.append("\n            ");
        q
    }

    fn delete_query(&self, entity_id: u32) -> (q: String)
        ensures
            q@ == skill_delete_text(entity_id),
    {
        let mut q = String::new();
        q.append("\n            DELETE FROM skills WHERE id = ");
        push_decimal(&mut q, entity_id);
        q.append(";\n            ");
        q
    }
}

/// The statement that stores a counter.
pub open spec fn counter_save_text(campaign_id: u32, description: Seq<char>, number: u32) -> Seq<char> {
    "\n            INSERT INTO counters (\n            ttrpg_id,\n            description,\n            number\n            )\n            VALUES ("@
        + decimal(campaign_id as nat)
        + ", '"@
        + description
        + "', "@
        + decimal(number as nat)
        + ")\n            "@
}

/// The statement that overwrites a stored counter.
pub open spec fn counter_update_text(entity_id: u32, description: Seq<char>, number: u32) -> Seq<char> {
    "\n            UPDATE counters SET description = '"@
        + description
        + "', number = "@
        + decimal(number as nat)
        + " WHERE id = "@
        + decimal(entity_id as nat)
        + ";\n            "@
}

/// The statement that deletes a stored counter.
pub open spec fn counter_delete_text(entity_id: u32) -> Seq<char> {
    "\n            DELETE FROM counters WHERE id = "@
        + decimal(entity_id as nat)
        + "\n            "@
}

impl SaveLoad for Counter {
    type Entity = Counter;

    fn save_query(&self, campaign_id: u32) -> (q: String)
        ensures
            q@ == counter_save_text(campaign_id, self.description.text@, self.number),
    {
        let mut q = String::new();
        q.append("\n            INSERT INTO counters (\n            ttrpg_id,\n            description,\n            number\n            )\n            VALUES (");
        push_decimal(&mut q, campaign_id);
        q.append(", '");
        q.append(self.description.text.as_str());
        q.append("', ");
        push_decimal(&mut q, self.number);
        q.append(")\n            ");
        q
    }

    fn update_query(&self, entity_id: u32, update_entity: Counter) -> (q: String)
        ensures
            q@ == counter_update_text(
                entity_id,
                update_entity.description.text@,
                update_entity.number,
            ),
    {
        let mut q = String::new();
        q.append("\n            UPDATE counters SET description = '");
        q.append(update_entity.description.text.as_str());
        q.append("', number = ");
        push_decimal(&mut q, update_entity.number);
        q.append(" WHERE id = ");
        push_decimal(&mut q, entity_id);
        q.append(";\n            ");
        q
    }

    fn delete_query(&self, entity_id: u32) -> (q: String)
        ensures
            q@ == counter_delete_text(entity_id),
    {
        let mut q = String::new();
        q.append("\n            DELETE FROM counters WHERE id = ");
        push_decimal(&mut q, entity_id);
        q.append("\n            ");
        q
    }
}

/// The statement that stores a table, its rows as JSON.
pub open spec fn table_save_text(campaign_id: u32, description: Seq<char>, values_json: Seq<char>) -> Seq<char> {
    "\n            INSERT INTO tables (\n                ttrpg_id,\n                description,\n                values_json\n            ) VALUES("@
        + decimal(campaign_id as nat)
        + ", '"@
        + description
        + "', '"@
        + values_json
        + "')\n            "@
}

/// The statement that overwrites a stored table.
pub open spec fn table_update_text(entity_id: u32, description: Seq<char>, values_json: Seq<char>) -> Seq<char> {
    "\n            UPDATE tables SET description = '"@
        + description
        + "', values_json = '"@
        + values_json
        + "' WHERE id = "@
        + decimal(entity_id as nat)
        + ";\n            "@
}

/// The statement that deletes a stored table.
pub open spec fn table_delete_text(entity_id: u32) -> Seq<char> {
    "\n            DELETE FROM tables WHERE id = "@
        + decimal(entity_id as nat)
        + ";\n            "@
}

impl SaveLoad for Table {
    type Entity = Table;

    fn save_query(&self, campaign_id: u32) -> (q: String)
        ensures
            q@ == table_save_text(
                campaign_id,
                self.description.text@,
                table_json_text(self.table.entries()),
            ),
    {
        let values_json = self.table.values_to_json();
        let mut q = String::new();
        q.append("\n            INSERT INTO tables (\n                ttrpg_id,\n                description,\n                values_json\n            ) VALUES(");
        push_decimal(&mut q, campaign_id);
        q.append(", '");
        q.append(self.description.text.as_str());
        q.append("', '");
        q.append(values_json.as_str());
        q.append("')\n            ");
        q
    }

    fn update_query(&self, entity_id: u32, update_entity: Table) -> (q: String)
        ensures
            q@ == table_update_text(
                entity_id,
                update_entity.description.text@,
                table_json_text(update_entity.table.entries()),
            ),
    {
        let values_json = update_entity.table.values_to_json();
        let mut q = String::new();
        q.append("\n            UPDATE tables SET description = '");
        q.append(update_entity.description.text.as_str());
        q.append("', values_json = '");
        q.append(values_json.as_str());
        q.append("' WHERE id = ");
        push_decimal(&mut q, entity_id);
        q.append(";\n            ");
        q
    }

    fn delete_query(&self, entity_id: u32) -> (q: String)
        ensures
            q@ == table_delete_text(entity_id),
    {
        let mut q = String::new();
        q.append("\n            DELETE FROM tables WHERE id = ");
        push_decimal(&mut q, entity_id);
        q.append(";\n            ");
        q
    }
}

/// The statement that stores a story.
pub open spec fn story_save_text(campaign_id: u32, raw_narration: Seq<char>) -> Seq<char> {
    "\n            INSERT INTO stories (\n                ttrpg_id,\n                text_data\n            )\n            VALUES ("@
        + decimal(campaign_id as nat)
        + ", '"@
        + raw_narration
        + "')\n            "@
}

/// The statement that overwrites the text of a stored story.
pub open spec fn story_update_text(entity_id: u32, raw_narration: Seq<char>) -> Seq<char> {
    "UPDATE stories SET text_data = '"@
        + raw_narration
        + "' WHERE id = "@
        + decimal(entity_id as nat)
        + ";"@
}

/// The statement that deletes a stored story.
pub open spec fn story_delete_text(entity_id: u32) -> Seq<char> {
    "DELETE FROM stories WHERE id = "@
        + decimal(entity_id as nat)
        + ";"@
}

/// The statement that stores a story with the text `raw_narration` in the
/// campaign `campaign_id`.
pub fn story_save_query(raw_narration: &str, campaign_id: u32) -> (q: String)
    ensures
        q@ == story_save_text(campaign_id, raw_narration@),
{
    let mut q = String::new();
    q.append("\n            INSERT INTO stories (\n                ttrpg_id,\n                text_data\n            )\n            VALUES (");
    push_decimal(&mut q, campaign_id);
    q.append(", '");
    q.append(raw_narration);
    q.append("')\n            ");
    q
}

/// The statement that overwrites the text of the stored story `entity_id`
/// with `raw_narration`.
pub fn story_update_query(entity_id: u32, raw_narration: &str) -> (q: String)
    ensures
        q@ == story_update_text(entity_id, raw_narration@),
{
    let mut q = String::new();
    q.append("UPDATE stories SET text_data = '");
    q.append(raw_narration);
    q.append("' WHERE id = ");
    push_decimal(&mut q, entity_id);
    q.append(";");
    q
}

/// The statement that deletes the stored story `entity_id`.
pub fn story_delete_query(entity_id: u32) -> (q: String)
    ensures
        q@ == story_delete_text(entity_id),
{
    let mut q = String::new();
    q.append("DELETE FROM stories WHERE id = ");
    push_decimal(&mut q, entity_id);
    q.append(";");
    q
}


/// A quote-free stretch, then a quoted literal holding text escaped for SQL
/// that no quote follows: the literal reads back as the text.
proof fn lemma_quoted_then(p: Seq<char>, raw: Seq<char>, rest: Seq<char>)
    requires
        !p.contains('\''),
        rest.len() == 0 || rest[0] != '\'',
    ensures
        sql_literals(p + seq!['\''] + escape_quotes(raw) + seq!['\''] + rest) == seq![raw] + sql_literals(
            rest,
        ),
{
    let q = seq!['\''] + escape_quotes(raw) + seq!['\''] + rest;
    assert(p + seq!['\''] + escape_quotes(raw) + seq!['\''] + rest =~= p + q);
    lemma_literals_skip(p, q);
    lemma_literals_quoted(raw, rest);
}

/// Saving a story stores its text as typed: the one quoted value of the
/// save statement for the escaped text of `raw` reads back as `raw`.
pub proof fn lemma_story_save_stores_text(campaign_id: u32, raw: Seq<char>)
    ensures
        sql_literals(story_save_text(campaign_id, escape_quotes(raw))) == seq![raw],
{
    reveal_strlit("\n            INSERT INTO stories (\n                ttrpg_id,\n                text_data\n            )\n            VALUES (");
    let l0 = "\n            INSERT INTO stories (\n                ttrpg_id,\n                text_data\n            )\n            VALUES ("@;
    reveal_strlit(", '");
    let l1 = ", '"@;
    reveal_strlit("')\n            ");
    let l2 = "')\n            "@;
    let u0 = (l0.subrange(0, 121) + decimal(campaign_id as nat) + l1.subrange(0, 2));
    assert(!l0.subrange(0, 121).contains('\''));
    lemma_decimal_quote_free(campaign_id as nat);
    lemma_no_quote_concat(l0.subrange(0, 121), decimal(campaign_id as nat));
    assert(!l1.subrange(0, 2).contains('\''));
    lemma_no_quote_concat((l0.subrange(0, 121) + decimal(campaign_id as nat)), l1.subrange(0, 2));
    assert(u0 =~= ((l0.subrange(0, 121) + decimal(campaign_id as nat)) + l1.subrange(0, 2)));
    let u1 = (l2.subrange(1, 15));
    assert(!l2.subrange(1, 15).contains('\''));
    assert(u1 =~= l2.subrange(1, 15));
    let r0 = u1;
    assert(story_save_text(campaign_id, escape_quotes(raw)) =~= u0 + seq!['\''] + escape_quotes(raw) + seq!['\''] + r0);
    lemma_quoted_then(u0, raw, r0);
    lemma_literals_skip(u1, Seq::empty());
    assert(u1 + Seq::<char>::empty() =~= u1);
    assert(sql_literals(story_save_text(campaign_id, escape_quotes(raw))) =~= seq![raw]);
}

/// Updating a story stores its text as typed: the one quoted value of the
/// update statement for the escaped text of `raw` reads back as `raw`.
pub proof fn lemma_story_update_stores_text(entity_id: u32, raw: Seq<char>)
    ensures
        sql_literals(story_update_text(entity_id, escape_quotes(raw))) == seq![raw],
{
    reveal_strlit("UPDATE stories SET text_data = '");
    let l0 = "UPDATE stories SET text_data = '"@;
    reveal_strlit("' WHERE id = ");
    let l1 = "' WHERE id = "@;
    reveal_strlit(";");
    let l2 = ";"@;
    let u0 = (l0.subrange(0, 31));
    assert(!l0.subrange(0, 31).contains('\''));
    assert(u0 =~= l0.subrange(0, 31));
    let u1 = (l1.subrange(1, 13) + decimal(entity_id as nat) + l2.subrange(0, 1));
    assert(!l1.subrange(1, 13).contains('\''));
    lemma_decimal_quote_free(entity_id as nat);
    lemma_no_quote_concat(l1.subrange(1, 13), decimal(entity_id as nat));
    assert(!l2.subrange(0, 1).contains('\''));
    lemma_no_quote_concat((l1.subrange(1, 13) + decimal(entity_id as nat)), l2.subrange(0, 1));
    assert(u1 =~= ((l1.subrange(1, 13) + decimal(entity_id as nat)) + l2.subrange(0, 1)));
    let r0 = u1;
    assert(story_update_text(entity_id, escape_quotes(raw)) =~= u0 + seq!['\''] + escape_quotes(raw) + seq!['\''] + r0);
    lemma_quoted_then(u0, raw, r0);
    lemma_literals_skip(u1, Seq::empty());
    assert(u1 + Seq::<char>::empty() =~= u1);
    assert(sql_literals(story_update_text(entity_id, escape_quotes(raw))) =~= seq![raw]);
}

/// Saving an attribute stores its description as typed: the quoted values
/// of the save statement read back as `raw`, the roll description and the
/// result, in that order.
pub proof fn lemma_attribute_save_stores_values(campaign_id: u32, raw: Seq<char>, roll_description: Seq<char>, base_result: u32)
    requires
        !roll_description.contains('\''),
    ensures
        sql_literals(attribute_save_text(campaign_id, escape_quotes(raw), roll_description, base_result)) == seq![raw, roll_description, decimal(base_result as nat)],
{
    reveal_strlit("\n            INSERT INTO attributes (\n                ttrpg_id,\n                description,\n                roll_description,\n                base_result\n            )\n            VALUES (");
    let l0 = "\n            INSERT INTO attributes (\n                ttrpg_id,\n                description,\n                roll_description,\n                base_result\n            )\n            VALUES ("@;
    reveal_strlit(", '");
    let l1 = ", '"@;
    reveal_strlit("', '");
    let l2 = "', '"@;
    reveal_strlit("', '");
    let l3 = "', '"@;
    reveal_strlit("')\n            ");
    let l4 = "')\n            "@;
    let u0 = (l0.subrange(0, 189) + decimal(campaign_id as nat) + l1.subrange(0, 2));
    assert(!l0.subrange(0, 189).contains('\''));
    lemma_decimal_quote_free(campaign_id as nat);
    lemma_no_quote_concat(l0.subrange(0, 189), decimal(campaign_id as nat));
    assert(!l1.subrange(0, 2).contains('\''));
    lemma_no_quote_concat((l0.subrange(0, 189) + decimal(campaign_id as nat)), l1.subrange(0, 2));
    assert(u0 =~= ((l0.subrange(0, 189) + decimal(campaign_id as nat)) + l1.subrange(0, 2)));
    let u1 = (l2.subrange(1, 3));
    assert(!l2.subrange(1, 3).contains('\''));
    assert(u1 =~= l2.subrange(1, 3));
    let u2 = (l3.subrange(1, 3));
    assert(!l3.subrange(1, 3).contains('\''));
    assert(u2 =~= l3.subrange(1, 3));
    let u3 = (l4.subrange(1, 15));
    assert(!l4.subrange(1, 15).contains('\''));
    assert(u3 =~= l4.subrange(1, 15));
    lemma_quote_free_text(roll_description);
    lemma_decimal_quote_free(base_result as nat);
    lemma_quote_free_text(decimal(base_result as nat));
    let r0 = u1 + seq!['\''] + escape_quotes(roll_description) + seq!['\''] + u2 + seq!['\''] + escape_quotes(decimal(base_result as nat)) + seq!['\''] + u3;
    let r1 = u2 + seq!['\''] + escape_quotes(decimal(base_result as nat)) + seq!['\''] + u3;
    let r2 = u3;
    assert(attribute_save_text(campaign_id, escape_quotes(raw), roll_description, base_result) =~= u0 + seq!['\''] + escape_quotes(raw) + seq!['\''] + r0);
    lemma_quoted_then(u0, raw, r0);
    assert(r0 =~= u1 + seq!['\''] + escape_quotes(roll_description) + seq!['\''] + r1);
    lemma_quoted_then(u1, roll_description, r1);
    assert(r1 =~= u2 + seq!['\''] + escape_quotes(decimal(base_result as nat)) + seq!['\''] + r2);
    lemma_quoted_then(u2, decimal(base_result as nat), r2);
    lemma_literals_skip(u3, Seq::empty());
    assert(u3 + Seq::<char>::empty() =~= u3);
    assert(sql_literals(attribute_save_text(campaign_id, escape_quotes(raw), roll_description, base_result)) =~= seq![raw, roll_description, decimal(base_result as nat)]);
}

/// Updating an attribute stores its description as typed: the quoted
/// values of the update statement read back as `raw` and the roll
/// description.
pub proof fn lemma_attribute_update_stores_values(entity_id: u32, raw: Seq<char>, roll_description: Seq<char>, base_result: u32)
    requires
        !roll_description.contains('\''),
    ensures
        sql_literals(attribute_update_text(entity_id, escape_quotes(raw), roll_description, base_result)) == seq![raw, roll_description],
{
    reveal_strlit("\n            UPDATE attributes SET description = '");
    let l0 = "\n            UPDATE attributes SET description = '"@;
    reveal_strlit("', roll_description = '");
    let l1 = "', roll_description = '"@;
    reveal_strlit("', base_result = ");
    let l2 = "', base_result = "@;
    reveal_strlit(" WHERE id = ");
    let l3 = " WHERE id = "@;
    reveal_strlit(";\n            ");
    let l4 = ";\n            "@;
    let u0 = (l0.subrange(0, 49));
    assert(!l0.subrange(0, 49).contains('\''));
    assert(u0 =~= l0.subrange(0, 49));
    let u1 = (l1.subrange(1, 22));
    assert(!l1.subrange(1, 22).contains('\''));
    assert(u1 =~= l1.subrange(1, 22));
    let u2 = (l2.subrange(1, 17) + decimal(base_result as nat) + l3.subrange(0, 12) + decimal(entity_id as nat) + l4.subrange(0, 14));
    assert(!l2.subrange(1, 17).contains('\''));
    lemma_decimal_quote_free(base_result as nat);
    lemma_no_quote_concat(l2.subrange(1, 17), decimal(base_result as nat));
    assert(!l3.subrange(0, 12).contains('\''));
    lemma_no_quote_concat((l2.subrange(1, 17) + decimal(base_result as nat)), l3.subrange(0, 12));
    lemma_decimal_quote_free(entity_id as nat);
    lemma_no_quote_concat(((l2.subrange(1, 17) + decimal(base_result as nat)) + l3.subrange(0, 12)), decimal(entity_id as nat));
    assert(!l4.subrange(0, 14).contains('\''));
    lemma_no_quote_concat((((l2.subrange(1, 17) + decimal(base_result as nat)) + l3.subrange(0, 12)) + decimal(entity_id as nat)), l4.subrange(0, 14));
    assert(u2 =~= ((((l2.subrange(1, 17) + decimal(base_result as nat)) + l3.subrange(0, 12)) + decimal(entity_id as nat)) + l4.subrange(0, 14)));
    lemma_quote_free_text(roll_description);
    let r0 = u1 + seq!['\''] + escape_quotes(roll_description) + seq!['\''] + u2;
    let r1 = u2;
    assert(attribute_update_text(entity_id, escape_quotes(raw), roll_description, base_result) =~= u0 + seq!['\''] + escape_quotes(raw) + seq!['\''] + r0);
    lemma_quoted_then(u0, raw, r0);
    assert(r0 =~= u1 + seq!['\''] + escape_quotes(roll_description) + seq!['\''] + r1);
    lemma_quoted_then(u1, roll_description, r1);
    lemma_literals_skip(u2, Seq::empty());
    assert(u2 + Seq::<char>::empty() =~= u2);
    assert(sql_literals(attribute_update_text(entity_id, escape_quotes(raw), roll_description, base_result)) =~= seq![raw, roll_description]);
}

/// Saving a skill stores its description as typed: the quoted values of the
/// save statement read back as `raw` and the dice label.
pub proof fn lemma_skill_save_stores_values(campaign_id: u32, raw: Seq<char>, dice_label: Seq<char>, dice: u32, amount: u32)
    requires
        !dice_label.contains('\''),
    ensures
        sql_literals(skill_save_text(campaign_id, escape_quotes(raw), dice_label, dice, amount)) == seq![raw, dice_label],
{
    reveal_strlit("\n                INSERT INTO skills (\n                    ttrpg_id,\n                    description,\n                    dice_label,\n                    dice,\n                    amount\n                ) VALUES (");
    let l0 = "\n                INSERT INTO skills (\n                    ttrpg_id,\n                    description,\n                    dice_label,\n                    dice,\n                    amount\n                ) VALUES ("@;
    reveal_strlit(", '");
    let l1 = ", '"@;
    reveal_strlit("', '");
    let l2 = "', '"@;
    reveal_strlit("', ");
    let l3 = "', "@;
    reveal_strlit(", ");
    let l4 = ", "@;
    reveal_strlit(")\n            ");
    let l5 = ")\n            "@;
    let u0 = (l0.subrange(0, 212) + decimal(campaign_id as nat) + l1.subrange(0, 2));
    assert(!l0.subrange(0, 212).contains('\''));
    lemma_decimal_quote_free(campaign_id as nat);
    lemma_no_quote_concat(l0.subrange(0, 212), decimal(campaign_id as nat));
    assert(!l1.subrange(0, 2).contains('\''));
    lemma_no_quote_concat((l0.subrange(0, 212) + decimal(campaign_id as nat)), l1.subrange(0, 2));
    assert(u0 =~= ((l0.subrange(0, 212) + decimal(campaign_id as nat)) + l1.subrange(0, 2)));
    let u1 = (l2.subrange(1, 3));
    assert(!l2.subrange(1, 3).contains('\''));
    assert(u1 =~= l2.subrange(1, 3));
    let u2 = (l3.subrange(1, 3) + decimal(dice as nat) + l4.subrange(0, 2) + decimal(amount as nat) + l5.subrange(0, 14));
    assert(!l3.subrange(1, 3).contains('\''));
    lemma_decimal_quote_free(dice as nat);
    lemma_no_quote_concat(l3.subrange(1, 3), decimal(dice as nat));
    assert(!l4.subrange(0, 2).contains('\''));
    lemma_no_quote_concat((l3.subrange(1, 3) + decimal(dice as nat)), l4.subrange(0, 2));
    lemma_decimal_quote_free(amount as nat);
    lemma_no_quote_concat(((l3.subrange(1, 3) + decimal(dice as nat)) + l4.subrange(0, 2)), decimal(amount as nat));
    assert(!l5.subrange(0, 14).contains('\''));
    lemma_no_quote_concat((((l3.subrange(1, 3) + decimal(dice as nat)) + l4.subrange(0, 2)) + decimal(amount as nat)), l5.subrange(0, 14));
    assert(u2 =~= ((((l3.subrange(1, 3) + decimal(dice as nat)) + l4.subrange(0, 2)) + decimal(amount as nat)) + l5.subrange(0, 14)));
    lemma_quote_free_text(dice_label);
    let r0 = u1 + seq!['\''] + escape_quotes(dice_label) + seq!['\''] + u2;
    let r1 = u2;
    assert(skill_save_text(campaign_id, escape_quotes(raw), dice_label, dice, amount) =~= u0 + seq!['\''] + escape_quotes(raw) + seq!['\''] + r0);
    lemma_quoted_then(u0, raw, r0);
    assert(r0 =~= u1 + seq!['\''] + escape_quotes(dice_label) + seq!['\''] + r1);
    lemma_quoted_then(u1, dice_label, r1);
    lemma_literals_skip(u2, Seq::empty());
    assert(u2 + Seq::<char>::empty() =~= u2);
    assert(sql_literals(skill_save_text(campaign_id, escape_quotes(raw), dice_label, dice, amount)) =~= seq![raw, dice_label]);
}

/// Updating a skill stores its description as typed: the quoted values of
/// the update statement read back as `raw` and the dice label.
pub proof fn lemma_skill_update_stores_values(entity_id: u32, raw: Seq<char>, dice_label: Seq<char>, dice: u32, amount: u32)
    requires
        !dice_label.contains('\''),
    ensures
        sql_literals(skill_update_text(entity_id, escape_quotes(raw), dice_label, dice, amount)) == seq![raw, dice_label],
{
    reveal_strlit("\n            UPDATE skills SET description = '");
    let l0 = "\n            UPDATE skills SET description = '"@;
    reveal_strlit("', dice_label = '");
    let l1 = "', dice_label = '"@;
    reveal_strlit("', dice = ");
    let l2 = "', dice = "@;
    reveal_strlit(", amount = ");
    let l3 = ", amount = "@;
    reveal_strlit(" WHERE id = ");
    let l4 = " WHERE id = "@;
    reveal_strlit("\n            ");
    let l5 = "\n            "@;
    let u0 = (l0.subrange(0, 45));
    assert(!l0.subrange(0, 45).contains('\''));
    assert(u0 =~= l0.subrange(0, 45));
    let u1 = (l1.subrange(1, 16));
    assert(!l1.subrange(1, 16).contains('\''));
    assert(u1 =~= l1.subrange(1, 16));
    let u2 = (l2.subrange(1, 10) + decimal(dice as nat) + l3.subrange(0, 11) + decimal(amount as nat) + l4.subrange(0, 12) + decimal(entity_id as nat) + l5.subrange(0, 13));
    assert(!l2.subrange(1, 10).contains('\''));
    lemma_decimal_quote_free(dice as nat);
    lemma_no_quote_concat(l2.subrange(1, 10), decimal(dice as nat));
    assert(!l3.subrange(0, 11).contains('\''));
    lemma_no_quote_concat((l2.subrange(1, 10) + decimal(dice as nat)), l3.subrange(0, 11));
    lemma_decimal_quote_free(amount as nat);
    lemma_no_quote_concat(((l2.subrange(1, 10) + decimal(dice as nat)) + l3.subrange(0, 11)), decimal(amount as nat));
    assert(!l4.subrange(0, 12).contains('\''));
    lemma_no_quote_concat((((l2.subrange(1, 10) + decimal(dice as nat)) + l3.subrange(0, 11)) + decimal(amount as nat)), l4.subrange(0, 12));
    lemma_decimal_quote_free(entity_id as nat);
    lemma_no_quote_concat(((((l2.subrange(1, 10) + decimal(dice as nat)) + l3.subrange(0, 11)) + decimal(amount as nat)) + l4.subrange(0, 12)), decimal(entity_id as nat));
    assert(!l5.subrange(0, 13).contains('\''));
    lemma_no_quote_concat((((((l2.subrange(1, 10) + decimal(dice as nat)) + l3.subrange(0, 11)) + decimal(amount as nat)) + l4.subrange(0, 12)) + decimal(entity_id as nat)), l5.subrange(0, 13));
    assert(u2 =~= ((((((l2.subrange(1, 10) + decimal(dice as nat)) + l3.subrange(0, 11)) + decimal(amount as nat)) + l4.subrange(0, 12)) + decimal(entity_id as nat)) + l5.subrange(0, 13)));
    lemma_quote_free_text(dice_label);
    let r0 = u1 + seq!['\''] + escape_quotes(dice_label) + seq!['\''] + u2;
    let r1 = u2;
    assert(skill_update_text(entity_id, escape_quotes(raw), dice_label, dice, amount) =~= u0 + seq!['\''] + escape_quotes(raw) + seq!['\''] + r0);
    lemma_quoted_then(u0, raw, r0);
    assert(r0 =~= u1 + seq!['\''] + escape_quotes(dice_label) + seq!['\''] + r1);
    lemma_quoted_then(u1, dice_label, r1);
    lemma_literals_skip(u2, Seq::empty());
    assert(u2 + Seq::<char>::empty() =~= u2);
    assert(sql_literals(skill_update_text(entity_id, escape_quotes(raw), dice_label, dice, amount)) =~= seq![raw, dice_label]);
}

/// Saving a counter stores its description as typed: the one quoted value
/// of the save statement reads back as `raw`.
pub proof fn lemma_counter_save_stores_text(campaign_id: u32, raw: Seq<char>, number: u32)
    ensures
        sql_literals(counter_save_text(campaign_id, escape_quotes(raw), number)) == seq![raw],
{
    reveal_strlit("\n            INSERT INTO counters (\n            ttrpg_id,\n            description,\n            number\n            )\n            VALUES (");
    let l0 = "\n            INSERT INTO counters (\n            ttrpg_id,\n            description,\n            number\n            )\n            VALUES ("@;
    reveal_strlit(", '");
    let l1 = ", '"@;
    reveal_strlit("', ");
    let l2 = "', "@;
    reveal_strlit(")\n            ");
    let l3 = ")\n            "@;
    let u0 = (l0.subrange(0, 136) + decimal(campaign_id as nat) + l1.subrange(0, 2));
    assert(!l0.subrange(0, 136).contains('\''));
    lemma_decimal_quote_free(campaign_id as nat);
    lemma_no_quote_concat(l0.subrange(0, 136), decimal(campaign_id as nat));
    assert(!l1.subrange(0, 2).contains('\''));
    lemma_no_quote_concat((l0.subrange(0, 136) + decimal(campaign_id as nat)), l1.subrange(0, 2));
    assert(u0 =~= ((l0.subrange(0, 136) + decimal(campaign_id as nat)) + l1.subrange(0, 2)));
    let u1 = (l2.subrange(1, 3) + decimal(number as nat) + l3.subrange(0, 14));
    assert(!l2.subrange(1, 3).contains('\''));
    lemma_decimal_quote_free(number as nat);
    lemma_no_quote_concat(l2.subrange(1, 3), decimal(number as nat));
    assert(!l3.subrange(0, 14).contains('\''));
    lemma_no_quote_concat((l2.subrange(1, 3) + decimal(number as nat)), l3.subrange(0, 14));
    assert(u1 =~= ((l2.subrange(1, 3) + decimal(number as nat)) + l3.subrange(0, 14)));
    let r0 = u1;
    assert(counter_save_text(campaign_id, escape_quotes(raw), number) =~= u0 + seq!['\''] + escape_quotes(raw) + seq!['\''] + r0);
    lemma_quoted_then(u0, raw, r0);
    lemma_literals_skip(u1, Seq::empty());
    assert(u1 + Seq::<char>::empty() =~= u1);
    assert(sql_literals(counter_save_text(campaign_id, escape_quotes(raw), number)) =~= seq![raw]);
}

/// Updating a counter stores its description as typed: the one quoted
/// value of the update statement reads back as `raw`.
pub proof fn lemma_counter_update_stores_text(entity_id: u32, raw: Seq<char>, number: u32)
    ensures
        sql_literals(counter_update_text(entity_id, escape_quotes(raw), number)) == seq![raw],
{
    reveal_strlit("\n            UPDATE counters SET description = '");
    let l0 = "\n            UPDATE counters SET description = '"@;
    reveal_strlit("', number = ");
    let l1 = "', number = "@;
    reveal_strlit(" WHERE id = ");
    let l2 = " WHERE id = "@;
    reveal_strlit(";\n            ");
    let l3 = ";\n            "@;
    let u0 = (l0.subrange(0, 47));
    assert(!l0.subrange(0, 47).contains('\''));
    assert(u0 =~= l0.subrange(0, 47));
    let u1 = (l1.subrange(1, 12) + decimal(number as nat) + l2.subrange(0, 12) + decimal(entity_id as nat) + l3.subrange(0, 14));
    assert(!l1.subrange(1, 12).contains('\''));
    lemma_decimal_quote_free(number as nat);
    lemma_no_quote_concat(l1.subrange(1, 12), decimal(number as nat));
    assert(!l2.subrange(0, 12).contains('\''));
    lemma_no_quote_concat((l1.subrange(1, 12) + decimal(number as nat)), l2.subrange(0, 12));
    lemma_decimal_quote_free(entity_id as nat);
    lemma_no_quote_concat(((l1.subrange(1, 12) + decimal(number as nat)) + l2.subrange(0, 12)), decimal(entity_id as nat));
    assert(!l3.subrange(0, 14).contains('\''));
    lemma_no_quote_concat((((l1.subrange(1, 12) + decimal(number as nat)) + l2.subrange(0, 12)) + decimal(entity_id as nat)), l3.subrange(0, 14));
    assert(u1 =~= ((((l1.subrange(1, 12) + decimal(number as nat)) + l2.subrange(0, 12)) + decimal(entity_id as nat)) + l3.subrange(0, 14)));
    let r0 = u1;
    assert(counter_update_text(entity_id, escape_quotes(raw), number) =~= u0 + seq!['\''] + escape_quotes(raw) + seq!['\''] + r0);
    lemma_quoted_then(u0, raw, r0);
    lemma_literals_skip(u1, Seq::empty());
    assert(u1 + Seq::<char>::empty() =~= u1);
    assert(sql_literals(counter_update_text(entity_id, escape_quotes(raw), number)) =~= seq![raw]);
}

/// Saving a table stores its description as typed: the quoted values of the
/// save statement read back as `raw` and the JSON of its rows.
pub proof fn lemma_table_save_stores_values(campaign_id: u32, raw: Seq<char>, values_json: Seq<char>)
    requires
        !values_json.contains('\''),
    ensures
        sql_literals(table_save_text(campaign_id, escape_quotes(raw), values_json)) == seq![raw, values_json],
{
    reveal_strlit("\n            INSERT INTO tables (\n                ttrpg_id,\n                description,\n                values_json\n            ) VALUES(");
    let l0 = "\n            INSERT INTO tables (\n                ttrpg_id,\n                description,\n                values_json\n            ) VALUES("@;
    reveal_strlit(", '");
    let l1 = ", '"@;
    reveal_strlit("', '");
    let l2 = "', '"@;
    reveal_strlit("')\n            ");
    let l3 = "')\n            "@;
    let u0 = (l0.subrange(0, 138) + decimal(campaign_id as nat) + l1.subrange(0, 2));
    assert(!l0.subrange(0, 138).contains('\''));
    lemma_decimal_quote_free(campaign_id as nat);
    lemma_no_quote_concat(l0.subrange(0, 138), decimal(campaign_id as nat));
    assert(!l1.subrange(0, 2).contains('\''));
    lemma_no_quote_concat((l0.subrange(0, 138) + decimal(campaign_id as nat)), l1.subrange(0, 2));
    assert(u0 =~= ((l0.subrange(0, 138) + decimal(campaign_id as nat)) + l1.subrange(0, 2)));
    let u1 = (l2.subrange(1, 3));
    assert(!l2.subrange(1, 3).contains('\''));
    assert(u1 =~= l2.subrange(1, 3));
    let u2 = (l3.subrange(1, 15));
    assert(!l3.subrange(1, 15).contains('\''));
    assert(u2 =~= l3.subrange(1, 15));
    lemma_quote_free_text(values_json);
    let r0 = u1 + seq!['\''] + escape_quotes(values_json) + seq!['\''] + u2;
    let r1 = u2;
    assert(table_save_text(campaign_id, escape_quotes(raw), values_json) =~= u0 + seq!['\''] + escape_quotes(raw) + seq!['\''] + r0);
    lemma_quoted_then(u0, raw, r0);
    assert(r0 =~= u1 + seq!['\''] + escape_quotes(values_json) + seq!['\''] + r1);
    lemma_quoted_then(u1, values_json, r1);
    lemma_literals_skip(u2, Seq::empty());
    assert(u2 + Seq::<char>::empty() =~= u2);
    assert(sql_literals(table_save_text(campaign_id, escape_quotes(raw), values_json)) =~= seq![raw, values_json]);
}

/// Updating a table stores its description as typed: the quoted values of
/// the update statement read back as `raw` and the JSON of its rows.
pub proof fn lemma_table_update_stores_values(entity_id: u32, raw: Seq<char>, values_json: Seq<char>)
    requires
        !values_json.contains('\''),
    ensures
        sql_literals(table_update_text(entity_id, escape_quotes(raw), values_json)) == seq![raw, values_json],
{
    reveal_strlit("\n            UPDATE tables SET description = '");
    let l0 = "\n            UPDATE tables SET description = '"@;
    reveal_strlit("', values_json = '");
    let l1 = "', values_json = '"@;
    reveal_strlit("' WHERE id = ");
    let l2 = "' WHERE id = "@;
    reveal_strlit(";\n            ");
    let l3 = ";\n            "@;
    let u0 = (l0.subrange(0, 45));
    assert(!l0.subrange(0, 45).contains('\''));
    assert(u0 =~= l0.subrange(0, 45));
    let u1 = (l1.subrange(1, 17));
    assert(!l1.subrange(1, 17).contains('\''));
    assert(u1 =~= l1.subrange(1, 17));
    let u2 = (l2.subrange(1, 13) + decimal(entity_id as nat) + l3.subrange(0, 14));
    assert(!l2.subrange(1, 13).contains('\''));
    lemma_decimal_quote_free(entity_id as nat);
    lemma_no_quote_concat(l2.subrange(1, 13), decimal(entity_id as nat));
    assert(!l3.subrange(0, 14).contains('\''));
    lemma_no_quote_concat((l2.subrange(1, 13) + decimal(entity_id as nat)), l3.subrange(0, 14));
    assert(u2 =~= ((l2.subrange(1, 13) + decimal(entity_id as nat)) + l3.subrange(0, 14)));
    lemma_quote_free_text(values_json);
    let r0 = u1 + seq!['\''] + escape_quotes(values_json) + seq!['\''] + u2;
    let r1 = u2;
    assert(table_update_text(entity_id, escape_quotes(raw), values_json) =~= u0 + seq!['\''] + escape_quotes(raw) + seq!['\''] + r0);
    lemma_quoted_then(u0, raw, r0);
    assert(r0 =~= u1 + seq!['\''] + escape_quotes(values_json) + seq!['\''] + r1);
    lemma_quoted_then(u1, values_json, r1);
    lemma_literals_skip(u2, Seq::empty());
    assert(u2 + Seq::<char>::empty() =~= u2);
    assert(sql_literals(table_update_text(entity_id, escape_quotes(raw), values_json)) =~= seq![raw, values_json]);
}


} // verus!
