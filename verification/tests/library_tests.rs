use ttrpg_maker::entities::{
    story_delete_query, story_save_query, story_update_query, Attribute, Counter, SaveLoad, Skill,
    Table,
};
use ttrpg_maker::audio::converted_wav_path;
use ttrpg_maker::narratives::{keys_readable, JsonValue, TabledNarratives, TypedNarrative};
use ttrpg_maker::roll_dice::{Critical, Outcome, Roll};
use ttrpg_maker::store::{
    attribute_from_row, counter_from_row, critical_from_setting, delete_ttrpg_query,
    deletion_message, element_overview, elements_query, find_ttrpg, insert_ttrpg_query,
    roll_from_row, skill_from_row, story_from_row, table_parts_from_row, valid_database_name,
    campaign_opening, CampaignOpening, TtrpgLookup,
};
use ttrpg_maker::text::{escape_sql, parse_u32, u32_to_decimal};

fn cells(values: &[Option<&str>]) -> Vec<Option<String>> {
    values.iter().map(|v| v.map(|s| s.to_string())).collect()
}

fn table_sorted(t: &TabledNarratives) -> Vec<((u32, u32), String)> {
    let mut rows = t.table.clone();
    rows.sort();
    rows
}

fn outcome_of(dice: u32, rolled: Vec<u32>, crit: Critical, bonus: u32, attribute: bool) -> Outcome {
    let roll = Roll::new(dice, rolled.len() as u32);
    Outcome::from_rolls(&roll, &crit, bonus, attribute, rolled)
}

#[test]
fn roll_label_names_amount_then_sides() {
    assert_eq!(Roll::new(6, 4).dice_label, "4d6");
    assert_eq!(Roll::new(20, 12).dice_label, "12d20");
    assert_eq!(Roll::new(0, 0).dice_label, "0d0");
    let r = Roll::new(100, 3);
    assert_eq!((r.dice, r.amount), (100, 3));
}

#[test]
fn outcome_sums_dice_and_bonus() {
    let o = outcome_of(6, vec![3, 6, 1, 4], Critical::Twenty, 2, false);
    assert_eq!(o.base_result, 16);
    assert_eq!(o.roll_description, "Roll: 4d6 + 2");
    assert_eq!((o.max, o.min, o.critical), (6, 1, 20));
    assert!(!o.attribute);
}

#[test]
fn attribute_roll_with_critical_twenty_drops_lowest_die() {
    let o = outcome_of(6, vec![3, 6, 1, 4], Critical::Twenty, 2, true);
    assert_eq!(o.base_result, 15);
    assert!(o.attribute);
}

#[test]
fn attribute_roll_with_critical_one_also_drops_lowest_die() {
    let o = outcome_of(6, vec![3, 6, 1, 4], Critical::One, 0, true);
    assert_eq!((o.max, o.min, o.critical), (1, 6, 1));
    assert_eq!(o.base_result, 13);
}

#[test]
fn attribute_roll_drops_only_one_of_equal_dice() {
    let o = outcome_of(6, vec![2, 5, 2], Critical::Twenty, 0, true);
    assert_eq!(o.base_result, 7);
}

#[test]
fn rolled_outcome_stays_within_dice_bounds() {
    let roll = Roll::new(6, 4);
    for _ in 0..500 {
        let plain = Outcome::new(&roll, &Critical::Twenty, 1, false);
        assert!(plain.base_result >= 5 && plain.base_result <= 25);
        let attr = Outcome::new(&roll, &Critical::One, 0, true);
        assert!(attr.base_result >= 3 && attr.base_result <= 18);
        assert_eq!(attr.roll_description, "Roll: 4d6 + 0");
    }
}

#[test]
fn success_with_critical_twenty_needs_at_least_both() {
    let me = outcome_of(20, vec![15], Critical::Twenty, 0, false);
    let weak = outcome_of(20, vec![10], Critical::Twenty, 0, false);
    assert_eq!(me.success_of_roll(&weak, 12), (true, 12));
    assert_eq!(me.success_of_roll(&weak, 16), (false, 16));
    let strong = outcome_of(20, vec![17], Critical::Twenty, 0, false);
    assert_eq!(me.success_of_roll(&strong, 3), (false, 3));
}

#[test]
fn success_against_attribute_uses_its_result_as_difficulty() {
    let me = outcome_of(20, vec![15], Critical::Twenty, 0, false);
    let attr = outcome_of(6, vec![4, 5, 3], Critical::Twenty, 0, true);
    assert_eq!(attr.base_result, 9);
    assert_eq!(me.success_of_roll(&attr, 99), (true, 9));
}

#[test]
fn success_with_critical_one_needs_at_most_both() {
    let me = outcome_of(20, vec![4], Critical::One, 0, false);
    let other = outcome_of(20, vec![9], Critical::One, 0, false);
    assert_eq!(me.success_of_roll(&other, 5), (true, 5));
    assert_eq!(me.success_of_roll(&other, 3), (false, 3));
    assert_eq!(other.success_of_roll(&me, 15), (false, 15));
}

#[test]
fn typed_narrative_doubles_single_quotes() {
    assert_eq!(TypedNarrative::new("it's Bob's".to_string()).text, "it''s Bob''s");
    assert_eq!(TypedNarrative::new("''".to_string()).text, "''''");
    assert_eq!(TypedNarrative::new(String::new()).text, "");
    assert_eq!(escape_sql("no quotes"), "no quotes");
}

#[test]
fn numbers_parse_like_std() {
    assert_eq!(parse_u32("42"), Some(42));
    assert_eq!(parse_u32("+7"), Some(7));
    assert_eq!(parse_u32("007"), Some(7));
    assert_eq!(parse_u32("4294967295"), Some(4294967295));
    assert_eq!(parse_u32("4294967296"), None);
    assert_eq!(parse_u32(""), None);
    assert_eq!(parse_u32("+"), None);
    assert_eq!(parse_u32("-1"), None);
    assert_eq!(parse_u32("12a"), None);
    assert_eq!(parse_u32(" 1"), None);
    for s in ["0", "9", "10", "123456", "+99", "99999999999", "x"] {
        assert_eq!(parse_u32(s), s.parse::<u32>().ok());
    }
}

#[test]
fn decimal_matches_to_string() {
    for n in [0u32, 7, 10, 99, 100, 65536, 4294967295] {
        assert_eq!(u32_to_decimal(n), n.to_string());
    }
}

#[test]
fn table_keeps_last_text_of_a_repeated_range() {
    let t = TabledNarratives::new(vec![
        ((1, 2), "a".to_string()),
        ((3, 4), "b".to_string()),
        ((1, 2), "c".to_string()),
    ]);
    assert_eq!(t.table, vec![((1, 2), "c".to_string()), ((3, 4), "b".to_string())]);
}

#[test]
fn roll_to_text_picks_last_covering_row() {
    let t = TabledNarratives::new(vec![
        ((1, 10), "wide".to_string()),
        ((4, 6), "narrow".to_string()),
    ]);
    let five = outcome_of(20, vec![5], Critical::Twenty, 0, false);
    let eight = outcome_of(20, vec![8], Critical::Twenty, 0, false);
    assert_eq!(t.roll_to_text(&five), "narrow");
    assert_eq!(t.roll_to_text(&eight), "wide");
}

#[test]
fn values_to_json_writes_compact_array_of_objects() {
    let t = TabledNarratives::new(vec![
        ((1, 5), "You eat dirt".to_string()),
        ((6, 10), "a \"b\"\n\\c\u{1}".to_string()),
    ]);
    assert_eq!(
        t.values_to_json(),
        "[{\"1,5\":\"You eat dirt\"},{\"6,10\":\"a \\\"b\\\"\\n\\\\c\\u0001\"}]"
    );
    assert_eq!(TabledNarratives::new(vec![]).values_to_json(), "[]");
}

#[test]
fn table_json_reads_back_as_the_same_table() {
    let t = TabledNarratives::new(vec![
        ((1, 5), "You eat dirt".to_string()),
        ((6, 10), "You lost all your money!".to_string()),
        ((26, 40), "quote ' and \"double\" \\ \n \u{7}".to_string()),
    ]);
    let back = TabledNarratives::values_from_json(&t.values_to_json());
    let tried = TabledNarratives::try_values_from_json(&t.values_to_json()).unwrap();
    assert_eq!(tried.table, t.table);
    assert_eq!(back.table, t.table);
    let empty = TabledNarratives::values_from_json("[]");
    assert!(empty.table.is_empty());
}

#[test]
fn values_from_json_skips_what_is_not_a_row() {
    let t = TabledNarratives::values_from_json(
        "[{\"1,2\":\"a\",\"x,3\":\"skip\"},{\"3,4\":7},5,{\"5,6,7\":\"b\",\"1,2\":\"c\"}]",
    );
    assert_eq!(table_sorted(&t), vec![((1, 2), "c".to_string()), ((5, 6), "b".to_string())]);
    let not_array = TabledNarratives::from_json_value(&JsonValue::Str("1,2".to_string()));
    assert!(not_array.table.is_empty());
    assert!(TabledNarratives::values_from_json("{\"1,2\":\"a\"}").table.is_empty());
}

#[test]
fn values_from_json_refuses_bad_text_and_bare_number_keys() {
    assert!(TabledNarratives::try_values_from_json("[{\"1,2\":").is_none());
    assert!(TabledNarratives::try_values_from_json("not json").is_none());
    assert!(TabledNarratives::try_values_from_json("[{\"5\":\"a\"}]").is_none());
    assert!(TabledNarratives::try_values_from_json("[{\"x\":\"a\"}]").unwrap().table.is_empty());
    let bare = JsonValue::Array(vec![JsonValue::Object(vec![(
        "15".to_string(),
        JsonValue::Str("a".to_string()),
    )])]);
    assert!(!keys_readable(&bare));
    let keyed = JsonValue::Array(vec![JsonValue::Object(vec![(
        "1,5".to_string(),
        JsonValue::Str("a".to_string()),
    )])]);
    assert!(keys_readable(&keyed));
}

#[test]
fn campaign_opening_creates_missing_and_loads_found() {
    assert_eq!(campaign_opening(TtrpgLookup::Missing, false), CampaignOpening::Create);
    assert_eq!(campaign_opening(TtrpgLookup::Missing, true), CampaignOpening::Create);
    assert_eq!(campaign_opening(TtrpgLookup::Found(3), true), CampaignOpening::Open(3));
    assert_eq!(campaign_opening(TtrpgLookup::Found(3), false), CampaignOpening::Decline);
}

#[test]
fn converted_wav_path_replaces_the_extension() {
    assert_eq!(converted_wav_path("take.wav"), "take_output.wav");
    assert_eq!(converted_wav_path("café.wav"), "café_output.wav");
    assert_eq!(converted_wav_path(".wav"), "_output.wav");
    assert_eq!(converted_wav_path("abcé"), "a_output.wav");
}

#[test]
fn entity_constructors_keep_their_parts() {
    let a = Attribute::new(
        TypedNarrative::new("Strength".to_string()),
        outcome_of(6, vec![1, 2, 3], Critical::Twenty, 0, true),
        "STR",
    );
    assert_eq!((a.description.text.as_str(), a.label.as_str(), a.attribute.base_result), ("Strength", "STR", 5));
    let s = Skill::new(TypedNarrative::new("Sneak".to_string()), Roll::new(20, 1), "SNK");
    assert_eq!((s.roll.dice_label.as_str(), s.label.as_str()), ("1d20", "SNK"));
    let mut c = Counter::new(TypedNarrative::new("HP".to_string()), 10, "hp");
    c.change_number(3);
    assert_eq!((c.number, c.description.text.as_str(), c.label.as_str()), (3, "HP", "hp"));
    let t = Table::new(TypedNarrative::new("Loot".to_string()), TabledNarratives::new(vec![]), "loot");
    assert!(t.table.table.is_empty());
}

#[test]
fn attribute_statements() {
    let a = Attribute::new(
        TypedNarrative::new("Str".to_string()),
        outcome_of(6, vec![6, 6, 1, 5], Critical::Twenty, 1, true),
        "",
    );
    assert_eq!(
        a.save_query(3),
        "\n            INSERT INTO attributes (\n                ttrpg_id,\n                description,\n                roll_description,\n                base_result\n            )\n            VALUES (3, 'Str', 'Roll: 4d6 + 1', '18')\n            "
    );
    assert_eq!(
        a.update_query(7, a.clone()),
        "\n            UPDATE attributes SET description = 'Str', roll_description = 'Roll: 4d6 + 1', base_result = 18 WHERE id = 7;\n            "
    );
    assert_eq!(a.delete_query(9), "\n            DELETE FROM attributes WHERE id = 9;\n            ");
}

#[test]
fn skill_counter_and_table_statements() {
    let s = Skill::new(TypedNarrative::new("Sneak".to_string()), Roll::new(20, 2), "");
    assert_eq!(
        s.save_query(1),
        "\n                INSERT INTO skills (\n                    ttrpg_id,\n                    description,\n                    dice_label,\n                    dice,\n                    amount\n                ) VALUES (1, 'Sneak', '2d20', 20, 2)\n            "
    );
    assert_eq!(
        s.update_query(4, s.clone()),
        "\n            UPDATE skills SET description = 'Sneak', dice_label = '2d20', dice = 20, amount = 2 WHERE id = 4\n            "
    );
    assert_eq!(s.delete_query(4), "\n            DELETE FROM skills WHERE id = 4;\n            ");
    let c = Counter::new(TypedNarrative::new("HP".to_string()), 12, "");
    assert_eq!(
        c.save_query(2),
        "\n            INSERT INTO counters (\n            ttrpg_id,\n            description,\n            number\n            )\n            VALUES (2, 'HP', 12)\n            "
    );
    assert_eq!(
        c.update_query(5, c.clone()),
        "\n            UPDATE counters SET description = 'HP', number = 12 WHERE id = 5;\n            "
    );
    assert_eq!(c.delete_query(5), "\n            DELETE FROM counters WHERE id = 5\n            ");
    let t = Table::new(
        TypedNarrative::new("Loot".to_string()),
        TabledNarratives::new(vec![((1, 3), "gold".to_string())]),
        "",
    );
    assert_eq!(
        t.save_query(8),
        "\n            INSERT INTO tables (\n                ttrpg_id,\n                description,\n                values_json\n            ) VALUES(8, 'Loot', '[{\"1,3\":\"gold\"}]')\n            "
    );
    assert_eq!(
        t.update_query(6, t.clone()),
        "\n            UPDATE tables SET description = 'Loot', values_json = '[{\"1,3\":\"gold\"}]' WHERE id = 6;\n            "
    );
    assert_eq!(t.delete_query(6), "\n            DELETE FROM tables WHERE id = 6;\n            ");
}

#[test]
fn story_statements() {
    assert_eq!(
        story_save_query("Once", 2),
        "\n            INSERT INTO stories (\n                ttrpg_id,\n                text_data\n            )\n            VALUES (2, 'Once')\n            "
    );
    assert_eq!(story_update_query(5, "Twice"), "UPDATE stories SET text_data = 'Twice' WHERE id = 5;");
    assert_eq!(story_delete_query(5), "DELETE FROM stories WHERE id = 5;");
}

#[test]
fn campaign_statements_and_messages() {
    assert_eq!(insert_ttrpg_query("Dragonbane"), "INSERT INTO ttrpgs (name) VALUES ('Dragonbane')");
    assert_eq!(elements_query("stories", 4), "SELECT * FROM stories WHERE ttrpg_id = 4");
    assert_eq!(
        delete_ttrpg_query(3),
        "\n        DELETE FROM ttrpgs WHERE id = 3;\n        DELETE FROM stories WHERE ttrpg_id = 3;\n        DELETE FROM attributes WHERE ttrpg_id = 3;\n        DELETE FROM all_rolls WHERE ttrpg_id = 3;\n        DELETE FROM skills WHERE ttrpg_id = 3;\n        DELETE FROM counters WHERE ttrpg_id = 3;\n        DELETE FROM tables WHERE ttrpg_id = 3; \n        "
    );
    assert_eq!(deletion_message("Dragonbane"), "TTRPG Dragonbane successfully deleted!");
    assert_eq!(
        element_overview(1, 2, 3, 4, 10),
        "Element Overview\n\nStories: 1\nAttributes: 2\nSkills: 3\nCounters:4\nTables: 10"
    );
}

#[test]
fn stored_rows_read_back() {
    let (id, text) = story_from_row(&cells(&[Some("4"), Some("1"), Some("it's")])).unwrap();
    assert_eq!((id, text.text.as_str()), (4, "it''s"));
    assert!(story_from_row(&cells(&[Some("x"), Some("1"), Some("t")])).is_none());
    assert!(story_from_row(&cells(&[Some("4"), Some("1")])).is_none());

    let (id, a) = attribute_from_row(&cells(&[Some("2"), Some("1"), Some("Str"), Some("Roll: 4d6 + 0"), Some("14")])).unwrap();
    assert_eq!((id, a.attribute.base_result, a.attribute.critical, a.attribute.max, a.attribute.min), (2, 14, 20, 1, 1));
    assert!(a.attribute.attribute);
    assert_eq!(a.attribute.roll_description, "Roll: 4d6 + 0");
    assert!(attribute_from_row(&cells(&[Some("2"), Some("1"), Some("Str"), None, Some("14")])).is_none());

    let (id, s) = skill_from_row(&cells(&[Some("3"), Some("1"), Some("Sneak"), Some("1d20"), Some("20"), Some("1")])).unwrap();
    assert_eq!((id, s.roll.dice_label.as_str(), s.roll.dice, s.roll.amount), (3, "1d20", 20, 1));
    assert!(skill_from_row(&cells(&[Some("3"), Some("1"), Some("Sneak"), Some("1d20"), Some("20")])).is_none());

    let (id, c) = counter_from_row(&cells(&[Some("5"), Some("1"), Some("HP"), Some("12")])).unwrap();
    assert_eq!((id, c.number, c.description.text.as_str()), (5, 12, "HP"));
    assert!(counter_from_row(&cells(&[Some("5"), Some("1"), Some("HP"), Some("-1")])).is_none());

    let (id, d, json) = table_parts_from_row(&cells(&[Some("6"), Some("1"), Some("Loot"), Some("[]")])).unwrap();
    assert_eq!((id, d.text.as_str(), json.as_str()), (6, "Loot", "[]"));
}

#[test]
fn stored_rolls_are_rolled_again() {
    let row = cells(&[Some("1"), Some("0"), Some("2d6"), Some("6"), Some("6"), Some("2"), Some("3")]);
    let (id, out) = roll_from_row(&row, &Critical::Twenty).unwrap();
    assert_eq!(id, 1);
    assert_eq!(out.roll_description, "Roll: 2d6 + 3");
    assert!(out.base_result >= 5 && out.base_result <= 15);
    // The stored table has six columns: a seventh is never there.
    let short = cells(&[Some("1"), Some("0"), Some("2d6"), Some("6"), Some("2"), Some("3")]);
    assert!(roll_from_row(&short, &Critical::Twenty).is_none());
    let no_dice = cells(&[Some("1"), Some("0"), Some("0d6"), Some("6"), Some("6"), Some("0"), Some("3")]);
    assert!(roll_from_row(&no_dice, &Critical::Twenty).is_none());
    assert!(matches!(critical_from_setting(1), Critical::One));
    assert!(matches!(critical_from_setting(20), Critical::Twenty));
    assert!(matches!(critical_from_setting(7), Critical::Twenty));
}

#[test]
fn campaigns_are_found_by_name() {
    let rows = vec![
        cells(&[Some("1"), Some("2024"), Some("Alpha")]),
        cells(&[Some("2"), Some("2024"), Some("Beta")]),
        cells(&[Some("3"), Some("2024"), Some("Alpha")]),
    ];
    assert_eq!(find_ttrpg(&rows, "Alpha"), TtrpgLookup::Found(3));
    assert_eq!(find_ttrpg(&rows, "Beta"), TtrpgLookup::Found(2));
    assert_eq!(find_ttrpg(&rows, "Gamma"), TtrpgLookup::Missing);
    let broken = vec![cells(&[Some("1"), Some("2024"), None])];
    assert_eq!(find_ttrpg(&broken, "Alpha"), TtrpgLookup::Unreadable);
    let bad_id = vec![cells(&[Some("one"), Some("2024"), Some("Alpha")])];
    assert_eq!(find_ttrpg(&bad_id, "Alpha"), TtrpgLookup::Unreadable);
    assert_eq!(find_ttrpg(&bad_id, "Beta"), TtrpgLookup::Missing);
}

#[test]
fn database_names_need_text_without_white_space() {
    assert!(valid_database_name("campaign"));
    assert!(!valid_database_name(""));
    assert!(!valid_database_name("my campaign"));
    assert!(!valid_database_name("tab\there"));
}

fn stored_rows(connection: &sqlite::Connection, statement: &str) -> Vec<Vec<Option<String>>> {
    let mut rows = Vec::new();
    connection
        .iterate(statement, |row: &[(&str, Option<&str>)]| {
            rows.push(row.iter().map(|(_, v)| v.map(|s| s.to_string())).collect());
            true
        })
        .unwrap();
    rows
}

#[test]
fn escaped_text_reads_back_from_sql() {
    let connection = sqlite::open(":memory:").unwrap();
    connection
        .execute("CREATE TABLE stories (id INTEGER PRIMARY KEY AUTOINCREMENT, ttrpg_id INTEGER NOT NULL, text_data TEXT NOT NULL);")
        .unwrap();
    let typed = TypedNarrative::new("it's a 'quoted' ''tale''".to_string());
    connection.execute(story_save_query(&typed.text, 1)).unwrap();
    let rows = stored_rows(&connection, "SELECT * FROM stories");
    assert_eq!(rows[0][2].as_deref(), Some("it's a 'quoted' ''tale''"));
    let (id, back) = story_from_row(&rows[0]).unwrap();
    assert_eq!(id, 1);
    assert_eq!(back.text, typed.text);
}

#[test]
fn saved_counter_reads_back() {
    let connection = sqlite::open(":memory:").unwrap();
    connection
        .execute("CREATE TABLE counters (id INTEGER PRIMARY KEY AUTOINCREMENT, ttrpg_id INTEGER NOT NULL, description TEXT NOT NULL, number INTEGER NOT NULL);")
        .unwrap();
    let c = Counter::new(TypedNarrative::new("Bob's HP".to_string()), 4000000000, "");
    connection.execute(c.save_query(7)).unwrap();
    let rows = stored_rows(&connection, &elements_query("counters", 7));
    let (id, back) = counter_from_row(&rows[0]).unwrap();
    assert_eq!((id, back.number, back.description.text.as_str()), (1, 4000000000, "Bob''s HP"));
    let mut changed = back.clone();
    changed.change_number(5);
    connection.execute(back.update_query(id, changed)).unwrap();
    let rows = stored_rows(&connection, &elements_query("counters", 7));
    assert_eq!(counter_from_row(&rows[0]).unwrap().1.number, 5);
    connection.execute(back.delete_query(id)).unwrap();
    assert!(stored_rows(&connection, &elements_query("counters", 7)).is_empty());
}

#[test]
fn disjoint_table_reads_the_same_in_any_order() {
    let rows = vec![
        ((1, 5), "low".to_string()),
        ((6, 10), "mid".to_string()),
        ((11, 20), "high".to_string()),
    ];
    let mut reversed = rows.clone();
    reversed.reverse();
    let a = TabledNarratives::new(rows);
    let b = TabledNarratives::new(reversed);
    for r in 1..=20u32 {
        let o = outcome_of(20, vec![r], Critical::Twenty, 0, false);
        assert_eq!(a.roll_to_text(&o), b.roll_to_text(&o));
    }
}

#[test]
fn story_and_attribute_updates_run_on_sqlite() {
    let connection = sqlite::open(":memory:").unwrap();
    connection
        .execute("CREATE TABLE stories (id INTEGER PRIMARY KEY AUTOINCREMENT, ttrpg_id INTEGER NOT NULL, text_data TEXT NOT NULL);
                  CREATE TABLE attributes (id INTEGER PRIMARY KEY AUTOINCREMENT, ttrpg_id INTEGER NOT NULL, description TEXT NOT NULL, roll_description TEXT NOT NULL, base_result TEXT NOT NULL);")
        .unwrap();
    connection.execute(story_save_query("first", 1)).unwrap();
    connection.execute(story_update_query(1, "second")).unwrap();
    let rows = stored_rows(&connection, "SELECT * FROM stories");
    assert_eq!(rows[0][2].as_deref(), Some("second"));
    connection.execute(story_delete_query(1)).unwrap();
    assert!(stored_rows(&connection, "SELECT * FROM stories").is_empty());

    let a = Attribute::new(
        TypedNarrative::new("Str".to_string()),
        outcome_of(6, vec![6, 6, 1, 5], Critical::Twenty, 1, true),
        "",
    );
    connection.execute(a.save_query(3)).unwrap();
    let b = Attribute::new(
        TypedNarrative::new("Agility".to_string()),
        outcome_of(6, vec![2, 2, 2, 2], Critical::Twenty, 0, true),
        "",
    );
    connection.execute(a.update_query(1, b)).unwrap();
    let rows = stored_rows(&connection, &elements_query("attributes", 3));
    let (id, back) = attribute_from_row(&rows[0]).unwrap();
    assert_eq!(id, 1);
    assert_eq!(back.description.text, "Agility");
    assert_eq!(back.attribute.roll_description, "Roll: 4d6 + 0");
    assert_eq!(back.attribute.base_result, 6);
}

#[test]
fn white_space_matches_std_for_every_char() {
    for n in 0..=0x10ffffu32 {
        if let Some(c) = char::from_u32(n) {
            assert_eq!(ttrpg_maker::store::is_white_space(c), c.is_whitespace(), "{:#x}", n);
        }
    }
}
