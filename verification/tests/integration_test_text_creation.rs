use ttrpg_maker::narratives::{TabledNarratives, TypedNarrative};
use ttrpg_maker::roll_dice::{Critical, Outcome, Roll};

#[test]
fn can_create_and_retrive_texts() {
    let text = String::from("This is a String");
    let typed_narrative = TypedNarrative::new(text.clone());
    let tn_text = &typed_narrative.text;

    println!("Text: {}", tn_text);

    let tn_result: Option<TypedNarrative> = Some(TypedNarrative { text });

    let get_text_result: Option<&String> = Some(tn_text);

    assert!(tn_result.is_some() && get_text_result.is_some());
}

#[test]
fn can_create_tables_and_retrieve_text_from_roll() {
    let table_values = vec![
        ((1, 5), String::from("You eat dirt")),
        ((6, 10), String::from("You lost all your money!")),
        ((11, 15), String::from("After falling, you broke a leg!")),
        ((16, 20), String::from("Turns out the child was in fact yours!")),
        ((21, 25), String::from("Your rampat alcoholism causes eternal poisoning!")),
        ((26, 40), String::from("You ran out of things to say...")),
    ];

    let test_table = TabledNarratives::new(table_values);
    let roll = Roll::new(20, 2);
    let crit = Critical::One;
    let outcome = Outcome::new(&roll, &crit, 0, false);
    let result_pass = test_table.roll_to_text(&outcome);

    assert!(Some(result_pass).is_some());
}
