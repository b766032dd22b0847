use recipe_creator::llm::LlmError;
use recipe_creator::recipes::{
    after_answer, build_request, found_recipe, generation_start, GenerateStart, generation_error_location, missing_key_location,
    recipe_location, serialize_failed, stored_recipe_invalid, RecipeRow,
};
use recipe_creator::error::AppError;

#[test]
fn build_request_splits_must_use_ingredients() {
    let request = build_request(
        "dinner",
        vec!["salt".into(), "rice".into()],
        "chicken, spinach",
        Some("quick meal".into()),
    );

    assert_eq!(request.meal_type, "dinner");
    assert_eq!(request.must_use, vec!["chicken", "spinach"]);
}

#[test]
fn build_request_keeps_pantry_and_notes() {
    let request = build_request("lunch", vec!["salt".into()], "", Some("quick meal".into()));
    assert_eq!(request.pantry_staples, vec!["salt"]);
    assert!(request.must_use.is_empty());
    assert_eq!(request.notes.as_deref(), Some("quick meal"));
}

#[test]
fn build_request_trims_and_drops_blank_items() {
    let request = build_request("dinner", vec![], " tofu ,\n\n  leek\t,, \u{3000}kale\u{3000}\n", None);
    assert_eq!(request.must_use, vec!["tofu", "leek", "kale"]);
    assert_eq!(request.notes, None);
}

#[test]
fn build_request_drops_blank_notes() {
    let request = build_request("breakfast", vec![], "eggs", Some(" \n\t ".into()));
    assert_eq!(request.notes, None);
    assert_eq!(request.must_use, vec!["eggs"]);
}

#[test]
fn build_request_keeps_notes_untrimmed() {
    let request = build_request("breakfast", vec![], "eggs\nham", Some("  no dairy ".into()));
    assert_eq!(request.notes.as_deref(), Some("  no dairy "));
    assert_eq!(request.must_use, vec!["eggs", "ham"]);
}

#[test]
fn must_use_items_rejoined_split_the_same() {
    let first = build_request("dinner", vec![], " a, b ,\nc", None);
    let joined = first.must_use.join(",");
    let second = build_request("dinner", vec![], &joined, None);
    assert_eq!(first.must_use, second.must_use);
    let third = build_request("dinner", vec![], &first.must_use.join("\n"), None);
    assert_eq!(first.must_use, third.must_use);
    let empty = build_request("dinner", vec![], " , \n", None);
    assert_eq!(build_request("dinner", vec![], &empty.must_use.join(","), None).must_use, empty.must_use);
}

#[test]
fn generation_steps() {
    assert!(matches!(generation_start(None, Some("k".into())), GenerateStart::Stop(AppError::Unauthorized)));
    assert!(matches!(generation_start(None, None), GenerateStart::Stop(AppError::Unauthorized)));
    match generation_start(Some(4), None) {
        GenerateStart::Redirect(l) => assert_eq!(l, "/recipes/new?error=GEMINI_API_KEY+is+not+configured"),
        _ => panic!("expected a redirect"),
    }
    match generation_start(Some(4), Some("k".into())) {
        GenerateStart::Go(id, key) => {
            assert_eq!(id, 4);
            assert_eq!(key, "k");
        }
        _ => panic!("expected to go on"),
    }
    assert_eq!(after_answer::<u8>(Ok(7)), Ok(7));
    assert_eq!(
        after_answer::<u8>(Err(LlmError::BadResponse)),
        Err("/recipes/new?error=Gemini%20returned%20an%20unexpected%20response.%20Try%20again.".to_string())
    );
}
