use recipe_creator::llm::{
    candidate_text, check_status, parsed_recipe, read_reply, GeneratedRecipe, describe_response, recipe_schema, request_body, system_prompt,
    user_prompt, GeminiCandidate, GeminiClient, GeminiContent, GeminiPart, GeminiResponse, LlmError,
};

#[test]
fn describe_response_includes_status_and_body() {
    let message = describe_response(429, r#"{"error":{"message":"Quota exceeded"}}"#);

    assert!(message.contains("429"));
    assert!(message.contains("Quota exceeded"));
}

#[test]
fn describe_response_exact_text() {
    assert_eq!(
        describe_response(429, "  {\"error\":1}\n"),
        "HTTP 429 Too Many Requests: {\"error\":1}"
    );
    assert_eq!(describe_response(404, " \n "), "HTTP 404 Not Found");
    assert_eq!(describe_response(599, ""), "HTTP 599 <unknown status code>");
}

#[test]
fn system_prompt_joins_sentences() {
    assert_eq!(
        system_prompt(),
        "You are a helpful home cook assistant. Create practical recipes using the user's pantry staples when possible. Only suggest extra shopping items when truly necessary. Respect the meal type, must-use ingredients, and any notes. Respond with valid JSON only, matching the requested schema."
    );
}

#[test]
fn user_prompt_wraps_context_and_schema() {
    let prompt = user_prompt("{\"meal_type\": \"dinner\"}");
    let expected = format!(
        "Create a recipe with this context:\n{{\"meal_type\": \"dinner\"}}\n\nReturn JSON with this schema:\n{}",
        recipe_schema()
    );
    assert_eq!(prompt, expected);
    assert!(recipe_schema().starts_with("{\n  \"title\": \"string\","));
    assert!(recipe_schema().ends_with("\"shopping_optional\": [\"string\"]\n}"));
}

#[test]
fn request_body_has_system_and_user_parts() {
    let body = request_body("{}");
    let system = body.system_instruction.expect("system instruction");
    assert_eq!(system.parts.len(), 1);
    assert_eq!(system.parts[0].text, system_prompt());
    assert_eq!(body.contents.len(), 1);
    assert_eq!(body.contents[0].parts.len(), 1);
    assert_eq!(body.contents[0].parts[0].text, user_prompt("{}"));
    assert_eq!(body.generation_config.response_mime_type, "application/json");
}

#[test]
fn quota_status_is_quota_exceeded() {
    assert!(matches!(check_status(429, b"anything"), Err(LlmError::QuotaExceeded)));
}

#[test]
fn failed_status_quotes_the_reply() {
    match check_status(500, b" boom \n") {
        Err(LlmError::Api(m)) => assert_eq!(m, "Gemini error: HTTP 500 Internal Server Error: boom"),
        _ => panic!("expected an API error"),
    }
    match check_status(302, b"") {
        Err(LlmError::Api(m)) => assert_eq!(m, "Gemini error: HTTP 302 Found"),
        _ => panic!("expected an API error"),
    }
    match check_status(400, &[0x66, 0xff, 0x6f]) {
        Err(LlmError::Api(m)) => assert_eq!(m, "Gemini error: HTTP 400 Bad Request: f\u{fffd}o"),
        _ => panic!("expected an API error"),
    }
}

#[test]
fn success_status_goes_on() {
    assert!(check_status(200, b"{}").is_ok());
    assert!(check_status(299, b"").is_ok());
}

fn reply_with(candidates: Option<Vec<GeminiCandidate>>) -> GeminiResponse {
    GeminiResponse { candidates }
}

#[test]
fn candidate_text_takes_first_part_of_first_candidate() {
    let payload = reply_with(Some(vec![
        GeminiCandidate {
            content: Some(GeminiContent {
                parts: vec![GeminiPart { text: "first".into() }, GeminiPart { text: "second".into() }],
            }),
        },
        GeminiCandidate { content: Some(GeminiContent { parts: vec![GeminiPart { text: "other".into() }] }) },
    ]));
    match candidate_text(payload) {
        Ok(t) => assert_eq!(t, "first"),
        Err(_) => panic!("expected text"),
    }
}

#[test]
fn candidate_text_missing_pieces_are_bad_response() {
    assert!(matches!(candidate_text(reply_with(None)), Err(LlmError::BadResponse)));
    assert!(matches!(candidate_text(reply_with(Some(vec![]))), Err(LlmError::BadResponse)));
    assert!(matches!(
        candidate_text(reply_with(Some(vec![GeminiCandidate { content: None }]))),
        Err(LlmError::BadResponse)
    ));
    assert!(matches!(
        candidate_text(reply_with(Some(vec![GeminiCandidate { content: Some(GeminiContent { parts: vec![] }) }]))),
        Err(LlmError::BadResponse)
    ));
}

#[test]
fn llm_error_messages() {
    assert_eq!(
        LlmError::QuotaExceeded.message(),
        "Gemini quota exceeded. Your current free-tier allowance for this model has been exhausted. Try again later or switch to a different model."
    );
    assert_eq!(LlmError::BadResponse.message(), "Gemini returned an unexpected response. Try again.");
    assert_eq!(LlmError::InvalidJson.message(), "Could not parse recipe from Gemini. Try again.");
    assert_eq!(LlmError::Network("timed out".into()).message(), "Network error talking to Gemini: timed out");
    assert_eq!(LlmError::Api("HTTP 500".into()).message(), "Gemini error: HTTP 500");
}

#[test]
fn endpoint_url_names_model_and_key() {
    let client = GeminiClient::new(reqwest::Client::new(), "k3y".into(), "gemini-2.0-flash".into());
    assert_eq!(
        client.endpoint_url(),
        "https://generativelanguage.googleapis.com/v1beta/models/gemini-2.0-flash:generateContent?key=k3y"
    );
}

fn one_candidate(text: &str) -> GeminiResponse {
    GeminiResponse {
        candidates: Some(vec![GeminiCandidate {
            content: Some(GeminiContent { parts: vec![GeminiPart { text: text.into() }] }),
        }]),
    }
}

#[test]
fn read_reply_checks_status_before_payload() {
    assert!(matches!(read_reply(429, b"", Some(one_candidate("x"))), Err(LlmError::QuotaExceeded)));
    match read_reply(503, b"down", None) {
        Err(LlmError::Api(m)) => assert_eq!(m, "Gemini error: HTTP 503 Service Unavailable: down"),
        _ => panic!("expected an API error"),
    }
    assert!(matches!(read_reply(200, b"not json", None), Err(LlmError::BadResponse)));
    assert!(matches!(read_reply(200, b"{}", Some(GeminiResponse { candidates: None })), Err(LlmError::BadResponse)));
    match read_reply(200, b"{}", Some(one_candidate("{\"title\":\"x\"}"))) {
        Ok(t) => assert_eq!(t, "{\"title\":\"x\"}"),
        Err(_) => panic!("expected the text"),
    }
}

#[test]
fn unparsed_recipe_is_invalid_json() {
    assert!(matches!(parsed_recipe(None), Err(LlmError::InvalidJson)));
    let recipe = GeneratedRecipe {
        title: "Soup".into(),
        servings: 2,
        prep_minutes: 5,
        cook_minutes: 20,
        ingredients: vec![],
        steps: vec!["Boil".into()],
        pantry_used: vec![],
        shopping_optional: vec![],
    };
    match parsed_recipe(Some(recipe)) {
        Ok(r) => assert_eq!(r.title, "Soup"),
        Err(_) => panic!("expected the recipe"),
    }
}
