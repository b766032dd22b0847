//! The Gemini client: the prompts it sends, the request body, and how it reads
//! the HTTP reply. Sending and JSON (de)serialisation happen at the edge.
use vstd::prelude::*;
use vstd::utf8::{valid_utf8, decode_utf8};
use crate::text::{trim, trim_str};
use crate::decimal::{decimal, format_u64};

verus! {

/// Why a recipe could not be generated.
#[derive(Debug)]
pub enum LlmError {
    QuotaExceeded,
    BadResponse,
    InvalidJson,
    /// The transport failed; holds the transport's description of the failure.
    Network(String),
    Api(String),
}

/// The text shown for each error.
pub open spec fn llm_error_message(e: LlmError) -> Seq<char> {
    match e {
        LlmError::QuotaExceeded => "Gemini quota exceeded. Your current free-tier allowance for this model has been exhausted. Try again later or switch to a different model."@,
        LlmError::BadResponse => "Gemini returned an unexpected response. Try again."@,
        LlmError::InvalidJson => "Could not parse recipe from Gemini. Try again."@,
        LlmError::Network(d) => "Network error talking to Gemini: "@ + d@,
        LlmError::Api(m) => "Gemini error: "@ + m@,
    }
}

impl LlmError {
    /// The text shown for this error.
    pub fn message(&self) -> (r: String)
        ensures
            r@ == llm_error_message(*self),
    {
        match self {
            LlmError::QuotaExceeded => "Gemini quota exceeded. Your current free-tier allowance for this model has been exhausted. Try again later or switch to a different model.".to_string(),
            LlmError::BadResponse => "Gemini returned an unexpected response. Try again.".to_string(),
            LlmError::InvalidJson => "Could not parse recipe from Gemini. Try again.".to_string(),
            LlmError::Network(d) => {
                let mut r = "Network error talking to Gemini: ".to_string();
                r.append(d.as_str());
                r
            },
            LlmError::Api(m) => {
                let mut r = "Gemini error: ".to_string();
                r.append(m.as_str());
                r
            },
        }
    }
}

/// One ingredient line of a generated recipe.
#[derive(Debug)]
pub struct RecipeIngredient {
    pub item: String,
    pub amount: String,
}

/// A recipe as the model returns it.
#[derive(Debug)]
pub struct GeneratedRecipe {
    pub title: String,
    pub servings: u32,
    pub prep_minutes: u32,
    pub cook_minutes: u32,
    pub ingredients: Vec<RecipeIngredient>,
    pub steps: Vec<String>,
    pub pantry_used: Vec<String>,
    pub shopping_optional: Vec<String>,
}

/// One piece of text in a Gemini message.
#[derive(Debug)]
pub struct GeminiPart {
    pub text: String,
}

/// A Gemini message: a list of parts.
#[derive(Debug)]
pub struct GeminiContent {
    pub parts: Vec<GeminiPart>,
}

/// Asks Gemini to answer with a given MIME type.
#[derive(Debug)]
pub struct GenerationConfig {
    pub response_mime_type: String,
}

/// The body of a `generateContent` call.
#[derive(Debug)]
pub struct GeminiRequest {
    pub system_instruction: Option<GeminiContent>,
    pub contents: Vec<GeminiContent>,
    pub generation_config: GenerationConfig,
}

/// One answer in a Gemini reply.
#[derive(Debug)]
pub struct GeminiCandidate {
    pub content: Option<GeminiContent>,
}

/// A Gemini reply.
#[derive(Debug)]
pub struct GeminiResponse {
    pub candidates: Option<Vec<GeminiCandidate>>,
}

/// The schema the model's JSON answer must follow.
pub open spec fn recipe_schema_text() -> Seq<char> {
    "{\n  \"title\": \"string\",\n  \"servings\": number,\n  \"prep_minutes\": number,\n  \"cook_minutes\": number,\n  \"ingredients\": [{\"item\": \"string\", \"amount\": \"string\"}],\n  \"steps\": [\"string\"],\n  \"pantry_used\": [\"string\"],\n  \"shopping_optional\": [\"string\"]\n}"@
}

/// The schema the model's JSON answer must follow.
pub fn recipe_schema() -> (r: &'static str)
    ensures
        r@ == recipe_schema_text(),
{
    "{\n  \"title\": \"string\",\n  \"servings\": number,\n  \"prep_minutes\": number,\n  \"cook_minutes\": number,\n  \"ingredients\": [{\"item\": \"string\", \"amount\": \"string\"}],\n  \"steps\": [\"string\"],\n  \"pantry_used\": [\"string\"],\n  \"shopping_optional\": [\"string\"]\n}"
}

/// The JSON keys of a `GeneratedRecipe`, in the order its fields are declared.
pub open spec fn recipe_field_names() -> Seq<Seq<char>> {
    seq!["title"@, "servings"@, "prep_minutes"@, "cook_minutes"@, "ingredients"@, "steps"@,
        "pantry_used"@, "shopping_optional"@]
}

/// The JSON keys of a `RecipeIngredient`.
pub open spec fn ingredient_field_names() -> Seq<Seq<char>> {
    seq!["item"@, "amount"@]
}

/// `key` written as a JSON object key: in quotes, followed by a colon.
pub open spec fn json_key(key: Seq<char>) -> Seq<char> {
    seq!['"'] + key + seq!['"', ':']
}

/// `text` holds `key` as a JSON object key somewhere.
pub open spec fn names_key(text: Seq<char>, key: Seq<char>) -> bool {
    exists|i: int| 0 <= i && i + key.len() + 3 <= text.len()
        && #[trigger] text.subrange(i, i + key.len() + 3) == json_key(key)
}

/// The schema sent to the model asks for every field a `GeneratedRecipe` and a
/// `RecipeIngredient` are read from, so that an answer in the schema parses.
pub proof fn lemma_schema_names_recipe_fields()
    ensures
        forall|j: int| 0 <= j < recipe_field_names().len()
            ==> names_key(recipe_schema_text(), #[trigger] recipe_field_names()[j]),
        forall|j: int| 0 <= j < ingredient_field_names().len()
            ==> names_key(recipe_schema_text(), #[trigger] ingredient_field_names()[j]),
{
    reveal_strlit("{\n  \"title\": \"string\",\n  \"servings\": number,\n  \"prep_minutes\": number,\n  \"cook_minutes\": number,\n  \"ingredients\": [{\"item\": \"string\", \"amount\": \"string\"}],\n  \"steps\": [\"string\"],\n  \"pantry_used\": [\"string\"],\n  \"shopping_optional\": [\"string\"]\n}");
    let t = recipe_schema_text();
    reveal_strlit("title");
    assert(names_key(t, "title"@)) by {
        assert(t.subrange(4int, 4int + "title"@.len() + 3) =~= json_key("title"@));
    }
    reveal_strlit("servings");
    assert(names_key(t, "servings"@)) by {
        assert(t.subrange(25int, 25int + "servings"@.len() + 3) =~= json_key("servings"@));
    }
    reveal_strlit("prep_minutes");
    assert(names_key(t, "prep_minutes"@)) by {
        assert(t.subrange(47int, 47int + "prep_minutes"@.len() + 3) =~= json_key("prep_minutes"@));
    }
    reveal_strlit("cook_minutes");
    assert(names_key(t, "cook_minutes"@)) by {
        assert(t.subrange(73int, 73int + "cook_minutes"@.len() + 3) =~= json_key("cook_minutes"@));
    }
    reveal_strlit("ingredients");
    assert(names_key(t, "ingredients"@)) by {
        assert(t.subrange(99int, 99int + "ingredients"@.len() + 3) =~= json_key("ingredients"@));
    }
    reveal_strlit("steps");
    assert(names_key(t, "steps"@)) by {
        assert(t.subrange(158int, 158int + "steps"@.len() + 3) =~= json_key("steps"@));
    }
    reveal_strlit("pantry_used");
    assert(names_key(t, "pantry_used"@)) by {
        assert(t.subrange(181int, 181int + "pantry_used"@.len() + 3) =~= json_key("pantry_used"@));
    }
    reveal_strlit("shopping_optional");
    assert(names_key(t, "shopping_optional"@)) by {
        assert(t.subrange(210int, 210int + "shopping_optional"@.len() + 3) =~= json_key("shopping_optional"@));
    }
    reveal_strlit("item");
    assert(names_key(t, "item"@)) by {
        assert(t.subrange(116int, 116int + "item"@.len() + 3) =~= json_key("item"@));
    }
    reveal_strlit("amount");
    assert(names_key(t, "amount"@)) by {
        assert(t.subrange(134int, 134int + "amount"@.len() + 3) =~= json_key("amount"@));
    }
    assert forall|j: int| 0 <= j < recipe_field_names().len() implies names_key(t, #[trigger] recipe_field_names()[j]) by {
        if j == 0 {
            assert(recipe_field_names()[j] == "title"@);
        } else if j == 1 {
            assert(recipe_field_names()[j] == "servings"@);
        } else if j == 2 {
            assert(recipe_field_names()[j] == "prep_minutes"@);
        } else if j == 3 {
            assert(recipe_field_names()[j] == "cook_minutes"@);
        } else if j == 4 {
            assert(recipe_field_names()[j] == "ingredients"@);
        } else if j == 5 {
            assert(recipe_field_names()[j] == "steps"@);
        } else if j == 6 {
            assert(recipe_field_names()[j] == "pantry_used"@);
        } else if j == 7 {
            assert(recipe_field_names()[j] == "shopping_optional"@);
        }
    }
    assert forall|j: int| 0 <= j < ingredient_field_names().len() implies names_key(t, #[trigger] ingredient_field_names()[j]) by {
        if j == 0 {
            assert(ingredient_field_names()[j] == "item"@);
        } else if j == 1 {
            assert(ingredient_field_names()[j] == "amount"@);
        }
    }
}

/// The system instruction: five sentences joined by single spaces.
pub open spec fn system_prompt_text() -> Seq<char> {
    "You are a helpful home cook assistant."@ + " "@
        + "Create practical recipes using the user's pantry staples when possible."@ + " "@
        + "Only suggest extra shopping items when truly necessary."@ + " "@
        + "Respect the meal type, must-use ingredients, and any notes."@ + " "@
        + "Respond with valid JSON only, matching the requested schema."@
}

/// The system instruction sent with every request.
pub fn system_prompt() -> (r: String)
    ensures
        r@ == system_prompt_text(),
{
    let mut r = "You are a helpful home cook assistant.".to_string();
    r.append(" ");
    r.append("Create practical recipes using the user's pantry staples when possible.");
    r.append(" ");
    r.append("Only suggest extra shopping items when truly necessary.");
    r.append(" ");
    r.append("Respect the meal type, must-use ingredients, and any notes.");
    r.append(" ");
    r.append("Respond with valid JSON only, matching the requested schema.");
    r
}

/// The user message around the request's pretty-printed JSON.
pub open spec fn user_prompt_text(context_json: Seq<char>) -> Seq<char> {
    "Create a recipe with this context:\n"@ + context_json + "\n\nReturn JSON with this schema:\n"@
        + recipe_schema_text()
}

/// The user message: the request, as pretty-printed JSON, and the answer schema.
pub fn user_prompt(context_json: &str) -> (r: String)
    ensures
        r@ == user_prompt_text(context_json@),
{
    let mut r = "Create a recipe with this context:\n".to_string();
    r.append(context_json);
    r.append("\n\nReturn JSON with this schema:\n");
    r.append(recipe_schema());
    r
}

/// A message holding the one text `t`.
pub open spec fn single_part(c: GeminiContent, t: Seq<char>) -> bool {
    c.parts@.len() == 1 && c.parts@[0].text@ == t
}

fn content_of(text: String) -> (c: GeminiContent)
    ensures
        single_part(c, text@),
{
    let mut parts: Vec<GeminiPart> = Vec::new();
    parts.push(GeminiPart { text });
    GeminiContent { parts }
}

/// The body of the `generateContent` call for a request whose JSON is `context_json`.
pub fn request_body(context_json: &str) -> (r: GeminiRequest)
    ensures
        r.system_instruction matches Some(c) && single_part(c, system_prompt_text()),
        r.contents@.len() == 1,
        single_part(r.contents@[0], user_prompt_text(context_json@)),
        r.generation_config.response_mime_type@ == "application/json"@,
{
    let mut contents: Vec<GeminiContent> = Vec::new();
    contents.push(content_of(user_prompt(context_json)));
    GeminiRequest {
        system_instruction: Some(content_of(system_prompt())),
        contents,
        generation_config: GenerationConfig { response_mime_type: "application/json".to_string() },
    }
}

/// The reason phrase that the `http` crate's `StatusCode::canonical_reason` gives for a code.
pub uninterp spec fn canonical_reason(code: u16) -> Option<Seq<char>>;

/// The canonical reason phrase of a status code, through `http::StatusCode`
/// (`StatusCode::from_u16`, then `canonical_reason`). Claims only that the
/// phrase is a function of the code; `None` for codes `from_u16` refuses.
#[verifier::external_body]
fn status_reason(code: u16) -> (r: Option<&'static str>)
    ensures
        match r {
            Some(s) => canonical_reason(code) == Some(s@),
            None => canonical_reason(code) is None,
        },
{
    match reqwest::StatusCode::from_u16(code) {
        Ok(status) => status.canonical_reason(),
        Err(_) => None,
    }
}

/// How `http::StatusCode` displays a code: the number, a space, the reason phrase.
pub open spec fn status_text(code: u16) -> Seq<char> {
    decimal(code as nat) + " "@ + match canonical_reason(code) {
        Some(r) => r,
        None => "<unknown status code>"@,
    }
}

/// The status line followed by the trimmed body, when there is one.
pub open spec fn describe_response_text(code: u16, body: Seq<char>) -> Seq<char> {
    if trim(body).len() == 0 {
        "HTTP "@ + status_text(code)
    } else {
        "HTTP "@ + status_text(code) + ": "@ + trim(body)
    }
}

/// Describes a failed HTTP reply: status code, reason phrase and trimmed body.
pub fn describe_response(status: u16, body: &str) -> (r: String)
    ensures
        r@ == describe_response_text(status, body@),
{
    let trimmed = trim_str(body);
    let mut r = "HTTP ".to_string();
    let number = format_u64(status as u64);
    r.append(number.as_str());
    r.append(" ");
    match status_reason(status) {
        Some(reason) => r.append(reason),
        None => r.append("<unknown status code>"),
    }
    if trimmed.as_str().is_empty() == false {
        r.append(": ");
        r.append(trimmed.as_str());
    }
    r
}

/// A described reply names its status code, and quotes its trimmed body.
pub proof fn lemma_describe_response_mentions_status_and_body(code: u16, body: Seq<char>)
    ensures
        describe_response_text(code, body).subrange(5, 5 + decimal(code as nat).len() as int)
            == decimal(code as nat),
        trim(body).is_suffix_of(describe_response_text(code, body)),
{
    reveal_strlit("HTTP ");
    let t = describe_response_text(code, body);
    let d = decimal(code as nat);
    assert(t.subrange(5, 5 + d.len() as int) =~= d);
    if trim(body).len() > 0 {
        assert(t.subrange(t.len() - trim(body).len(), t.len() as int) =~= trim(body));
    } else {
        assert(t.subrange(t.len() as int, t.len() as int) =~= trim(body));
    }
}

/// What `String::from_utf8_lossy` makes of some bytes.
pub uninterp spec fn utf8_lossy(bytes: Seq<u8>) -> Seq<char>;

/// `String::from_utf8_lossy`: the text of the bytes, invalid sequences replaced.
/// Valid UTF-8 comes back unchanged, as std documents; what replaces an
/// invalid sequence is left to the name.
#[verifier::external_body]
fn text_of_bytes(bytes: &[u8]) -> (r: String)
    ensures
        r@ == utf8_lossy(bytes@),
        valid_utf8(bytes@) ==> r@ == decode_utf8(bytes@),
{
    String::from_utf8_lossy(bytes).into_owned()
}

/// The status codes that `StatusCode::is_success` accepts.
pub open spec fn is_success(code: u16) -> bool {
    200 <= code < 300
}

/// What a reply's status says: too many requests, another failure, or go on.
pub open spec fn status_verdict(status: u16, body: Seq<u8>, r: Result<(), LlmError>) -> bool {
    if status == 429 {
        r matches Err(LlmError::QuotaExceeded)
    } else if !is_success(status) {
        r matches Err(LlmError::Api(m))
            && m@ == "Gemini error: "@ + describe_response_text(status, utf8_lossy(body))
    } else {
        r is Ok
    }
}

/// Reads the status of a Gemini reply: 429 is an exhausted quota, any other
/// status outside 200..300 an API error that quotes the reply.
pub fn check_status(status: u16, body: &[u8]) -> (r: Result<(), LlmError>)
    ensures
        status_verdict(status, body@, r),
{
    let text = text_of_bytes(body);
    if status == 429 {
        return Err(LlmError::QuotaExceeded);
    }
    if !(200 <= status && status < 300) {
        let mut m = "Gemini error: ".to_string();
        let d = describe_response(status, text.as_str());
        m.append(d.as_str());
        return Err(LlmError::Api(m));
    }
    Ok(())
}

/// The text of the first part of the first candidate, if the reply has one.
pub open spec fn first_candidate_text(payload: GeminiResponse) -> Option<Seq<char>> {
    match payload.candidates {
        Some(cs) => if cs@.len() > 0 {
            match cs@[0].content {
                Some(c) => if c.parts@.len() > 0 { Some(c.parts@[0].text@) } else { None },
                None => None,
            }
        } else {
            None
        },
        None => None,
    }
}

/// The recipe text in a Gemini reply: the first part of the first candidate.
pub fn candidate_text(payload: GeminiResponse) -> (r: Result<String, LlmError>)
    ensures
        match first_candidate_text(payload) {
            Some(t) => r matches Ok(s) && s@ == t,
            None => r matches Err(LlmError::BadResponse),
        },
{
    match payload.candidates {
        Some(mut cs) => {
            if cs.len() == 0 {
                return Err(LlmError::BadResponse);
            }
            let first = cs.remove(0);
            match first.content {
                Some(mut c) => {
                    if c.parts.len() == 0 {
                        return Err(LlmError::BadResponse);
                    }
                    let p = c.parts.remove(0);
                    Ok(p.text)
                },
                None => Err(LlmError::BadResponse),
            }
        },
        None => Err(LlmError::BadResponse),
    }
}

/// What a Gemini reply comes to, read in order: the status first; then the
/// payload, `None` when it was not valid JSON of a reply; then the text of its
/// first candidate.
pub open spec fn reply_outcome(
    status: u16,
    body: Seq<u8>,
    payload: Option<GeminiResponse>,
    r: Result<String, LlmError>,
) -> bool {
    if status == 429 || !is_success(status) {
        status_verdict(status, body, match r {
            Ok(_) => Ok(()),
            Err(e) => Err(e),
        })
    } else {
        match payload {
            None => r matches Err(LlmError::BadResponse),
            Some(p) => match first_candidate_text(p) {
                Some(t) => r matches Ok(s) && s@ == t,
                None => r matches Err(LlmError::BadResponse),
            },
        }
    }
}

/// Reads a Gemini reply: its status, then its parsed payload, then the recipe text.
pub fn read_reply(status: u16, body: &[u8], payload: Option<GeminiResponse>) -> (r: Result<String, LlmError>)
    ensures
        reply_outcome(status, body@, payload, r),
{
    match check_status(status, body) {
        Err(e) => Err(e),
        Ok(()) => match payload {
            None => Err(LlmError::BadResponse),
            Some(p) => candidate_text(p),
        },
    }
}

/// The recipe the model's text parsed into; `None` (the text was not a recipe
/// in the schema's JSON) is `InvalidJson`.
pub fn parsed_recipe(parsed: Option<GeneratedRecipe>) -> (r: Result<GeneratedRecipe, LlmError>)
    ensures
        match parsed {
            Some(x) => r == Ok::<GeneratedRecipe, LlmError>(x),
            None => r matches Err(LlmError::InvalidJson),
        },
{
    match parsed {
        Some(x) => Ok(x),
        None => Err(LlmError::InvalidJson),
    }
}

#[verifier::external_type_specification]
#[verifier::external_body]
pub struct ExClient(reqwest::Client);

/// A client for Gemini's `generateContent` endpoint.
pub struct GeminiClient {
    http: reqwest::Client,
    api_key: String,
    model: String,
}

/// The endpoint for a model, with the API key as query parameter.
pub open spec fn endpoint_url_text(model: Seq<char>, api_key: Seq<char>) -> Seq<char> {
    "https://generativelanguage.googleapis.com/v1beta/models/"@ + model + ":generateContent?key="@
        + api_key
}

/// The endpoint asks the client's own model with the client's own key: the URL
/// is the fixed prefix ending in `/models/`, then the model, then
/// `:generateContent?key=`, then the key; so clients with the same key and
/// different models call different URLs.
pub proof fn lemma_endpoint_url_names_model(model: Seq<char>, key: Seq<char>, other_model: Seq<char>)
    ensures
        ({
            let u = endpoint_url_text(model, key);
            let p = "https://generativelanguage.googleapis.com/v1beta/models/"@;
            let q = ":generateContent?key="@;
            &&& p.is_prefix_of(u)
            &&& u.subrange(p.len() as int, (p.len() + model.len()) as int) == model
            &&& u.subrange(((p.len() + model.len()) as int) as int, (p.len() + model.len() + q.len()) as int) == q
            &&& key.is_suffix_of(u)
            &&& other_model != model ==> endpoint_url_text(other_model, key) != u
        }),
{
    let u = endpoint_url_text(model, key);
    let p = "https://generativelanguage.googleapis.com/v1beta/models/"@;
    let q = ":generateContent?key="@;
    assert(u.subrange(0, p.len() as int) =~= p);
    assert(u.subrange(p.len() as int, (p.len() + model.len()) as int) =~= model);
    assert(u.subrange(((p.len() + model.len()) as int) as int, (p.len() + model.len() + q.len()) as int) =~= q);
    assert(u.subrange(u.len() - key.len(), u.len() as int) =~= key);
    if other_model != model {
        let v = endpoint_url_text(other_model, key);
        if v == u {
            assert(other_model.len() == model.len());
            assert(v.subrange(p.len() as int, (p.len() + other_model.len()) as int) =~= other_model);
            assert(other_model =~= model);
        }
    }
}

impl GeminiClient {
    /// The API key this client sends.
    pub closed spec fn key(&self) -> Seq<char> {
        self.api_key@
    }

    /// The model this client asks.
    pub closed spec fn model_name(&self) -> Seq<char> {
        self.model@
    }

    /// The HTTP client this client sends through.
    pub closed spec fn transport(&self) -> reqwest::Client {
        self.http
    }

    /// A client that sends through `http` with the given key and model.
    pub fn new(http: reqwest::Client, api_key: String, model: String) -> (r: Self)
        ensures
            r.transport() == http,
            r.key() == api_key@,
            r.model_name() == model@,
    {
        GeminiClient { http, api_key, model }
    }

    /// The HTTP client to send through.
    pub fn http(&self) -> (r: &reqwest::Client)
        ensures
            *r == self.transport(),
    {
        &self.http
    }

    /// The URL of the `generateContent` call for this client's model and key.
    pub fn endpoint_url(&self) -> (r: String)
        ensures
            r@ == endpoint_url_text(self.model_name(), self.key()),
    {
        let mut r = "https://generativelanguage.googleapis.com/v1beta/models/".to_string();
        r.append(self.model.as_str());
        r.append(":generateContent?key=");
        r.append(self.api_key.as_str());
        r
    }
}

} // verus!
