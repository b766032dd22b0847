//! The pantry handlers' decisions: which item name to store or delete, and
//! what an insert's outcome means for the reply.
use vstd::prelude::*;
use crate::text::{trim, trim_str};
use crate::auth::InsertOutcome;
use crate::error::AppError;

verus! {

/// The pantry page, where every pantry handler returns.
pub open spec fn pantry_page_location() -> Seq<char> {
    "/pantry"@
}

/// The pantry page, where every pantry handler returns.
pub fn pantry_page() -> (r: String)
    ensures
        r@ == pantry_page_location(),
{
    "/pantry".to_string()
}

/// The name of a pantry item as the form gave it: trimmed, and only when not blank.
pub fn pantry_item_name(raw: &str) -> (r: Option<String>)
    ensures
        match r {
            Some(n) => trim(raw@).len() > 0 && n@ == trim(raw@),
            None => trim(raw@).len() == 0,
        },
{
    let name = trim_str(raw);
    if name.as_str().is_empty() {
        None
    } else {
        Some(name)
    }
}

/// The name whose item a delete removes: the form's text, trimmed.
pub fn deleted_item_name(raw: &str) -> (r: String)
    ensures
        r@ == trim(raw@),
{
    trim_str(raw)
}

/// What adding an item means once the insert has run: adding an item that is
/// already there is no error.
pub fn pantry_insert_result(outcome: InsertOutcome) -> (r: Result<(), AppError>)
    ensures
        match outcome {
            InsertOutcome::Failed(d) => r == Err::<(), AppError>(AppError::Sqlx(d)),
            _ => r is Ok,
        },
{
    match outcome {
        InsertOutcome::Inserted(_) => Ok(()),
        InsertOutcome::UniqueViolation => Ok(()),
        InsertOutcome::Failed(d) => Err(AppError::Sqlx(d)),
    }
}

/// The name an added item is stored under, sent back by the delete form,
/// names the same item: trimming the stored name changes nothing.
pub proof fn lemma_stored_name_deletes_item(raw: Seq<char>)
    requires
        trim(raw).len() > 0,
    ensures
        trim(trim(raw)) == trim(raw),
{
    crate::text::lemma_trim_idempotent(raw);
}

} // verus!
