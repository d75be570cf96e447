//! What loaders read and change in a raw configuration.

use vstd::prelude::*;

use crate::loaders::LoaderError;
use crate::text::same_text;

verus! {

/// The text at a JSON pointer, by `serde_json::from_str`, `Value::pointer` and
/// `Value::as_str` in turn: nothing where the document does not parse, has no such
/// place, or holds no text there.
pub uninterp spec fn json_text_at(document: Seq<char>, pointer: Seq<char>) -> Option<Seq<char>>;

/// `serde_json::from_str` into a `serde_json::Value`, then `Value::pointer` and
/// `Value::as_str`. The claim is that the outcome depends on the document and
/// the pointer alone; the grammar of JSON is left to the `serde_json` crate.
#[verifier::external_body]
fn find_json_text(document: &str, pointer: &str) -> (r: Option<String>)
    ensures
        match r {
            Some(s) => json_text_at(document@, pointer@) == Some(s@),
            None => json_text_at(document@, pointer@) is None,
        },
{
    let value: serde_json::Value = serde_json::from_str(document).ok()?;
    value.pointer(pointer).and_then(serde_json::Value::as_str).map(str::to_owned)
}

/// Whether a Gemma 4 model can extend its cache token by token, given what its
/// configuration says of bidirectional attention: only attention in both
/// directions everywhere rules it out.
pub fn incremental_cache(bidirectional: Option<String>) -> (r: bool)
    ensures
        r == !(bidirectional matches Some(s) && s@ == "all"@),
{
    match bidirectional {
        Some(s) => !same_text(s.as_str(), "all"),
        None => true,
    }
}

/// Whether a Gemma 4 model can extend its cache token by token.
pub fn supports_gemma4_incremental_cache(config: &str) -> (r: bool)
    ensures
        r == (json_text_at(config@, "/text_config/use_bidirectional_attention"@) != Some("all"@)),
{
    incremental_cache(find_json_text(config, "/text_config/use_bidirectional_attention"))
}

/// A document with a number set in one of its tables, by `serde_json::from_str`,
/// `Value::get_mut`, `Value::as_object_mut`, `Map::insert` and
/// `serde_json::to_string` in turn: an error where the document does not parse,
/// nothing where it has no such table.
pub uninterp spec fn json_with_number(
    document: Seq<char>,
    table: Seq<char>,
    key: Seq<char>,
    n: usize,
) -> Result<Option<Seq<char>>, Seq<char>>;

/// The characters of a changed document.
pub open spec fn document_text(r: Result<Option<String>, String>) -> Result<
    Option<Seq<char>>,
    Seq<char>,
> {
    match r {
        Ok(Some(s)) => Ok(Some(s@)),
        Ok(None) => Ok(None),
        Err(e) => Err(e@),
    }
}

/// `serde_json::from_str` into a `serde_json::Value`, `Value::get_mut` and
/// `Value::as_object_mut` for the table, `Map::insert` of `Value::from` the
/// number, and `serde_json::to_string`. The claim is that the outcome depends on
/// the arguments alone.
#[verifier::external_body]
pub(crate) fn set_json_number(document: &str, table: &str, key: &str, n: usize) -> (r: Result<
    Option<String>,
    String,
>)
    ensures
        document_text(r) == json_with_number(document@, table@, key@, n),
{
    let parsed: Result<serde_json::Value, serde_json::Error> = serde_json::from_str(document);
    let mut value: serde_json::Value = parsed.map_err(|e| e.to_string())?;
    match value.get_mut(table).and_then(serde_json::Value::as_object_mut) {
        Some(entries) => {
            entries.insert(key.to_owned(), serde_json::Value::from(n));
        },
        None => {
            return Ok(None);
        },
    }
    serde_json::to_string(&value).map(Some).map_err(|e| e.to_string())
}

/// What a loader answers for a changed document.
pub open spec fn limited_result(
    r: Result<String, LoaderError>,
    changed: Result<Option<Seq<char>>, Seq<char>>,
) -> bool {
    match changed {
        Ok(Some(s)) => r matches Ok(t) && t@ == s,
        Ok(None) => r == Err::<String, LoaderError>(LoaderError::MissingTextConfig),
        Err(e) => r matches Err(LoaderError::Config(m)) && m@ == e,
    }
}

/// What a loader answers for a changed document.
pub fn limited_config(changed: Result<Option<String>, String>) -> (r: Result<String, LoaderError>)
    ensures
        limited_result(r, document_text(changed)),
{
    match changed {
        Ok(Some(s)) => Ok(s),
        Ok(None) => Err(LoaderError::MissingTextConfig),
        Err(e) => Err(LoaderError::Config(e)),
    }
}

} // verus!
