//! Reading the latest version out of a package index response.
use vstd::prelude::*;
use vstd::string::*;
use crate::reconcile::IndexError;

verus! {

#[verifier::external_type_specification]
#[verifier::external_body]
pub struct ExJsonValue(serde_json::Value);

#[verifier::external_type_specification]
#[verifier::external_body]
pub struct ExJsonError(serde_json::Error);

/// Whether `serde_json::from_str` reads the text as a JSON value.
pub uninterp spec fn is_json(s: Seq<char>) -> bool;

/// Relies on `serde_json::from_str`: a value exactly when the text is JSON.
#[verifier::external_body]
fn parse_json(body: &str) -> (r: Result<serde_json::Value, serde_json::Error>)
    ensures
        r is Ok <==> is_json(body@),
{
    serde_json::from_str(body)
}

/// The string that `serde_json` finds at `outer.inner` in the text, if any.
pub uninterp spec fn json_str_at(text: Seq<char>, outer: Seq<char>, inner: Seq<char>) -> Option<
    Seq<char>,
>;

/// Relies on `serde_json::from_str`, `Value::get` and `Value::as_str`: the
/// string member `inner` of the object member `outer` of the parsed text.
/// Text that does not parse has none.
#[verifier::external_body]
fn nested_str(body: &str, outer: &str, inner: &str) -> (r: Option<String>)
    ensures
        r is Some <==> json_str_at(body@, outer@, inner@) is Some,
        r is Some ==> r->Some_0@ == json_str_at(body@, outer@, inner@)->Some_0,
        !is_json(body@) ==> r is None,
{
    let v: serde_json::Value = serde_json::from_str(body).ok()?;
    v.get(outer)?.get(inner)?.as_str().map(String::from)
}

/// Relies on the `Display` of `serde_json::Error`: its message.
#[verifier::external_body]
fn json_error_text(e: &serde_json::Error) -> String {
    e.to_string()
}

pub open spec fn info_key() -> Seq<char> {
    seq!['i', 'n', 'f', 'o']
}

pub open spec fn version_key() -> Seq<char> {
    seq!['v', 'e', 'r', 's', 'i', 'o', 'n']
}

/// The `info.version` string of an index response body. A body that is
/// not JSON gives `Parse`; JSON without a string there gives `MissingField`.
pub fn version_from_json(body: &str) -> (r: Result<String, IndexError>)
    ensures
        !is_json(body@) <==> r matches Err(IndexError::Parse(_)),
        is_json(body@) ==> match json_str_at(body@, info_key(), version_key()) {
            Some(s) => r matches Ok(t) && t@ == s,
            None => r == Err::<String, IndexError>(IndexError::MissingField),
        },
{
    match parse_json(body) {
        Err(e) => Err(IndexError::Parse(json_error_text(&e))),
        Ok(_) => {
            proof {
                reveal_strlit("info");
                reveal_strlit("version");
                assert("info"@ =~= info_key());
                assert("version"@ =~= version_key());
            }
            match nested_str(body, "info", "version") {
                Some(text) => Ok(text),
                None => Err(IndexError::MissingField),
            }
        },
    }
}

/// The index address of a package's metadata: `<base>/<name>/json`.
pub fn index_url(base: &str, name: &str) -> (r: String)
    ensures
        r@ == base@ + seq!['/'] + name@ + seq!['/', 'j', 's', 'o', 'n'],
{
    proof { reveal_strlit("/"); reveal_strlit("/json"); }
    let mut s = String::from_str(base);
    s.append("/");
    s.append(name);
    s.append("/json");
    s
}

} // verus!
