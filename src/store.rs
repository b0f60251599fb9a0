use vstd::prelude::*;
use crate::vault::pairs_view;

verus! {

/// Service name under which every credential-store entry is kept.
pub const KEYRING_SERVICE: &'static str = "world-monitor";

/// Name of the consolidated vault entry.
pub const VAULT_ENTRY: &'static str = "secrets-vault";

/// An entry of the platform credential store (keyring).
#[verifier::external_type_specification]
#[verifier::external_body]
pub struct ExEntry(keyring::Entry);

/// A failure reported by the credential store (keyring).
#[verifier::external_type_specification]
#[verifier::external_body]
pub struct ExKeyringError(keyring::Error);

/// Relies on keyring's `Entry::new`: builds a handle for (service, user);
/// what it returns depends on the platform store, so nothing is promised.
pub assume_specification[ keyring::Entry::new ](service: &str, user: &str) -> Result<
    keyring::Entry,
    keyring::Error,
>;

/// Relies on keyring's `Entry::get_password`: reads the stored password;
/// what it returns depends on the store's contents.
pub assume_specification[ keyring::Entry::get_password ](entry: &keyring::Entry) -> Result<
    String,
    keyring::Error,
>;

/// Relies on keyring's `Entry::set_password`: writes the password; it may fail.
pub assume_specification[ keyring::Entry::set_password ](
    entry: &keyring::Entry,
    password: &str,
) -> Result<(), keyring::Error>;

/// Relies on keyring's `Entry::delete_credential`: removes the entry; it may fail.
pub assume_specification[ keyring::Entry::delete_credential ](entry: &keyring::Entry) -> Result<
    (),
    keyring::Error,
>;

/// Relies on the `Display` impl of `keyring::Error` for a readable message.
#[verifier::external_body]
pub(crate) fn describe_keyring_error(e: &keyring::Error) -> String {
    format!("{e}")
}

/// The JSON text of an object holding the given `(name, value)` pairs.
pub uninterp spec fn vault_json(entries: Seq<(Seq<char>, Seq<char>)>) -> Seq<char>;

/// The pairs of a JSON object whose values are all strings, in name order;
/// absent when the text is no such object.
pub uninterp spec fn parsed_vault(json: Seq<char>) -> Option<Seq<(Seq<char>, Seq<char>)>>;

/// Relies on serde_json: `Value::Object(..).to_string()` writes the pairs as
/// one JSON object; the text depends on the pairs alone.
#[verifier::external_body]
pub(crate) fn encode_vault(entries: &Vec<(String, String)>) -> (r: String)
    ensures
        r@ == vault_json(pairs_view(entries@)),
{
    let map: serde_json::Map<String, serde_json::Value> = entries.iter().map(
        |(k, v)| (k.clone(), serde_json::Value::String(v.clone())),
    ).collect();
    serde_json::Value::Object(map).to_string()
}

/// Relies on `serde_json::from_str` into a `BTreeMap<String, String>`: it
/// accepts exactly the JSON objects whose values are all strings, and yields
/// their pairs in name order; the result depends on the text alone.
#[verifier::external_body]
pub(crate) fn decode_vault(json: &str) -> (r: Option<Vec<(String, String)>>)
    ensures
        match r {
            Some(v) => parsed_vault(json@) == Some(pairs_view(v@)),
            None => parsed_vault(json@) is None,
        },
{
    serde_json::from_str::<std::collections::BTreeMap<String, String>>(json).ok().map(
        |m| m.into_iter().collect(),
    )
}

} // verus!
