//! Reading values that are held as YAML source.

use vstd::prelude::*;

verus! {

/// The string that a YAML source spells, where it spells one.
pub uninterp spec fn yaml_str(source: Seq<char>) -> Option<Seq<char>>;

/// A YAML source as the YAML writer puts it.
pub uninterp spec fn yaml_text(source: Seq<char>) -> Option<Seq<char>>;

/// `serde_yaml::from_str` reads the source as a value and `serde_yaml::Value::as_str` gives its
/// text, looking through tags, where it is a string. Which text comes is a matter of the YAML
/// grammar: the result is named, not spelled out.
#[verifier::external_body]
pub(crate) fn as_str(source: &str) -> (r: Option<String>)
    ensures
        r is Some == yaml_str(source@) is Some,
        r is Some ==> yaml_str(source@) == Some(r->Some_0@),
{
    let value: serde_yaml::Value = serde_yaml::from_str(source).ok()?;
    value.as_str().map(|s| s.to_owned())
}

/// `serde_yaml::from_str` reads the source as a value and `serde_yaml::to_string` writes it. How
/// it is written is a matter of the YAML grammar: the result is named, not spelled out.
#[verifier::external_body]
pub(crate) fn to_text(source: &str) -> (r: Option<String>)
    ensures
        r is Some == yaml_text(source@) is Some,
        r is Some ==> yaml_text(source@) == Some(r->Some_0@),
{
    let value: serde_yaml::Value = serde_yaml::from_str(source).ok()?;
    serde_yaml::to_string(&value).ok()
}

} // verus!
