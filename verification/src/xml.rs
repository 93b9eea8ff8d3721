//! Reading XML answers as JSON, with the `quickxml_to_serde` crate.
use vstd::prelude::*;
use quickxml_to_serde::{xml_string_to_json, Config};

verus! {

/// The JSON text of member `root` of the JSON that `xml_string_to_json` makes of `xml`
/// with the default settings; `None` when the XML is not read or has no such member.
pub uninterp spec fn xml_member_json(xml: Seq<char>, root: Seq<char>) -> Option<Seq<char>>;

/// Converts `xml` with `quickxml_to_serde::xml_string_to_json` and
/// `Config::new_with_defaults`, takes member `root` with `serde_json::Value::get` and writes
/// it as JSON text. The result is named, not stated: the conversion takes pages.
#[verifier::external_body]
fn xml_member_text(xml: String, root: &str) -> (r: Option<String>)
    ensures
        match r {
            Some(t) => xml_member_json(xml@, root@) == Some(t@),
            None => xml_member_json(xml@, root@) is None,
        },
{
    let json = xml_string_to_json(xml, &Config::new_with_defaults()).ok()?;
    json.get(root).map(|v| v.to_string())
}

/// The JSON text of member `root` of the JSON made of `xml`, when it has one.
pub open spec fn member_text(xml: Seq<char>, root: Seq<char>) -> Seq<char> {
    match xml_member_json(xml, root) {
        Some(t) => t,
        None => Seq::empty(),
    }
}

/// The JSON text of the XML answer's member `root`, which the XML must have.
pub fn from_xml(xml: String, root: &str) -> (r: String)
    requires
        xml_member_json(xml@, root@) is Some,
    ensures
        xml_member_json(xml@, root@) == Some(r@),
        r@ == member_text(xml@, root@),
{
    match xml_member_text(xml, root) {
        Some(t) => t,
        None => String::new(),
    }
}

/// The JSON text of the XML answer's `result`, which the XML must have.
pub fn from_xml_default(xml: String) -> (r: String)
    requires
        xml_member_json(xml@, "result"@) is Some,
    ensures
        xml_member_json(xml@, "result"@) == Some(r@),
        r@ == member_text(xml@, "result"@),
{
    from_xml(xml, "result")
}

/// The JSON text of the XML answer's `result`, or `None` when the XML is not read or has
/// no `result`.
pub fn try_from_xml_default(xml: String) -> (r: Option<String>)
    ensures
        match r {
            Some(t) => xml_member_json(xml@, "result"@) == Some(t@),
            None => xml_member_json(xml@, "result"@) is None,
        },
{
    let probe = xml_member_text(xml.clone(), "result");
    match probe {
        Some(_) => Some(from_xml_default(xml)),
        None => None,
    }
}

} // verus!
