//! Reading a link file.
//!
//! A link file is a text in sections of keyed values.  The section `Match`
//! names the device by its hardware address, the section `Link` gives the
//! name.  The text is taken apart by the `ini` crate.

use vstd::prelude::*;
use crate::config::LinkView;

verus! {

/// `ini::Ini`, a text taken apart into sections of keyed values.
#[verifier::external_type_specification]
#[verifier::external_body]
pub struct ExIni(ini::Ini);

/// `ini::ParseError`, the report on a text that could not be taken apart.
#[verifier::external_type_specification]
#[verifier::external_body]
pub struct ExParseError(ini::ParseError);

/// The values of a document as `ini::Ini::get_from` answers for them: under
/// a section's name and a key, the first value of that key in the first
/// section of that name.
pub uninterp spec fn ini_values(doc: ini::Ini) -> Map<(Seq<char>, Seq<char>), Seq<char>>;

/// The values of the document that `ini::Ini::load_from_str` makes of a
/// text, or nothing where it reports an error.
pub uninterp spec fn ini_parsed(text: Seq<char>) -> Option<Map<(Seq<char>, Seq<char>), Seq<char>>>;

/// Calls `ini::Ini::load_from_str`.  Assumed: whether it succeeds and which
/// values the document then has depends on the text alone.
#[verifier::external_body]
fn ini_load(text: &str) -> (r: Result<ini::Ini, ini::ParseError>)
    ensures
        match r {
            Ok(doc) => ini_parsed(text@) == Some(ini_values(doc)),
            Err(_) => ini_parsed(text@) is None,
        },
{
    ini::Ini::load_from_str(text)
}

/// Calls `ini::Ini::get_from` with a named section.  Assumed: the answer is
/// the value that the document has under that section and key, if any.
#[verifier::external_body]
fn ini_get(doc: &ini::Ini, section: &str, key: &str) -> (r: Option<String>)
    ensures
        match r {
            Some(value) => ini_values(*doc).contains_key((section@, key@)) && ini_values(
                *doc,
            )[(section@, key@)] == value@,
            None => !ini_values(*doc).contains_key((section@, key@)),
        },
{
    match doc.get_from(Some(section), key) {
        Some(value) => Some(value.to_owned()),
        None => None,
    }
}

/// Section that gives the name.
pub const LINK_SECTION: &'static str = "Link";

/// Key of the name.
pub const NAME_KEY: &'static str = "Name";

/// Section that names the device.
pub const MATCH_SECTION: &'static str = "Match";

/// Key of the hardware address.
pub const HWADDR_KEY: &'static str = "MACAddress";

/// The link that `values` describe, as written: the name and the hardware
/// address, where both are there.
pub open spec fn link_in(values: Map<(Seq<char>, Seq<char>), Seq<char>>) -> Option<LinkView> {
    if values.contains_key((LINK_SECTION@, NAME_KEY@)) && values.contains_key(
        (MATCH_SECTION@, HWADDR_KEY@),
    ) {
        Some(
            LinkView {
                name: values[(LINK_SECTION@, NAME_KEY@)],
                hwaddr: values[(MATCH_SECTION@, HWADDR_KEY@)],
            },
        )
    } else {
        None
    }
}

/// The link that a link file describes, as written.  A text that cannot be
/// taken apart describes none.
pub open spec fn link_file_link(text: Seq<char>) -> Option<LinkView> {
    match ini_parsed(text) {
        Some(values) => link_in(values),
        None => None,
    }
}

/// Reads a link file: the name and the hardware address as they are
/// written in it, or nothing where the text is no link file.
pub fn read_link_file(text: &str) -> (r: Option<(String, String)>)
    ensures
        match r {
            Some((name, hwaddr)) => link_file_link(text@) == Some(
                LinkView { name: name@, hwaddr: hwaddr@ },
            ),
            None => link_file_link(text@) is None,
        },
{
    let doc = match ini_load(text) {
        Ok(doc) => doc,
        Err(_) => {
            return None;
        },
    };
    let name = match ini_get(&doc, LINK_SECTION, NAME_KEY) {
        Some(name) => name,
        None => {
            return None;
        },
    };
    match ini_get(&doc, MATCH_SECTION, HWADDR_KEY) {
        Some(hwaddr) => Some((name, hwaddr)),
        None => None,
    }
}

} // verus!
