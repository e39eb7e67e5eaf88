//! The library's model of a parsed flat key/value document, and the trusted
//! boundary to the ini crate.

use vstd::prelude::*;

verus! {

/// One section: its name (`None` for the general section before any header)
/// and its properties in document order.
#[derive(Debug)]
pub struct IniSection {
    pub name: Option<String>,
    pub props: Vec<(String, String)>,
}

/// What the ini crate's parser makes of a piece of text: the sections in
/// document order, or nothing where parsing fails. The outcome is a function
/// of the text alone.
pub uninterp spec fn ini_sections_of(text: Seq<char>) -> Option<Seq<IniSection>>;

/// Relies on ini::Ini::load_from_str and the section/property iterators:
/// parses the text and hands the sections over in document order, each with
/// its properties in document order.
#[verifier::external_body]
pub fn load_ini_sections(text: &str) -> (r: Result<Vec<IniSection>, String>)
    ensures
        match r {
            Ok(secs) => ini_sections_of(text@) == Some(secs@),
            Err(_) => ini_sections_of(text@) is None,
        },
{
    match ini::Ini::load_from_str(text) {
        Ok(doc) => Ok(
            doc.iter().map(
                |(sec, props)| IniSection {
                    name: sec.map(|s| s.to_string()),
                    props: props.iter().map(|(k, v)| (k.to_string(), v.to_string())).collect(),
                },
            ).collect(),
        ),
        Err(e) => Err(format!("{}", e)),
    }
}

} // verus!
