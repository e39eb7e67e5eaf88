//! The library's model of a parsed shortcut-rule document, and the trusted
//! boundary to yaml_rust2.
//!
//! The logic only ever reads top-level string-valued fields of a document,
//! so a document is modelled as its top-level entries with keys and values
//! reduced to their string readings.

use vstd::prelude::*;
use vstd::string::*;
use crate::text::str_eq;

verus! {

/// One document of the stream. `entries` is `None` where the document is not
/// a mapping; an entry's key or value is `None` where it is not a string.
#[derive(Debug)]
pub struct YamlDoc {
    pub entries: Option<Vec<(Option<String>, Option<String>)>>,
}

/// Lookup of a string key among a document's top-level entries. The entries
/// come from a map, so the first match is the only one.
pub open spec fn entries_get(
    entries: Seq<(Option<String>, Option<String>)>,
    k: Seq<char>,
) -> Option<Option<String>>
    decreases entries.len(),
{
    if entries.len() == 0 {
        None
    } else if entries[0].0 is Some && entries[0].0->0@ == k {
        Some(entries[0].1)
    } else {
        entries_get(entries.drop_first(), k)
    }
}

/// What indexing a document by a field name and asking for a string yields.
pub open spec fn doc_field(doc: YamlDoc, k: Seq<char>) -> Option<String> {
    match doc.entries {
        Some(v) => match entries_get(v@, k) {
            Some(value) => value,
            None => None,
        },
        None => None,
    }
}

impl YamlDoc {
    /// The string value of a top-level field, where the document is a
    /// mapping, the field present and its value a string.
    #[verifier::loop_isolation(false)]
    pub fn get_str(&self, k: &str) -> (r: Option<&String>)
        ensures
            match r {
                Some(s) => doc_field(*self, k@) == Some(*s),
                None => doc_field(*self, k@) is None,
            },
    {
        match &self.entries {
            Some(v) => {
                let mut i: usize = 0;
                proof {
                    assert(v@.skip(0) =~= v@);
                }
                while i < v.len()
                    invariant
                        i <= v@.len(),
                        entries_get(v@, k@) == entries_get(v@.skip(i as int), k@),
                    decreases v@.len() - i,
                {
                    proof {
                        assert(v@.skip(i as int)[0] == v@[i as int]);
                        assert(v@.skip(i as int).drop_first() =~= v@.skip(i + 1));
                    }
                    match &v[i].0 {
                        Some(name) => {
                            if str_eq(name.as_str(), k) {
                                return match &v[i].1 {
                                    Some(value) => Some(value),
                                    None => None,
                                };
                            }
                        },
                        None => {},
                    }
                    i = i + 1;
                }
                None
            },
            None => None,
        }
    }
}

// ---------------------------------------------------------------------------
// The trusted boundary to yaml_rust2
// ---------------------------------------------------------------------------

/// What yaml_rust2's scanner makes of a piece of text: the document stream
/// reduced to this module's model, or nothing where scanning fails. The
/// outcome is a function of the text alone.
pub uninterp spec fn yaml_docs_of(text: Seq<char>) -> Option<Seq<YamlDoc>>;

/// Relies on yaml_rust2::YamlLoader::load_from_str, Yaml::as_hash and
/// Yaml::as_str: scans the text into a document stream and hands each
/// document's top-level entries over with keys and values reduced to their
/// string readings, in the mapping's insertion order.
#[verifier::external_body]
pub fn load_yaml_docs(text: &str) -> (r: Result<Vec<YamlDoc>, String>)
    ensures
        match r {
            Ok(docs) => yaml_docs_of(text@) == Some(docs@),
            Err(_) => yaml_docs_of(text@) is None,
        },
{
    match yaml_rust2::YamlLoader::load_from_str(text) {
        Ok(docs) => Ok(docs.iter().map(|d| YamlDoc {
            entries: d.as_hash().map(|h| h.iter().map(|(k, v)| (
                k.as_str().map(|s| s.to_string()),
                v.as_str().map(|s| s.to_string()),
            )).collect()),
        }).collect()),
        Err(e) => Err(format!("{}", e)),
    }
}

} // verus!
