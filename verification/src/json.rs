//! The JSON files of a build: the compiler's dependency descriptor and
//! the warnings kept from a compile. The JSON text itself is read and
//! written by `serde_json`; what the members mean is decided here.

use vstd::prelude::*;
use vstd::string::*;
use crate::build_env::DependencyDescriptor;
use crate::diagnostics::WarningCache;
use crate::text::{str_eq, texts};

verus! {

/// The texts of a list of pairs of strings.
pub open spec fn pairs(v: Seq<(String, String)>) -> Seq<(Seq<char>, Seq<char>)> {
    v.map_values(|p: (String, String)| (p.0@, p.1@))
}

/// The members of the JSON object that `text` writes, each with the
/// JSON text of its value, as `serde_json::from_str` reads them into a map
/// from strings to raw values; `None` where it reads no such map.
pub uninterp spec fn members_of(text: Seq<char>) -> Option<Seq<(Seq<char>, Seq<char>)>>;

/// The strings of the JSON array that `text` writes, as
/// `serde_json::from_str` reads them into a list of strings; `None` where
/// it reads no such list.
pub uninterp spec fn strings_of(text: Seq<char>) -> Option<Seq<Seq<char>>>;

/// The string that `text` writes, as `serde_json::from_str` reads a
/// string; `None` where it reads none.
pub uninterp spec fn string_of(text: Seq<char>) -> Option<Seq<char>>;

/// The JSON array that `serde_json::to_string` writes for a list of
/// strings; `None` where it writes none.
pub uninterp spec fn strings_written(strings: Seq<Seq<char>>) -> Option<Seq<char>>;

/// Calls `serde_json::from_str` for a map from strings to raw values,
/// and hands out the members with the JSON text of each value. Nothing is
/// proved of it: the contract gives the result the name `members_of`.
#[verifier::external_body]
pub(crate) fn members(text: &str) -> (r: Option<Vec<(String, String)>>)
    ensures
        match r {
            Some(v) => members_of(text@) == Some(pairs(v@)),
            None => members_of(text@).is_none(),
        },
{
    serde_json::from_str::<std::collections::BTreeMap<String, Box<serde_json::value::RawValue>>>(
        text,
    ).ok().map(|m| m.into_iter().map(|(k, v)| (k, v.get().to_string())).collect())
}

/// Calls `serde_json::from_str` for a list of strings. Nothing is proved
/// of it: the contract gives the result the name `strings_of`.
#[verifier::external_body]
pub(crate) fn strings(text: &str) -> (r: Option<Vec<String>>)
    ensures
        match r {
            Some(v) => strings_of(text@) == Some(texts(v@)),
            None => strings_of(text@).is_none(),
        },
{
    serde_json::from_str::<Vec<String>>(text).ok()
}

/// Calls `serde_json::from_str` for a string. Nothing is proved of it:
/// the contract gives the result the name `string_of`.
#[verifier::external_body]
pub(crate) fn string(text: &str) -> (r: Option<String>)
    ensures
        match r {
            Some(s) => string_of(text@) == Some(s@),
            None => string_of(text@).is_none(),
        },
{
    serde_json::from_str::<String>(text).ok()
}

/// The truth value that the JSON text of a value writes: `true` or `false`.
pub open spec fn bool_of(text: Seq<char>) -> Option<bool> {
    if text == "true"@ {
        Some(true)
    } else if text == "false"@ {
        Some(false)
    } else {
        None
    }
}

/// Reads the JSON text of a truth value.
pub fn boolean(text: &str) -> (r: Option<bool>)
    ensures
        r == bool_of(text@),
{
    if str_eq(text, "true") {
        Some(true)
    } else if str_eq(text, "false") {
        Some(false)
    } else {
        None
    }
}

/// The string that the JSON text of a value writes, or no string where
/// the text is `null`; `None` where it is neither.
pub open spec fn optional_string_of(text: Seq<char>) -> Option<Option<Seq<char>>> {
    if text == "null"@ {
        Some(None)
    } else {
        match string_of(text) {
            Some(s) => Some(Some(s)),
            None => None,
        }
    }
}

/// Reads the JSON text of a string that may be `null`.
pub fn optional_string(text: &str) -> (r: Option<Option<String>>)
    ensures
        match r {
            Some(Some(s)) => optional_string_of(text@) == Some(Some(s@)),
            Some(None) => optional_string_of(text@) == Some(None::<Seq<char>>),
            None => optional_string_of(text@).is_none(),
        },
{
    if str_eq(text, "null") {
        Some(None)
    } else {
        match string(text) {
            Some(s) => Some(Some(s)),
            None => None,
        }
    }
}

/// Calls `serde_json::to_string` on a list of strings. Nothing is proved
/// of it: the contract gives the result the name `strings_written`.
#[verifier::external_body]
fn write_strings(strings: &Vec<String>) -> (r: Option<String>)
    ensures
        match r {
            Some(s) => strings_written(texts(strings@)) == Some(s@),
            None => strings_written(texts(strings@)).is_none(),
        },
{
    serde_json::to_string(strings).ok()
}

/// The value of the first member from `i` on that is named `key`.
pub open spec fn member_from(members: Seq<(Seq<char>, Seq<char>)>, key: Seq<char>, i: int) -> Option<
    Seq<char>,
>
    decreases members.len() - i,
{
    if i < 0 || i >= members.len() {
        None
    } else if members[i].0 == key {
        Some(members[i].1)
    } else {
        member_from(members, key, i + 1)
    }
}

/// The value of the member named `key`, if there is one.
pub fn member(members: &Vec<(String, String)>, key: &str) -> (r: Option<String>)
    ensures
        match r {
            Some(v) => member_from(pairs(members@), key@, 0) == Some(v@),
            None => member_from(pairs(members@), key@, 0).is_none(),
        },
{
    let mut i: usize = 0;
    while i < members.len()
        invariant
            i <= members@.len(),
            member_from(pairs(members@), key@, 0) == member_from(pairs(members@), key@, i as int),
        decreases members@.len() - i,
    {
        assert(pairs(members@)[i as int] == (members@[i as int].0@, members@[i as int].1@));
        if str_eq(members[i].0.as_str(), key) {
            return Some(members[i].1.clone());
        }
        i = i + 1;
    }
    None
}

/// The value of the member `key` of the object that `text` writes.
pub open spec fn member_of(text: Seq<char>, key: Seq<char>) -> Option<Seq<char>> {
    match members_of(text) {
        Some(m) => member_from(m, key, 0),
        None => None,
    }
}

fn member_text(text: &str, key: &str) -> (r: Option<String>)
    ensures
        match r {
            Some(v) => member_of(text@, key@) == Some(v@),
            None => member_of(text@, key@).is_none(),
        },
{
    match members(text) {
        Some(m) => member(&m, key),
        None => None,
    }
}

/// The warnings that `text` keeps: the strings of the member `warnings`
/// of the object that it writes.
pub open spec fn warnings_of(text: Seq<char>) -> Option<Seq<Seq<char>>> {
    match member_of(text, "warnings"@) {
        Some(list) => strings_of(list),
        None => None,
    }
}

/// Reads the warnings kept from a compile; `None` where `text` does not
/// keep warnings.
pub fn parse_warning_cache(text: &str) -> (r: Option<WarningCache>)
    ensures
        match r {
            Some(cache) => warnings_of(text@) == Some(texts(cache.warnings@)),
            None => warnings_of(text@).is_none(),
        },
{
    match member_text(text, "warnings") {
        Some(list) => match strings(list.as_str()) {
            Some(warnings) => Some(WarningCache { warnings }),
            None => None,
        },
        None => None,
    }
}

/// The text that keeps `warnings`: an object whose one member,
/// `warnings`, is the array of them.
pub open spec fn cache_text(warnings: Seq<Seq<char>>) -> Option<Seq<char>> {
    match strings_written(warnings) {
        Some(list) => Some("{\"warnings\":"@ + list + "}"@),
        None => None,
    }
}

/// Writes the warnings of a compile for keeping.
pub fn write_warning_cache(cache: &WarningCache) -> (r: Option<String>)
    ensures
        match r {
            Some(text) => cache_text(texts(cache.warnings@)) == Some(text@),
            None => cache_text(texts(cache.warnings@)).is_none(),
        },
{
    match write_strings(&cache.warnings) {
        Some(list) => {
            let mut text = String::from_str("{\"warnings\":");
            text.append(list.as_str());
            text.append("}");
            Some(text)
        },
        None => None,
    }
}

/// What a descriptor names: the strings of the member `Includes` of the
/// member `Data`, and the string of the member `PCH` beside it, which may
/// be `null` or left out.
pub open spec fn descriptor_of(text: Seq<char>) -> Option<(Seq<Seq<char>>, Option<Seq<char>>)> {
    match member_of(text, "Data"@) {
        None => None,
        Some(data) => match member_of(data, "Includes"@) {
            None => None,
            Some(list) => match strings_of(list) {
                None => None,
                Some(includes) => match member_of(data, "PCH"@) {
                    None => if members_of(data).is_some() {
                        Some((includes, None))
                    } else {
                        None
                    },
                    Some(pch) => match optional_string_of(pch) {
                        None => None,
                        Some(header) => Some((includes, header)),
                    },
                },
            },
        },
    }
}

/// Reads the descriptor that the compiler wrote for a source; `None`
/// where `text` holds no descriptor.
pub fn parse_descriptor(text: &str) -> (r: Option<DependencyDescriptor>)
    ensures
        match r {
            Some(d) => descriptor_of(text@) == Some((texts(d.includes@), d.pch_text())),
            None => descriptor_of(text@).is_none(),
        },
{
    let data = match member_text(text, "Data") {
        Some(data) => data,
        None => {
            return None;
        },
    };
    let fields = match members(data.as_str()) {
        Some(fields) => fields,
        None => {
            return None;
        },
    };
    let includes = match member(&fields, "Includes") {
        Some(list) => match strings(list.as_str()) {
            Some(includes) => includes,
            None => {
                return None;
            },
        },
        None => {
            return None;
        },
    };
    let pch = match member(&fields, "PCH") {
        None => None,
        Some(header) => match optional_string(header.as_str()) {
            Some(pch) => pch,
            None => {
                return None;
            },
        },
    };
    Some(DependencyDescriptor { includes, pch })
}

} // verus!
