//! The remote catalog: the listing document and the download locators built from it.

use vstd::prelude::*;

use crate::plan::ImageRecord;
use crate::text::join_with_slash;

verus! {

/// serde_json's dynamic JSON value, carried through without looking inside.
#[verifier::external_type_specification]
#[verifier::external_body]
pub struct ExJsonValue(serde_json::Value);

/// A JSON document as a mathematical tree. Numbers are not looked at, so they carry
/// nothing.
pub enum JsonTree {
    Null,
    Bool(bool),
    Number,
    Text(Seq<char>),
    Array(Seq<JsonTree>),
    Object(Map<Seq<char>, JsonTree>),
}

/// The tree that a serde_json value holds.
pub uninterp spec fn json_tree(v: serde_json::Value) -> JsonTree;

/// The document that serde_json decodes from `body`, if it decodes one.
pub uninterp spec fn parsed_json(body: Seq<u8>) -> Option<JsonTree>;

/// Relies on serde_json::Value::as_array: the elements when the value is an array.
pub assume_specification[ serde_json::Value::as_array ](v: &serde_json::Value) -> (r: Option<
    &Vec<serde_json::Value>,
>)
    ensures
        match json_tree(*v) {
            JsonTree::Array(items) => r is Some && r->0@.len() == items.len() && forall|i: int|
                0 <= i < items.len() ==> json_tree(#[trigger] r->0@[i]) == items[i],
            _ => r is None,
        },
;

/// Relies on serde_json::Value::as_str: the text when the value is a string.
pub assume_specification[ serde_json::Value::as_str ](v: &serde_json::Value) -> (r: Option<&str>)
    ensures
        match json_tree(*v) {
            JsonTree::Text(t) => r is Some && r->0@ == t,
            _ => r is None,
        },
;

/// Relies on serde_json::from_slice: decodes a JSON document, `None` where it is malformed.
#[verifier::external_body]
fn json_parse(body: &[u8]) -> (r: Option<serde_json::Value>)
    ensures
        match r {
            Some(v) => parsed_json(body@) == Some(json_tree(v)),
            None => parsed_json(body@) is None,
        },
{
    serde_json::from_slice(body).ok()
}

/// Relies on serde_json::Value::get: the member under `key` when the value is an object
/// that has one.
#[verifier::external_body]
fn json_member<'a>(v: &'a serde_json::Value, key: &str) -> (r: Option<&'a serde_json::Value>)
    ensures
        match json_tree(*v) {
            JsonTree::Object(m) => match r {
                Some(x) => m.contains_key(key@) && json_tree(*x) == m[key@],
                None => !m.contains_key(key@),
            },
            _ => r is None,
        },
{
    v.get(key)
}

/// What a listing element gives: its text when it is a string.
pub open spec fn entry_of(t: JsonTree) -> Option<Seq<char>> {
    match t {
        JsonTree::Text(s) => Some(s),
        _ => None,
    }
}

/// What the elements of a listing give.
pub open spec fn entries_of(items: Seq<JsonTree>) -> Seq<Option<Seq<char>>> {
    items.map_values(|t: JsonTree| entry_of(t))
}

/// The entries of a listing document: `None` unless it decodes to an object whose
/// `images` member is an array; otherwise each element's text, `None` where it is not a
/// string.
pub open spec fn listing_entries(body: Seq<u8>) -> Option<Seq<Option<Seq<char>>>> {
    match parsed_json(body) {
        Some(JsonTree::Object(m)) => if m.contains_key("images"@) {
            match m["images"@] {
                JsonTree::Array(items) => Some(entries_of(items)),
                _ => None,
            }
        } else {
            None
        },
        _ => None,
    }
}

/// The texts of decoded entries.
pub open spec fn entry_views(entries: Seq<Option<String>>) -> Seq<Option<Seq<char>>> {
    entries.map_values(
        |e: Option<String>|
            match e {
                Some(s) => Some(s@),
                None => None,
            },
    )
}

/// Why a catalog could not be had.
#[derive(Clone, Copy, PartialEq, Eq, Structural, Debug)]
pub enum CatalogError {
    /// The listing could not be fetched.
    Network,
    /// The listing is not an object whose `images` member is an array of strings.
    Parse,
}

/// Whether every entry of a listing is a file name.
pub open spec fn all_names(entries: Seq<Option<String>>) -> bool {
    forall|i: int| 0 <= i < entries.len() ==> entries[i] is Some
}

/// The download locator of a file listed at `listing_url`.
pub open spec fn download_link_of(listing_url: Seq<char>, filename: Seq<char>) -> Seq<char> {
    listing_url + seq!['/'] + filename
}

/// Whether `records` is the catalog for the names `entries` listed at `listing_url`.
pub open spec fn is_catalog_of(
    listing_url: Seq<char>,
    entries: Seq<Option<String>>,
    records: Seq<ImageRecord>,
) -> bool {
    &&& records.len() == entries.len()
    &&& forall|i: int|
        0 <= i < records.len() ==> entries[i] == Some(#[trigger] records[i].filename)
            && records[i].download_link@ == download_link_of(listing_url, records[i].filename@)
}

/// Reads the entries of a listing document: `None` when it is not JSON or has no array
/// under `images`; otherwise each element, `None` where it is not a string.
pub fn decode_listing(body: &[u8]) -> (entries: Option<Vec<Option<String>>>)
    ensures
        match entries {
            Some(v) => listing_entries(body@) == Some(entry_views(v@)),
            None => listing_entries(body@) is None,
        },
{
    let doc = match json_parse(body) {
        Some(doc) => doc,
        None => return None,
    };
    let images = match json_member(&doc, "images") {
        Some(images) => images,
        None => return None,
    };
    let items = match images.as_array() {
        Some(items) => items,
        None => return None,
    };
    let ghost trees = match json_tree(*images) {
        JsonTree::Array(t) => t,
        _ => Seq::empty(),
    };
    let mut entries: Vec<Option<String>> = Vec::new();
    let mut i: usize = 0;
    while i < items.len()
        invariant
            json_tree(*images) == JsonTree::Array(trees),
            items@.len() == trees.len(),
            forall|k: int| 0 <= k < trees.len() ==> json_tree(#[trigger] items@[k]) == trees[k],
            i <= items@.len(),
            entries@.len() == i,
            forall|k: int|
                0 <= k < i ==> entry_views(entries@)[k] == entry_of(#[trigger] trees[k]),
        decreases items@.len() - i,
    {
        match items[i].as_str() {
            Some(name) => entries.push(Some(name.to_owned())),
            None => entries.push(None),
        }
        i += 1;
    }
    assert(entry_views(entries@) =~= entries_of(trees));
    Some(entries)
}

/// Builds the catalog from the entries of a listing found at `listing_url`. Each name
/// gets the locator `<listing_url>/<name>`. Fails with `Parse` when there was no listing
/// or one of its entries is not a name.
pub fn catalog_from_listing(listing_url: &str, listing: Option<Vec<Option<String>>>) -> (r: Result<
    Vec<ImageRecord>,
    CatalogError,
>)
    ensures
        listing is None ==> r == Err::<Vec<ImageRecord>, CatalogError>(CatalogError::Parse),
        listing is Some ==> match r {
            Ok(records) => all_names(listing->Some_0@) && is_catalog_of(
                listing_url@,
                listing->Some_0@,
                records@,
            ),
            Err(e) => !all_names(listing->Some_0@) && e == CatalogError::Parse,
        },
{
    let entries = match listing {
        Some(entries) => entries,
        None => return Err(CatalogError::Parse),
    };
    let mut records: Vec<ImageRecord> = Vec::new();
    let mut i: usize = 0;
    while i < entries.len()
        invariant
            listing == Some(entries),
            i <= entries@.len(),
            all_names(entries@.subrange(0, i as int)),
            is_catalog_of(listing_url@, entries@.subrange(0, i as int), records@),
        decreases entries@.len() - i,
    {
        match &entries[i] {
            Some(name) => {
                let link = join_with_slash(listing_url, name.as_str());
                records.push(ImageRecord { filename: name.clone(), download_link: link });
                assert(entries@.subrange(0, i + 1) =~= entries@.subrange(0, i as int).push(
                    entries@[i as int],
                ));
            },
            None => {
                assert(!(entries@[i as int] is Some));
                assert(!all_names(entries@));
                return Err(CatalogError::Parse);
            },
        }
        i += 1;
    }
    assert(entries@.subrange(0, entries@.len() as int) =~= entries@);
    Ok(records)
}

/// Whether an HTTP status reports success (2xx); a download answered otherwise is
/// not written.
pub fn is_success_status(status: u16) -> (r: bool)
    ensures
        r == (200 <= status && status < 300),
{
    200 <= status && status < 300
}

/// Builds the catalog from the body of the listing resource at `listing_url`: one
/// record per listed name, in order, each with the locator `<listing_url>/<name>`.
/// Fails with `Parse` when the body has no array under `images` or one of its elements
/// is not a string.
pub fn parse_catalog(listing_url: &str, body: &[u8]) -> (r: Result<Vec<ImageRecord>, CatalogError>)
    ensures
        match listing_entries(body@) {
            None => r == Err::<Vec<ImageRecord>, CatalogError>(CatalogError::Parse),
            Some(es) => {
                &&& r is Ok <==> forall|i: int| 0 <= i < es.len() ==> #[trigger] es[i] is Some
                &&& r is Err ==> r == Err::<Vec<ImageRecord>, CatalogError>(CatalogError::Parse)
                &&& r matches Ok(recs) ==> recs@.len() == es.len() && forall|i: int|
                    0 <= i < es.len() ==> es[i] == Some(#[trigger] recs@[i].filename@)
                        && recs@[i].download_link@ == download_link_of(
                        listing_url@,
                        recs@[i].filename@,
                    )
            },
        },
{
    let listing = decode_listing(body);
    let r = catalog_from_listing(listing_url, listing);
    proof {
        if listing is Some {
            let v = listing->Some_0@;
            let es = entry_views(v);
            assert(es.len() == v.len());
            assert forall|i: int| 0 <= i < es.len() implies (#[trigger] es[i] is Some <==> v[i] is Some) by {
                assert(es[i] == (match v[i] {
                    Some(t) => Some(t@),
                    None => None::<Seq<char>>,
                }));
            }
            if r is Ok {
                let recs = r->Ok_0;
                assert forall|i: int| 0 <= i < es.len() implies es[i] == Some(
                    #[trigger] recs@[i].filename@,
                ) && recs@[i].download_link@ == download_link_of(
                    listing_url@,
                    recs@[i].filename@,
                ) by {
                    assert(v[i] == Some(recs@[i].filename));
                    assert(es[i] == (match v[i] {
                        Some(t) => Some(t@),
                        None => None::<Seq<char>>,
                    }));
                }
                assert(forall|i: int| 0 <= i < es.len() ==> #[trigger] es[i] is Some);
            } else {
                let k = choose|k: int| 0 <= k < v.len() && !(v[k] is Some);
                assert(!(es[k] is Some));
            }
        }
    }
    r
}

} // verus!
