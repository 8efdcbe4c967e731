//! The license catalog: its descriptors, lookup by key, the listing of keys,
//! and the address of each license's text.
use vstd::prelude::*;

verus! {

broadcast use vstd::string::group_string_axioms;

/// Where the catalog is served; each license text lies below it.
pub const BASE_URL: &'static str = "https://licenz.zbrox.com/";

/// One entry of the catalog.
pub struct License {
    /// Short machine-readable identifier, such as `mit`.
    pub key: String,
    /// Human-readable name, such as `MIT License`.
    pub name: String,
}

/// The ways in which fetching, rendering, writing or checking a license fails.
#[derive(Clone, Copy, Debug, PartialEq, Eq, Structural)]
pub enum LicenseError {
    /// A transport failure on either fetch.
    NetworkError,
    /// The catalog is not a sequence of descriptors with a non-empty key and name.
    DecodeError,
    /// No descriptor of the catalog has the requested key.
    NotFound,
    /// The target file exists and overwriting it was not allowed.
    DestinationExists,
    /// Writing the target file failed.
    WriteError,
    /// Reading the file to check failed.
    ReadError,
}

/// A descriptor is well formed when both of its fields are non-empty.
pub open spec fn well_formed(l: License) -> bool {
    l.key@.len() > 0 && l.name@.len() > 0
}

/// `i` is the position of the first descriptor of `c` whose key is `key`.
pub open spec fn is_first_match(c: Seq<License>, key: Seq<char>, i: int) -> bool {
    &&& 0 <= i < c.len()
    &&& c[i].key@ == key
    &&& forall|j: int| 0 <= j < i ==> c[j].key@ != key
}

/// Some descriptor of `c` has the key `key`.
pub open spec fn has_key(c: Seq<License>, key: Seq<char>) -> bool {
    exists|i: int| 0 <= i < c.len() && c[i].key@ == key
}

/// The separator between two keys in a listing.
pub open spec fn key_separator() -> Seq<char> {
    seq![',', ' ']
}

/// The keys of `c` in catalog order, separated by a comma and a space.
pub open spec fn joined_keys(c: Seq<License>) -> Seq<char>
    decreases c.len(),
{
    if c.len() == 0 {
        Seq::empty()
    } else if c.len() == 1 {
        c[0].key@
    } else {
        joined_keys(c.drop_last()) + key_separator() + c.last().key@
    }
}

/// The address of the text of the license with key `key`.
pub open spec fn text_url_of(key: Seq<char>) -> Seq<char> {
    BASE_URL@ + "license_text/"@ + key + ".txt"@
}

impl License {
    /// A descriptor with the given key and name.
    pub fn new(key: String, name: String) -> (l: License)
        ensures
            l.key@ == key@,
            l.name@ == name@,
    {
        License { key, name }
    }
}

/// Accepts a decoded catalog when every descriptor has a non-empty key and
/// name, keeping its order; otherwise the catalog is malformed.
pub fn check_catalog(entries: Vec<License>) -> (r: Result<Vec<License>, LicenseError>)
    ensures
        r is Ok <==> forall|i: int| 0 <= i < entries@.len() ==> well_formed(#[trigger] entries@[i]),
        r matches Ok(c) ==> c@ == entries@,
        r matches Err(e) ==> e == LicenseError::DecodeError,
{
    let mut i: usize = 0;
    while i < entries.len()
        invariant
            i <= entries@.len(),
            forall|k: int| 0 <= k < i ==> well_formed(#[trigger] entries@[k]),
        decreases entries@.len() - i,
    {
        let l = &entries[i];
        if l.key.as_str().unicode_len() == 0 || l.name.as_str().unicode_len() == 0 {
            assert(!well_formed(entries@[i as int]));
            return Err(LicenseError::DecodeError);
        }
        i = i + 1;
    }
    Ok(entries)
}

/// The first descriptor of the catalog whose key is exactly `key`, or `None`
/// when there is none.
pub fn get_license_by_key<'a>(catalog: &'a Vec<License>, key: &str) -> (r: Option<&'a License>)
    ensures
        r is None <==> !has_key(catalog@, key@),
        r matches Some(l) ==> exists|i: int|
            is_first_match(catalog@, key@, i) && *l == #[trigger] catalog@[i],
{
    let wanted = String::from_str(key);
    let mut i: usize = 0;
    while i < catalog.len()
        invariant
            i <= catalog@.len(),
            wanted@ == key@,
            forall|j: int| 0 <= j < i ==> #[trigger] catalog@[j].key@ != key@,
        decreases catalog@.len() - i,
    {
        if catalog[i].key == wanted {
            assert(is_first_match(catalog@, key@, i as int));
            return Some(&catalog[i]);
        }
        i = i + 1;
    }
    None
}

/// The keys of the catalog in order, joined by a comma and a space.
pub fn get_license_keys(catalog: &Vec<License>) -> (r: String)
    ensures
        r@ == joined_keys(catalog@),
{
    let mut out = String::new();
    let mut i: usize = 0;
    while i < catalog.len()
        invariant
            i <= catalog@.len(),
            out@ == joined_keys(catalog@.take(i as int)),
        decreases catalog@.len() - i,
    {
        if i > 0 {
            out.append(", ");
        }
        out.append(catalog[i].key.as_str());
        proof {
            reveal_strlit(", ");
            let t = catalog@.take(i + 1);
            assert(t.drop_last() =~= catalog@.take(i as int));
            assert(", "@ =~= key_separator());
            if i == 0 {
                assert(out@ =~= joined_keys(t));
            }
        }
        i = i + 1;
    }
    assert(catalog@.take(catalog@.len() as int) =~= catalog@);
    out
}

/// The address of the text of `license`: a fixed base, the key, and `.txt`.
pub fn get_license_text_url(license: &License) -> (r: String)
    ensures
        r@ == text_url_of(license.key@),
{
    let mut url = String::from_str(BASE_URL);
    url.append("license_text/");
    url.append(license.key.as_str());
    url.append(".txt");
    url
}

} // verus!
