//! The plist value tree, as the protocol sees it.
//!
//! The generic plist encoding is consumed as a black box: the `plist` crate
//! maps bytes to and from its own value tree.  This module gives that tree a
//! mathematical model — [`SpecPlist`] — covering exactly the slice of plist
//! the usbmux protocol reads and writes (strings, integers, dictionaries),
//! and a set of trusted accessors and builders whose contracts are stated
//! over that model.  Everything above this module is verified against those
//! contracts.
use vstd::prelude::*;

verus! {

/// Mathematical model of a plist value.  Strings are character sequences,
/// integers are unbounded (the `plist` crate represents the union of the
/// `i64` and `u64` ranges), and dictionaries are their entries in insertion
/// order with distinct keys.  Every plist kind the protocol never touches
/// (arrays, booleans, data, dates, reals, uids) is modelled as `Opaque`.
#[verifier::ext_equal]
pub enum SpecPlist {
    Str(Seq<char>),
    Integer(int),
    Dict(Seq<(Seq<char>, SpecPlist)>),
    Opaque,
}

/// The value at `key` in a dictionary's entry list: the first entry with
/// that key (entries built through this module have distinct keys).
pub open spec fn spec_dict_get(entries: Seq<(Seq<char>, SpecPlist)>, key: Seq<char>) -> Option<
    SpecPlist,
>
    decreases entries.len(),
{
    if entries.len() == 0 {
        None
    } else if entries[0].0 == key {
        Some(entries[0].1)
    } else {
        spec_dict_get(entries.drop_first(), key)
    }
}

/// A key that occurs in no entry is absent from the dictionary.
pub proof fn lemma_dict_get_absent(entries: Seq<(Seq<char>, SpecPlist)>, key: Seq<char>)
    requires
        forall|i: int| 0 <= i < entries.len() ==> (#[trigger] entries[i]).0 != key,
    ensures
        spec_dict_get(entries, key) is None,
    decreases entries.len(),
{
    if entries.len() > 0 {
        assert forall|i: int|
            0 <= i < entries.drop_first().len() implies (#[trigger] entries.drop_first()[i]).0
            != key by {
            assert(entries.drop_first()[i] == entries[i + 1]);
        }
        lemma_dict_get_absent(entries.drop_first(), key);
    }
}

/// Whether a model contains only strings, integers and dictionaries — the
/// trees whose XML encoding is determined by the model alone.
pub open spec fn no_opaque(m: SpecPlist) -> bool
    decreases m,
{
    match m {
        SpecPlist::Str(_) => true,
        SpecPlist::Integer(_) => true,
        SpecPlist::Dict(entries) => forall|i: int|
            0 <= i < entries.len() ==> no_opaque(#[trigger] entries[i].1),
        SpecPlist::Opaque => false,
    }
}

/// Declares `plist::Value` — the outside crate's value tree — as an opaque
/// type; its contents are reached only through the accessors below, whose
/// contracts speak of [`pv_model`].
#[verifier::external_type_specification]
#[verifier::external_body]
pub struct ExValue(plist::Value);

/// Declares `plist::Dictionary` — the outside crate's ordered map of
/// `String` to `plist::Value` — as an opaque type; its contents are
/// reached only through the accessors below, whose contracts speak of
/// [`dict_model`].
#[verifier::external_type_specification]
#[verifier::external_body]
pub struct ExDictionary(plist::Dictionary);

/// The model of a `plist::Value`.
pub uninterp spec fn pv_model(v: plist::Value) -> SpecPlist;

/// The entries a `plist::Dictionary` holds, in insertion order.
pub uninterp spec fn dict_model(d: plist::Dictionary) -> Seq<(Seq<char>, SpecPlist)>;

/// The value tree that `plist::Value::from_reader` decodes the given bytes
/// to, or `None` where it fails; a function of the bytes alone.
pub uninterp spec fn parsed_plist(data: Seq<u8>) -> Option<SpecPlist>;

/// The XML plist encoding of an `Opaque`-free value tree; a function of the
/// tree alone.
pub uninterp spec fn plist_xml(m: SpecPlist) -> Seq<u8>;

/// Relies on `plist::Value::from_reader`: decodes XML, binary or ASCII
/// plist bytes into a value tree; the outcome depends on the bytes alone.
#[verifier::external_body]
pub(crate) fn parse_plist(data: &[u8]) -> (r: Option<plist::Value>)
    ensures
        match parsed_plist(data@) {
            Some(m) => r matches Some(v) && pv_model(v) == m,
            None => r is None,
        },
{
    plist::Value::from_reader(std::io::Cursor::new(data)).ok()
}

/// Relies on `plist::Value::as_string`: `Some` of the string exactly for
/// string values.
#[verifier::external_body]
pub(crate) fn value_as_string(v: &plist::Value) -> (r: Option<&str>)
    ensures
        match pv_model(*v) {
            SpecPlist::Str(s) => r matches Some(rs) && rs@ == s,
            _ => r is None,
        },
{
    v.as_string()
}

/// Relies on `plist::Value::as_unsigned_integer`: `Some` exactly for
/// integer values representable as a `u64`.
#[verifier::external_body]
pub(crate) fn value_as_unsigned_integer(v: &plist::Value) -> (r: Option<u64>)
    ensures
        match pv_model(*v) {
            SpecPlist::Integer(n) => if 0 <= n <= u64::MAX {
                r == Some(n as u64)
            } else {
                r is None
            },
            _ => r is None,
        },
{
    v.as_unsigned_integer()
}

/// Relies on `plist::Value::as_signed_integer`: `Some` exactly for integer
/// values representable as an `i64`.
#[verifier::external_body]
pub(crate) fn value_as_signed_integer(v: &plist::Value) -> (r: Option<i64>)
    ensures
        match pv_model(*v) {
            SpecPlist::Integer(n) => if i64::MIN <= n <= i64::MAX {
                r == Some(n as i64)
            } else {
                r is None
            },
            _ => r is None,
        },
{
    v.as_signed_integer()
}

/// Relies on `plist::Value::as_dictionary`: `Some` exactly for
/// dictionaries.
#[verifier::external_body]
pub(crate) fn value_as_dictionary(v: &plist::Value) -> (r: Option<&plist::Dictionary>)
    ensures
        match pv_model(*v) {
            SpecPlist::Dict(entries) => r matches Some(d) && dict_model(*d) == entries,
            _ => r is None,
        },
{
    v.as_dictionary()
}

/// Relies on `plist::Dictionary::get`: the value stored under the given
/// key, if any (the backing index map holds at most one entry per key).
#[verifier::external_body]
pub(crate) fn dictionary_get<'a>(d: &'a plist::Dictionary, key: &str) -> (r: Option<
    &'a plist::Value,
>)
    ensures
        match spec_dict_get(dict_model(*d), key@) {
            Some(m) => r matches Some(v) && pv_model(*v) == m,
            None => r is None,
        },
{
    d.get(key)
}

/// Relies on `plist::Value::String`: wraps a string as a plist value.
#[verifier::external_body]
pub(crate) fn value_from_string(s: &str) -> (v: plist::Value)
    ensures
        pv_model(v) == SpecPlist::Str(s@),
{
    plist::Value::String(s.to_owned())
}

/// Relies on `plist::Integer::from(u64)` and `plist::Value::Integer`: wraps
/// an unsigned integer as a plist value.
#[verifier::external_body]
pub(crate) fn value_from_u64(n: u64) -> (v: plist::Value)
    ensures
        pv_model(v) == SpecPlist::Integer(n as int),
{
    plist::Value::Integer(plist::Integer::from(n))
}

/// Relies on `plist::Dictionary::new`: the empty dictionary.
#[verifier::external_body]
pub(crate) fn dictionary_new() -> (d: plist::Dictionary)
    ensures
        dict_model(d) == Seq::<(Seq<char>, SpecPlist)>::empty(),
{
    plist::Dictionary::new()
}

/// Relies on `plist::Dictionary::insert`: inserting a key not yet present
/// appends its entry, keeping the order of the existing entries.
#[verifier::external_body]
pub(crate) fn dictionary_insert(d: &mut plist::Dictionary, key: &str, v: plist::Value)
    requires
        spec_dict_get(dict_model(*old(d)), key@) is None,
    ensures
        dict_model(*final(d)) == dict_model(*old(d)).push((key@, pv_model(v))),
{
    d.insert(key.to_owned(), v);
}

/// Relies on `plist::Value::Dictionary`: wraps a dictionary as a plist
/// value.
#[verifier::external_body]
pub(crate) fn value_from_dictionary(d: plist::Dictionary) -> (v: plist::Value)
    ensures
        pv_model(v) == SpecPlist::Dict(dict_model(d)),
{
    plist::Value::Dictionary(d)
}

/// Relies on `plist::Value::to_writer_xml`: encodes a value tree as an XML
/// plist.  For trees of strings, integers and dictionaries, writing to an
/// in-memory buffer cannot fail and the output depends on the tree alone.
#[verifier::external_body]
pub(crate) fn plist_to_xml(v: &plist::Value) -> (r: Vec<u8>)
    requires
        no_opaque(pv_model(*v)),
    ensures
        r@ == plist_xml(pv_model(*v)),
{
    let mut out: Vec<u8> = Vec::new();
    match v.to_writer_xml(&mut out) {
        Ok(()) => out,
        Err(_) => out,
    }
}

} // verus!
