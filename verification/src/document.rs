//! JSON documents, pointers into them and patches on them.

use json_patch::Patch;
use serde_json::Value;
use vstd::prelude::*;

verus! {

/// `serde_json::Value`, a JSON document. Nothing of its inside is read.
#[verifier::external_type_specification]
#[verifier::external_body]
pub struct ExValue(Value);

/// `json_patch::Patch`, a list of operations on a document. Nothing of its
/// inside is read.
#[verifier::external_type_specification]
#[verifier::external_body]
pub struct ExPatch(Patch);

/// Why a patch was not applied.
#[derive(Copy, Clone, Debug, PartialEq, Eq, Structural)]
pub enum PatchFailure {
    /// A pointer inside the patch addresses nothing.
    InvalidPointer,
    /// A `test` operation of the patch did not hold.
    TestFailed,
}

/// What a JSON value holds: its compact JSON text.
pub uninterp spec fn json_text(value: Value) -> Seq<char>;

/// What a patch holds: the compact JSON text of its list of operations.
pub uninterp spec fn patch_text(patch: Patch) -> Seq<char>;

/// The compact text of the JSON document that `bytes` spell, or `None` where
/// they spell none.
pub uninterp spec fn json_parsed(bytes: Seq<u8>) -> Option<Seq<char>>;

/// The compact text of the patch that `bytes` spell, or `None` where they
/// spell none.
pub uninterp spec fn patch_parsed(bytes: Seq<u8>) -> Option<Seq<char>>;

/// The indented text, as bytes, of the document with compact text `document`.
pub uninterp spec fn json_pretty(document: Seq<char>) -> Seq<u8>;

/// The part of `document` that `pointer` addresses, or `None` where it
/// addresses nothing.
pub uninterp spec fn json_pointer(document: Seq<char>, pointer: Seq<char>) -> Option<Seq<char>>;

/// `document` with the part that `pointer` addresses exchanged for `part`.
pub uninterp spec fn json_replaced(
    document: Seq<char>,
    pointer: Seq<char>,
    part: Seq<char>,
) -> Seq<char>;

/// `document` after the operations of `patch`, applied in their order, or why
/// the first of them that fails cannot be applied.
pub uninterp spec fn json_patched(document: Seq<char>, patch: Seq<char>) -> Result<
    Seq<char>,
    PatchFailure,
>;

/// `serde_json::from_slice` at `Value`: the document that the bytes spell.
#[verifier::external_body]
pub(crate) fn parse_value(bytes: &[u8]) -> (r: Option<Value>)
    ensures
        match r {
            Some(value) => json_parsed(bytes@) == Some(json_text(value)),
            None => json_parsed(bytes@) is None,
        },
{
    serde_json::from_slice(bytes).ok()
}

/// `serde_json::from_slice` at `Patch`: the patch that the bytes spell.
#[verifier::external_body]
pub(crate) fn parse_patch(bytes: &[u8]) -> (r: Option<Patch>)
    ensures
        match r {
            Some(patch) => patch_parsed(bytes@) == Some(patch_text(patch)),
            None => patch_parsed(bytes@) is None,
        },
{
    serde_json::from_slice(bytes).ok()
}

/// `Value::pointer_mut`: the part that the pointer addresses, the same that
/// `Value::pointer` finds, borrowed from the document; what is written to it
/// is written to the document there, where the pointer then finds it, and
/// nothing else of the document changes.
#[verifier::external_body]
pub(crate) fn lookup_mut<'a>(value: &'a mut Value, pointer: &str) -> (r: Option<&'a mut Value>)
    ensures
        match r {
            Some(part) => {
                &&& json_pointer(json_text(*old(value)), pointer@) == Some(json_text(*part))
                &&& json_text(*final(value)) == json_replaced(
                    json_text(*old(value)),
                    pointer@,
                    json_text(*final(part)),
                )
                &&& json_pointer(json_text(*final(value)), pointer@) == Some(
                    json_text(*final(part)),
                )
                &&& *final(part) == *part ==> *final(value) == *old(value)
            },
            None => {
                &&& json_pointer(json_text(*old(value)), pointer@) is None
                &&& *final(value) == *old(value)
            },
        },
{
    value.pointer_mut(pointer)
}

/// `json_patch::patch_unsafe`: applies the operations in order and stops at
/// the first that fails. What the earlier operations did, and what the
/// failing one did before it failed, then stays in the document: nothing is
/// claimed of it.
#[verifier::external_body]
pub(crate) fn apply_patch(value: &mut Value, patch: &Patch) -> (r: Result<(), PatchFailure>)
    ensures
        match r {
            Ok(()) => json_patched(json_text(*old(value)), patch_text(*patch)) == Ok::<
                Seq<char>,
                PatchFailure,
            >(json_text(*final(value))),
            Err(failure) => json_patched(json_text(*old(value)), patch_text(*patch)) == Err::<
                Seq<char>,
                PatchFailure,
            >(failure),
        },
{
    match json_patch::patch_unsafe(value, patch) {
        Ok(()) => Ok(()),
        Err(json_patch::PatchError::InvalidPointer) => Err(PatchFailure::InvalidPointer),
        Err(json_patch::PatchError::TestFailed) => Err(PatchFailure::TestFailed),
    }
}

/// `Value::clone`: a document of its own that holds what `value` holds.
#[verifier::external_body]
pub(crate) fn copy_of(value: &Value) -> (r: Value)
    ensures
        json_text(r) == json_text(*value),
{
    value.clone()
}

/// `Value::pointer`: the part that the pointer addresses.
#[verifier::external_body]
pub(crate) fn lookup<'a>(value: &'a Value, pointer: &str) -> (r: Option<&'a Value>)
    ensures
        match r {
            Some(part) => json_pointer(json_text(*value), pointer@) == Some(json_text(*part)),
            None => json_pointer(json_text(*value), pointer@) is None,
        },
{
    value.pointer(pointer)
}

/// `serde_json::to_string` at `Value`: the compact text. Writing a `Value`
/// to a string does not fail; the empty text stands for a failure.
#[verifier::external_body]
pub(crate) fn to_text(value: &Value) -> (r: String)
    ensures
        r@ == json_text(*value),
{
    match serde_json::to_string(value) {
        Ok(text) => text,
        Err(_) => String::new(),
    }
}

/// `serde_json::to_vec_pretty` at `Value`: the indented text, as bytes.
/// Writing a `Value` to a buffer does not fail; the empty buffer stands for
/// a failure.
#[verifier::external_body]
pub(crate) fn to_pretty(value: &Value) -> (r: Vec<u8>)
    ensures
        r@ == json_pretty(json_text(*value)),
{
    match serde_json::to_vec_pretty(value) {
        Ok(bytes) => bytes,
        Err(_) => Vec::new(),
    }
}

} // verus!
