//! The collections in which the Soroban host hands over the milestones of a new job.
//!
//! A host vector is a handle on an object of the host that never changes, and its items are
//! values of any type: an item is checked for its type when it is read. A host that runs out of
//! the resources granted to a transaction aborts it; no contract here speaks of that.
use vstd::prelude::*;

use crate::model::decoded;

verus! {

/// `soroban_sdk::Vec`, the host's vector: opaque to the verifier.
#[verifier::external_type_specification]
#[verifier::external_body]
#[verifier::reject_recursive_types(T)]
pub struct ExHostVec<T>(soroban_sdk::Vec<T>);

/// `soroban_sdk::String`, the host's byte string: opaque to the verifier.
#[verifier::external_type_specification]
#[verifier::external_body]
pub struct ExHostString(soroban_sdk::String);

/// `soroban_sdk::Error`, which the host reports for an item that is not an `i128`.
#[verifier::external_type_specification]
#[verifier::external_body]
pub struct ExHostError(soroban_sdk::Error);

/// `soroban_sdk::ConversionError`, which the host reports for an item that is not a string.
#[verifier::external_type_specification]
#[verifier::external_body]
pub struct ExConversionError(soroban_sdk::ConversionError);

/// The items of a host vector of amounts, in order: `None` where the value at that position is
/// not an `i128`.
pub uninterp spec fn amount_items(amounts: soroban_sdk::Vec<i128>) -> Seq<Option<i128>>;

/// The bytes of a host string, in order.
pub uninterp spec fn text_items(text: soroban_sdk::String) -> Seq<u8>;

/// The items of a host vector of descriptions, in order, each as its bytes: `None` where the
/// value at that position is not a string.
pub uninterp spec fn description_items(
    descriptions: soroban_sdk::Vec<soroban_sdk::String>,
) -> Seq<Option<Seq<u8>>>;

/// Calls `soroban_sdk::Vec::len`, which returns the number of items.
#[verifier::external_body]
pub(crate) fn amounts_len(amounts: &soroban_sdk::Vec<i128>) -> (n: u32)
    ensures
        n == amount_items(*amounts).len(),
{
    amounts.len()
}

/// Calls `soroban_sdk::Vec::try_get`, which returns the item at a position, `Ok(None)` past the
/// end, and an error exactly where the value there is not an `i128`.
#[verifier::external_body]
fn amount_at(amounts: &soroban_sdk::Vec<i128>, i: u32) -> (item: Result<
    Option<i128>,
    soroban_sdk::Error,
>)
    ensures
        match item {
            Ok(Some(amount)) => i < amount_items(*amounts).len() && amount_items(*amounts)[i as int]
                == Some(amount),
            Ok(None) => i >= amount_items(*amounts).len(),
            Err(_) => i < amount_items(*amounts).len() && amount_items(*amounts)[i as int] is None,
        },
{
    amounts.try_get(i)
}

/// Calls `soroban_sdk::Vec::len`, which returns the number of items.
#[verifier::external_body]
pub(crate) fn descriptions_len(descriptions: &soroban_sdk::Vec<soroban_sdk::String>) -> (n: u32)
    ensures
        n == description_items(*descriptions).len(),
{
    descriptions.len()
}

/// Calls `soroban_sdk::Vec::try_get`, which returns the item at a position, `Ok(None)` past the
/// end, and an error exactly where the value there is not a string.
#[verifier::external_body]
fn description_at(descriptions: &soroban_sdk::Vec<soroban_sdk::String>, i: u32) -> (item: Result<
    Option<soroban_sdk::String>,
    soroban_sdk::ConversionError,
>)
    ensures
        match item {
            Ok(Some(text)) => i < description_items(*descriptions).len() && description_items(
                *descriptions,
            )[i as int] == Some(text_items(text)),
            Ok(None) => i >= description_items(*descriptions).len(),
            Err(_) => i < description_items(*descriptions).len() && description_items(
                *descriptions,
            )[i as int] is None,
        },
{
    descriptions.try_get(i)
}

/// Calls `soroban_sdk::String::to_bytes`, which converts the text into bytes with the same
/// contents, and copies them out with `soroban_sdk::Bytes::to_alloc_vec`.
#[verifier::external_body]
fn text_bytes(text: &soroban_sdk::String) -> (bytes: Vec<u8>)
    ensures
        bytes@ == text_items(*text),
{
    text.to_bytes().to_alloc_vec()
}

/// Reads the amounts up to the first item that is not an `i128`.
pub fn read_amounts(amounts: &soroban_sdk::Vec<i128>) -> (values: Vec<i128>)
    ensures
        values@ == decoded(amount_items(*amounts)),
{
    let ghost items = amount_items(*amounts);
    let n: u32 = amounts_len(amounts);
    let mut values: Vec<i128> = Vec::new();
    let mut i: u32 = 0;
    assert(items.take(0) =~= seq![]);
    while i < n
        invariant
            i <= n,
            n == items.len(),
            items == amount_items(*amounts),
            values@ == decoded(items.take(i as int)),
            values@.len() == i,
        decreases n - i,
    {
        proof {
            assert(items.take(i + 1).drop_last() =~= items.take(i as int));
        }
        match amount_at(amounts, i) {
            Ok(Some(amount)) => {
                values.push(amount);
            },
            _ => {
                proof {
                    lemma_decoded_stops(items, i as int);
                }
                return values;
            },
        }
        i = i + 1;
    }
    assert(items.take(n as int) =~= items);
    values
}

/// Reads the descriptions, as bytes, up to the first item that is not a string.
pub fn read_descriptions(descriptions: &soroban_sdk::Vec<soroban_sdk::String>) -> (values: Vec<
    Vec<u8>,
>)
    ensures
        values@.map_values(|d: Vec<u8>| d@) == decoded(description_items(*descriptions)),
{
    let ghost items = description_items(*descriptions);
    let n: u32 = descriptions_len(descriptions);
    let mut values: Vec<Vec<u8>> = Vec::new();
    let mut i: u32 = 0;
    assert(items.take(0) =~= seq![]);
    assert(values@.map_values(|d: Vec<u8>| d@) =~= seq![]);
    while i < n
        invariant
            i <= n,
            n == items.len(),
            items == description_items(*descriptions),
            values@.map_values(|d: Vec<u8>| d@) == decoded(items.take(i as int)),
            values@.len() == i,
        decreases n - i,
    {
        let ghost before = values@;
        proof {
            assert(items.take(i + 1).drop_last() =~= items.take(i as int));
        }
        match description_at(descriptions, i) {
            Ok(Some(text)) => {
                values.push(text_bytes(&text));
                assert(values@.map_values(|d: Vec<u8>| d@) =~= before.map_values(
                    |d: Vec<u8>| d@,
                ).push(items[i as int]->0));
            },
            _ => {
                proof {
                    lemma_decoded_stops(items, i as int);
                }
                return values;
            },
        }
        i = i + 1;
    }
    assert(items.take(n as int) =~= items);
    values
}

/// Nothing past an item without a value is decoded.
proof fn lemma_decoded_stops<T>(items: Seq<Option<T>>, i: int)
    requires
        0 <= i < items.len(),
        items[i] is None,
        decoded(items.take(i)).len() == i,
    ensures
        decoded(items) == decoded(items.take(i)),
    decreases items.len(),
{
    if i == items.len() - 1 {
        assert(items.drop_last() =~= items.take(i));
    } else {
        assert(items.drop_last().take(i) =~= items.take(i));
        lemma_decoded_stops(items.drop_last(), i);
    }
}

} // verus!
