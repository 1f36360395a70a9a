//! The names the engine derives from the name of a query.
//!
//! Camel case is the crate `heck`'s; what is said here of it is taken on
//! trust.

use vstd::prelude::*;
use vstd::string::StringExecFns;

verus! {

/// `name` in camel case, as the crate `heck` writes it: the words of `name`
/// run together, each with a capital first letter.
pub uninterp spec fn camel_case(name: Seq<char>) -> Seq<char>;

/// `heck::CamelCase::to_camel_case` on a `str`: the result is a function of
/// the characters of `name` alone, here called [`camel_case`].
#[verifier::external_body]
pub(crate) fn to_camel_case(name: &str) -> (camel: String)
    ensures
        camel@ == camel_case(name@),
{
    heck::CamelCase::to_camel_case(name)
}

/// The name of the type that stands for a query, given the query's name in
/// camel case: that name followed by `Query`.
pub fn query_type_of(camel: String) -> (name: String)
    ensures
        name@ == camel@ + "Query"@,
{
    camel.concat("Query")
}

/// The name of the type that stands for the lookup of an interned query,
/// given the query's name in camel case: that name followed by
/// `LookupQuery`.
pub fn lookup_query_type_of(camel: String) -> (name: String)
    ensures
        name@ == camel@ + "LookupQuery"@,
{
    camel.concat("LookupQuery")
}

/// The name of the type that stands for the query `fn_name`.
pub fn query_type_name(fn_name: &str) -> (name: String)
    ensures
        name@ == camel_case(fn_name@) + "Query"@,
{
    query_type_of(to_camel_case(fn_name))
}

/// The name of the type that stands for the lookup of the interned query
/// `fn_name`.
pub fn lookup_query_type_name(fn_name: &str) -> (name: String)
    ensures
        name@ == camel_case(fn_name@) + "LookupQuery"@,
{
    lookup_query_type_of(to_camel_case(fn_name))
}

/// The name of the query that looks up what the interned query `fn_name`
/// interned: `lookup_` followed by `fn_name`.
pub fn lookup_fn_name(fn_name: &str) -> (name: String)
    ensures
        name@ == "lookup_"@ + fn_name@,
{
    String::from_str("lookup_").concat(fn_name)
}

/// The name of the function that sets the input `fn_name`: `set_` followed
/// by `fn_name`.
pub fn set_fn_name(fn_name: &str) -> (name: String)
    ensures
        name@ == "set_"@ + fn_name@,
{
    String::from_str("set_").concat(fn_name)
}

/// The name of the function that sets the input `fn_name` with a given
/// durability: `set_`, then `fn_name`, then `_with_durability`.
pub fn set_with_durability_fn_name(fn_name: &str) -> (name: String)
    ensures
        name@ == "set_"@ + fn_name@ + "_with_durability"@,
{
    String::from_str("set_").concat(fn_name).concat("_with_durability")
}

/// The name of the storage struct of the query group declared by the trait
/// `trait_name`: that name followed by `GroupStorage__`.
pub fn group_storage_name(trait_name: &str) -> (name: String)
    ensures
        name@ == trait_name@ + "GroupStorage__"@,
{
    String::from_str(trait_name).concat("GroupStorage__")
}

} // verus!
