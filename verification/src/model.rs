//! The capability set a record type implements to get the generic
//! controller behavior for free.
//!
//! Separating `validate` (semantic rules) from whitelisting (the
//! structural rule that only known fields pass) from `save_before`
//! (derived values) keeps each concern independently testable and lets
//! every concrete resource reuse the same orchestration. The four
//! persistence primitives run at the application edge over a pooled
//! connection; the pipeline receives what they returned as plain
//! values, so they are not part of this capability.

use vstd::prelude::*;

verus! {

/// What one resource type brings along: its table name, field list,
/// blank record, validation rule, pre-save hook, and row conversion.
/// Each exec method is pinned to a spec function so the orchestration
/// pipeline can be verified once, for every implementation that honours
/// this contract.
pub trait ModelBackend {
    /// The record shape rendered by the listing and the edit form.
    type R;

    /// The stable table name, used as cache key and view path.
    spec fn table_name_spec() -> Seq<char>;

    fn get_table_name() -> (r: String)
        ensures
            r@ == Self::table_name_spec(),
    ;

    /// The ordered field list used to build the read query.
    spec fn fields_spec() -> Seq<Seq<char>>;

    fn get_fields() -> (r: Vec<String>)
        ensures
            r.deep_view() == Self::fields_spec(),
    ;

    /// The blank record behind an empty create form.
    spec fn default_spec() -> Self::R;

    fn get_default() -> (r: Self::R)
        ensures
            r == Self::default_spec(),
    ;

    /// Business-rule validation over the raw submitted pairs, before
    /// any field is whitelisted or persisted: accepted, or rejected
    /// with a human-readable message.
    spec fn validate_spec(post: Seq<(Seq<char>, Seq<char>)>) -> Result<(), Seq<char>>;

    fn validate(post: &Vec<(String, String)>) -> (r: Result<(), String>)
        ensures
            r is Ok <==> Self::validate_spec(post.deep_view()) is Ok,
            r matches Err(m) ==> (Self::validate_spec(post.deep_view()) matches Err(s) && m@
                == s),
    ;

    /// The pre-save transformation of already-whitelisted data (for
    /// example, hashing a password field).
    spec fn save_before_spec(fields: Seq<(Seq<char>, Seq<char>)>) -> Seq<
        (Seq<char>, Seq<char>),
    >;

    fn save_before(fields: &mut Vec<(String, String)>)
        ensures
            final(fields).deep_view() == Self::save_before_spec(old(fields).deep_view()),
    ;

    /// One persisted row, handed in as plain column pairs, turned into
    /// the display/edit record shape.
    spec fn record_spec(row: Seq<(Seq<char>, Seq<char>)>) -> Self::R;

    fn get_record(row: Vec<(String, String)>) -> (r: Self::R)
        ensures
            r == Self::record_spec(row.deep_view()),
    ;
}

} // verus!
