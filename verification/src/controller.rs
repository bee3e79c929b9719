//! The generic controller: the fixed pipelines behind the index, edit,
//! save and delete actions, shared by every resource.
//!
//! Each action is a short pipeline with early-exit branches. The parts
//! that block — fetching rows, executing a write, rendering a view —
//! run at the application edge; this module holds every decision
//! between them, so the edge only performs what a plan says and hands
//! the outcome back.

use vstd::prelude::*;

use crate::fields::FieldCache;
use crate::fields::check_fields;
use crate::fields::spec_check_fields;
use crate::fields::spec_fields_of;
use crate::ids::check_id_list;
use crate::ids::spec_valid_id_list;
use crate::model::ModelBackend;
use crate::response::Response;
use crate::response::respond_error;
use crate::response::respond_ok;

verus! {

/// A structured predicate selecting rows for read, update or delete:
/// equality on one field, or "value in a list" for batch delete by a
/// comma-separated id string.
pub enum Condition {
    Equals(String, u64),
    InList(String, String),
}

/// What a save request comes to once the pipeline has run: rejected
/// with the validator's message, or a whitelisted data set ready for
/// the one persistence write.
pub enum SaveAction {
    Reject(String),
    Persist(Vec<(String, String)>),
}

/// First-match lookup of a URL path's breadcrumb in the process-wide
/// path-to-display mapping; an unknown path has the empty breadcrumb,
/// never an error.
pub open spec fn spec_path_label(
    breads: Seq<(Seq<char>, Seq<char>)>,
    path: Seq<char>,
) -> Seq<char>
    decreases breads.len(),
{
    if breads.len() == 0 {
        Seq::empty()
    } else if breads[0].0 == path {
        breads[0].1
    } else {
        spec_path_label(breads.skip(1), path)
    }
}

/// The controller's name is its model's stable table name.
pub fn get_controller_name<M: ModelBackend>() -> (r: String)
    ensures
        r@ == M::table_name_spec(),
{
    M::get_table_name()
}

/// The breadcrumb shown on the listing page, looked up under the
/// controller's URL path `/{controller}`.
pub fn bread_path(breads: &Vec<(String, String)>, controller_name: &String) -> (r: String)
    ensures
        r@ == spec_path_label(breads.deep_view(), "/"@ + controller_name@),
{
    let mut key: String = "/".to_owned();
    key.append(controller_name.as_str());
    let n = breads.len();
    let mut i: usize = 0;
    proof {
        assert(breads.deep_view().skip(0) =~= breads.deep_view());
    }
    while i < n
        invariant
            n == breads.len(),
            i <= n,
            key@ == "/"@ + controller_name@,
            spec_path_label(breads.deep_view(), key@) == spec_path_label(
                breads.deep_view().skip(i as int),
                key@,
            ),
        decreases n - i,
    {
        let entry = &breads[i];
        if entry.0 == key {
            proof {
                assert(breads.deep_view().skip(i as int)[0] == breads.deep_view()[i as int]);
            }
            return entry.1.clone();
        }
        proof {
            assert(breads.deep_view().skip(i as int)[0] == breads.deep_view()[i as int]);
            assert(breads.deep_view().skip(i as int).skip(1) =~= breads.deep_view().skip(
                i as int + 1,
            ));
        }
        i += 1;
    }
    proof {
        assert(breads.deep_view().skip(n as int) =~= Seq::<(Seq<char>, Seq<char>)>::empty());
    }
    String::new()
}

/// The view path of one action: `{resource}/{action}.html`.
pub fn view_file(controller_name: &String, action: &str) -> (r: String)
    ensures
        r@ == controller_name@ + "/"@ + action@ + ".html"@,
{
    let mut r = controller_name.clone();
    r.append("/");
    r.append(action);
    r.append(".html");
    r
}

/// Which record the edit form shows: id zero means "create/new" by
/// convention, never a real record id, and takes the blank default
/// without a fetch; a nonzero id is fetched by an id-equality
/// condition.
pub fn edit_plan(id: u64) -> (r: Option<Condition>)
    ensures
        id == 0 ==> r is None,
        id != 0 ==> (r matches Some(c) && c matches Condition::Equals(f, v) && f@ == "id"@
            && v == id),
{
    if id == 0 {
        Option::None
    } else {
        Option::Some(Condition::Equals("id".to_owned(), id))
    }
}

/// The permissive fallback of the edit form: a fetched row is shown as
/// it came; a missing row degrades to the blank default rather than an
/// error.
pub fn edit_record<R>(fetched: Option<R>, default: R) -> (r: R)
    ensures
        fetched matches Some(row) ==> r == row,
        fetched is None ==> r == default,
{
    match fetched {
        Option::Some(row) => row,
        Option::None => default,
    }
}

/// The edit form's record for a model: the fetched row converted to
/// the record shape, or the blank default when nothing was found.
pub fn edit_form_record<M: ModelBackend>(fetched: Option<Vec<(String, String)>>) -> (r: M::R)
    ensures
        fetched matches Some(row) ==> r == M::record_spec(row.deep_view()),
        fetched is None ==> r == M::default_spec(),
{
    match fetched {
        Option::Some(row) => M::get_record(row),
        Option::None => M::get_default(),
    }
}

/// The edit view's button label: saving an existing record, or adding
/// a new one.
pub fn button_text(id: u64) -> (r: String)
    ensures
        id != 0 ==> r@ == "保存记录"@,
        id == 0 ==> r@ == "添加记录"@,
{
    if id != 0 {
        "保存记录".to_owned()
    } else {
        "添加记录".to_owned()
    }
}

/// One save request once the model's validation has run: a rejection
/// carries the validator's message verbatim and leaves nothing to
/// persist; an accepted request carries exactly the whitelisted
/// submitted data, update mode when the id is nonzero.
pub fn save_plan(
    validation: Result<(), String>,
    cache: &FieldCache,
    table: &String,
    id: u64,
    post: Vec<(String, String)>,
) -> (r: SaveAction)
    ensures
        validation matches Err(m) ==> (r matches SaveAction::Reject(msg) && msg == m),
        validation is Ok ==> (r matches SaveAction::Persist(fields) && fields.deep_view()
            == spec_check_fields(spec_fields_of(cache@, table@), post.deep_view(), id != 0)),
{
    match validation {
        Result::Err(message) => SaveAction::Reject(message),
        Result::Ok(()) => SaveAction::Persist(check_fields(cache, table, post, id != 0)),
    }
}

/// The whole save pipeline of a model: validate, then whitelist, then
/// the pre-save hook. A validation failure rejects with the
/// validator's message and nothing reaches persistence; otherwise the
/// data to persist is the whitelisted submission run through the hook,
/// update mode exactly when the id is nonzero.
pub fn save<M: ModelBackend>(cache: &FieldCache, id: u64, post: Vec<(String, String)>) -> (r:
    SaveAction)
    ensures
        M::validate_spec(post.deep_view()) matches Err(m) ==> (r matches SaveAction::Reject(
            msg,
        ) && msg@ == m),
        M::validate_spec(post.deep_view()) is Ok ==> (r matches SaveAction::Persist(fields)
            && fields.deep_view() == M::save_before_spec(
            spec_check_fields(
                spec_fields_of(cache@, M::table_name_spec()),
                post.deep_view(),
                id != 0,
            ),
        )),
{
    let validation = M::validate(&post);
    let table = M::get_table_name();
    match save_plan(validation, cache, &table, id, post) {
        SaveAction::Reject(message) => SaveAction::Reject(message),
        SaveAction::Persist(mut fields) => {
            M::save_before(&mut fields);
            SaveAction::Persist(fields)
        },
    }
}

/// The create path's outcome: success exactly when persistence
/// returned a positive new id, else the generic create-failed message.
pub fn create_response(new_id: u64) -> (r: Response)
    ensures
        r.is_success() <==> new_id > 0,
        new_id == 0 ==> r.message() == "增加記錄失敗"@,
{
    if new_id > 0 {
        respond_ok()
    } else {
        respond_error("增加記錄失敗".to_owned())
    }
}

/// The update path's outcome: success exactly when the write touched
/// at least one row, else the generic update-failed message.
pub fn update_response(affected: u64) -> (r: Response)
    ensures
        r.is_success() <==> affected > 0,
        affected == 0 ==> r.message() == "修改記錄失敗"@,
{
    if affected > 0 {
        respond_ok()
    } else {
        respond_error("修改記錄失敗".to_owned())
    }
}

/// The delete pipeline's first half: parse the comma-separated id list
/// and build the in-list condition over the original string. The first
/// segment that fails to parse aborts with the parameter error before
/// any deletion.
pub fn delete_plan(id_strings: &String) -> (r: Result<Condition, Response>)
    ensures
        r is Ok <==> spec_valid_id_list(id_strings@),
        r matches Ok(c) ==> (c matches Condition::InList(f, v) && f@ == "id"@ && v@
            == id_strings@),
        r matches Err(resp) ==> (!resp.is_success() && resp.message() == "错误的参数"@),
{
    if check_id_list(id_strings.as_str()) {
        Result::Ok(Condition::InList("id".to_owned(), id_strings.clone()))
    } else {
        Result::Err(respond_error("错误的参数".to_owned()))
    }
}

/// The delete pipeline's second half: zero rows affected is a
/// user-visible error even though the operation itself did not fail.
pub fn delete_response(affected: u64) -> (r: Response)
    ensures
        r.is_success() <==> affected > 0,
        affected == 0 ==> r.message() == "未删除任何记录"@,
{
    if affected > 0 {
        respond_ok()
    } else {
        respond_error("未删除任何记录".to_owned())
    }
}

} // verus!
