use crud_core::controller::{
    bread_path, button_text, create_response, delete_plan, delete_response, edit_plan,
    edit_record, save_plan, update_response, Condition, SaveAction,
};
use crud_core::fields::FieldCache;
use crud_core::response::Response;

fn meta(entries: &[(&str, &[&str])]) -> Vec<(String, Vec<String>)> {
    entries
        .iter()
        .map(|(t, fs)| (t.to_string(), fs.iter().map(|f| f.to_string()).collect()))
        .collect()
}

fn pairs(entries: &[(&str, &str)]) -> Vec<(String, String)> {
    entries
        .iter()
        .map(|(k, v)| (k.to_string(), v.to_string()))
        .collect()
}

#[test]
fn create_persists_only_whitelisted_fields() {
    let cache = FieldCache::new(meta(&[("videos", &["name"])]));
    let action = save_plan(
        Ok(()),
        &cache,
        &"videos".to_string(),
        0,
        pairs(&[("name", "A"), ("extra_unknown", "x")]),
    );
    match action {
        SaveAction::Persist(fields) => assert_eq!(fields, pairs(&[("name", "A")])),
        SaveAction::Reject(m) => panic!("unexpected rejection: {}", m),
    }
    match create_response(7) {
        Response::Success => {}
        Response::Failure(m) => panic!("a positive id is a success: {}", m),
    }
    match create_response(0) {
        Response::Failure(m) => assert_eq!(m, "增加記錄失敗"),
        Response::Success => panic!("id zero is not a success"),
    }
}

#[test]
fn update_rejected_by_validator_persists_nothing() {
    let cache = FieldCache::new(meta(&[("videos", &["name"])]));
    let action = save_plan(
        Err("名称不能为空".to_string()),
        &cache,
        &"videos".to_string(),
        5,
        pairs(&[("name", "")]),
    );
    match action {
        SaveAction::Reject(message) => assert_eq!(message, "名称不能为空"),
        SaveAction::Persist(_) => panic!("a rejected request must not reach persistence"),
    }
}

#[test]
fn update_zero_affected_rows_fails() {
    match update_response(1) {
        Response::Success => {}
        Response::Failure(m) => panic!("one affected row is a success: {}", m),
    }
    match update_response(0) {
        Response::Failure(m) => assert_eq!(m, "修改記錄失敗"),
        Response::Success => panic!("zero affected rows is not a success"),
    }
}

#[test]
fn edit_missing_row_falls_back_to_default() {
    match edit_plan(999) {
        Some(Condition::Equals(field, id)) => {
            assert_eq!(field, "id");
            assert_eq!(id, 999);
        }
        other => panic!("a nonzero id is fetched by equality: {:?}", other.is_none()),
    }
    let default = pairs(&[("id", "0"), ("name", "")]);
    let shown = edit_record(None, default.clone());
    assert_eq!(shown, default);
    let row = pairs(&[("id", "999"), ("name", "clip")]);
    let shown = edit_record(Some(row.clone()), default);
    assert_eq!(shown, row);
}

#[test]
fn edit_id_zero_means_create() {
    assert!(edit_plan(0).is_none());
    assert_eq!(button_text(0), "添加记录");
    assert_eq!(button_text(3), "保存记录");
}

#[test]
fn delete_malformed_list_aborts_before_deletion() {
    match delete_plan(&"1,2,x".to_string()) {
        Err(Response::Failure(m)) => assert_eq!(m, "错误的参数"),
        Err(Response::Success) => panic!("a parse error is not a success"),
        Ok(_) => panic!("'x' does not parse as a record id"),
    }
}

#[test]
fn delete_zero_rows_is_an_error() {
    match delete_plan(&"1,2".to_string()) {
        Ok(Condition::InList(field, list)) => {
            assert_eq!(field, "id");
            assert_eq!(list, "1,2");
        }
        Ok(Condition::Equals(_, _)) => panic!("batch delete uses an in-list condition"),
        Err(_) => panic!("'1,2' is a well-formed id list"),
    }
    match delete_response(0) {
        Response::Failure(m) => assert_eq!(m, "未删除任何记录"),
        Response::Success => panic!("zero deleted rows is not a success"),
    }
    match delete_response(2) {
        Response::Success => {}
        Response::Failure(m) => panic!("deleted rows are a success: {}", m),
    }
}

#[test]
fn save_dispatches_by_id() {
    let cache = FieldCache::new(meta(&[("videos", &["id", "name"])]));
    let submitted = pairs(&[("id", "5"), ("name", "clip")]);
    match save_plan(Ok(()), &cache, &"videos".to_string(), 0, submitted.clone()) {
        SaveAction::Persist(fields) => {
            assert_eq!(fields, pairs(&[("id", "5"), ("name", "clip")]))
        }
        SaveAction::Reject(m) => panic!("unexpected rejection: {}", m),
    }
    match save_plan(Ok(()), &cache, &"videos".to_string(), 5, submitted) {
        SaveAction::Persist(fields) => assert_eq!(fields, pairs(&[("name", "clip")])),
        SaveAction::Reject(m) => panic!("unexpected rejection: {}", m),
    }
}

#[test]
fn breadcrumb_and_view_paths() {
    let breads = pairs(&[("/videos", "首页 > 视频管理"), ("/admins", "首页 > 管理员")]);
    assert_eq!(bread_path(&breads, &"videos".to_string()), "首页 > 视频管理");
    assert_eq!(bread_path(&breads, &"menus".to_string()), "");
    assert_eq!(
        crud_core::controller::view_file(&"videos".to_string(), "index"),
        "videos/index.html"
    );
    assert_eq!(
        crud_core::controller::view_file(&"videos".to_string(), "edit"),
        "videos/edit.html"
    );
}
