use crud_core::controller::{edit_form_record, get_controller_name, save, SaveAction};
use crud_core::fields::FieldCache;
use crud_core::model::ModelBackend;

struct Videos;

impl ModelBackend for Videos {
    type R = Vec<(String, String)>;

    fn table_name_spec() -> vstd::seq::Seq<char> {
        unreachable!()
    }

    fn fields_spec() -> vstd::seq::Seq<vstd::seq::Seq<char>> {
        unreachable!()
    }

    fn default_spec() -> Vec<(String, String)> {
        unreachable!()
    }

    fn validate_spec(
        _post: vstd::seq::Seq<(vstd::seq::Seq<char>, vstd::seq::Seq<char>)>,
    ) -> Result<(), vstd::seq::Seq<char>> {
        unreachable!()
    }

    fn save_before_spec(
        _fields: vstd::seq::Seq<(vstd::seq::Seq<char>, vstd::seq::Seq<char>)>,
    ) -> vstd::seq::Seq<(vstd::seq::Seq<char>, vstd::seq::Seq<char>)> {
        unreachable!()
    }

    fn record_spec(
        _row: vstd::seq::Seq<(vstd::seq::Seq<char>, vstd::seq::Seq<char>)>,
    ) -> Vec<(String, String)> {
        unreachable!()
    }

    fn get_table_name() -> String {
        "videos".to_string()
    }

    fn get_fields() -> Vec<String> {
        vec!["id".to_string(), "name".to_string(), "password".to_string()]
    }

    fn get_default() -> Vec<(String, String)> {
        vec![
            ("id".to_string(), "0".to_string()),
            ("name".to_string(), String::new()),
        ]
    }

    fn validate(post: &Vec<(String, String)>) -> Result<(), String> {
        for (k, v) in post {
            if k == "name" && v.is_empty() {
                return Err("名称不能为空".to_string());
            }
        }
        Ok(())
    }

    fn save_before(fields: &mut Vec<(String, String)>) {
        for (k, v) in fields.iter_mut() {
            if k == "password" {
                *v = format!("hashed:{}", v);
            }
        }
    }

    fn get_record(row: Vec<(String, String)>) -> Vec<(String, String)> {
        row
    }
}

fn meta(entries: &[(&str, &[&str])]) -> Vec<(String, Vec<String>)> {
    entries
        .iter()
        .map(|(t, fs)| (t.to_string(), fs.iter().map(|f| f.to_string()).collect()))
        .collect()
}

fn pairs(entries: &[(&str, &str)]) -> Vec<(String, String)> {
    entries
        .iter()
        .map(|(k, v)| (k.to_string(), v.to_string()))
        .collect()
}

#[test]
fn controller_name_is_the_table_name() {
    assert_eq!(get_controller_name::<Videos>(), "videos");
}

#[test]
fn save_runs_validate_whitelist_and_hook() {
    let cache = FieldCache::new(meta(&[("videos", &["id", "name", "password"])]));
    let action = save::<Videos>(
        &cache,
        0,
        pairs(&[("name", "clip"), ("password", "pw"), ("junk", "x")]),
    );
    match action {
        SaveAction::Persist(fields) => assert_eq!(
            fields,
            pairs(&[("name", "clip"), ("password", "hashed:pw")])
        ),
        SaveAction::Reject(m) => panic!("unexpected rejection: {}", m),
    }
}

#[test]
fn save_rejects_with_the_validator_message() {
    let cache = FieldCache::new(meta(&[("videos", &["id", "name"])]));
    let action = save::<Videos>(&cache, 5, pairs(&[("name", "")]));
    match action {
        SaveAction::Reject(message) => assert_eq!(message, "名称不能为空"),
        SaveAction::Persist(_) => panic!("a rejected request must not reach persistence"),
    }
}

#[test]
fn edit_form_record_falls_back_to_the_default() {
    assert_eq!(edit_form_record::<Videos>(None), Videos::get_default());
    let row = pairs(&[("id", "9"), ("name", "clip")]);
    assert_eq!(edit_form_record::<Videos>(Some(row.clone())), row);
}
