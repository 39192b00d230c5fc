use musing::model::json::{Json, Number};
use musing::model::response::Response;

fn keys(r: &Response) -> Vec<&str> {
    r.inner().iter().map(|(k, _)| k.as_str()).collect()
}

#[test]
fn ok_and_err_answers() {
    let ok = Response::new_ok();
    assert_eq!(keys(&ok), vec!["status"]);
    assert!(matches!(&ok.inner()[0].1, Json::Str(s) if s == "ok"));
    let err = Response::new_err("boom".into());
    assert_eq!(keys(&err), vec!["status", "reason"]);
    assert!(matches!(&err.inner()[1].1, Json::Str(s) if s == "boom"));
    assert!(Response::default().inner().is_empty());
    assert_eq!(keys(&Response::from_outcome(Ok(()))), vec!["status"]);
    assert_eq!(keys(&Response::from_outcome(Err("x".into()))), vec!["status", "reason"]);
}

#[test]
fn with_item_adds_or_replaces() {
    let r = Response::new_ok()
        .with_item("volume", Json::Number(Number::PosInt(50)))
        .with_item("gapless", Json::Bool(false))
        .with_item("volume", Json::Number(Number::PosInt(60)));
    assert_eq!(keys(&r), vec!["status", "volume", "gapless"]);
    assert!(matches!(r.inner()[1].1, Json::Number(Number::PosInt(60))));
}

#[test]
fn diff_keeps_only_what_changed() {
    let old = Response::new_ok()
        .with_item("volume", Json::Number(Number::PosInt(50)))
        .with_item("gapless", Json::Bool(false));
    let new = Response::new_ok()
        .with_item("volume", Json::Number(Number::PosInt(60)))
        .with_item("gapless", Json::Bool(false))
        .with_item("id", Json::Number(Number::PosInt(3)));
    let d = new.diff_with(&old);
    assert_eq!(keys(&d), vec!["volume", "id"]);
    assert!(new.diff_with(&new).inner().is_empty());
    assert_eq!(keys(&new.diff_with(&Response::default())), vec!["status", "volume", "gapless", "id"]);
}

#[test]
fn inner_mut_changes_the_fields() {
    let mut r = Response::new_ok();
    r.inner_mut().push(("x".into(), Json::Null));
    assert_eq!(keys(&r), vec!["status", "x"]);
}
