use wizards::wizard_api::WizardApi;
use wizards::wizard_responses::ResponseObject;
use wizards::wizard_service::WizardError;

#[test]
fn envelope_constructors() {
    let ok = ResponseObject::ok(5);
    assert_eq!((ok.code, ok.msg.as_str(), ok.data), (200, "OK", Some(5)));
    let m: ResponseObject<i32> = ResponseObject::message("done".to_string());
    assert_eq!((m.code, m.msg.as_str(), m.data), (200, "done", None));
    let b: ResponseObject<i32> = ResponseObject::bad_request(None);
    assert_eq!((b.code, b.msg.as_str()), (400, "Bad Request"));
    let b2: ResponseObject<i32> = ResponseObject::bad_request(Some("no file".to_string()));
    assert_eq!((b2.code, b2.msg.as_str()), (400, "no file"));
    let n: ResponseObject<i32> = ResponseObject::not_found();
    assert_eq!((n.code, n.msg.as_str(), n.data), (404, "Not Found", None));
    let e: ResponseObject<i32> = ResponseObject::internal_server_error("boom".to_string());
    assert_eq!((e.code, e.msg.as_str(), e.data), (500, "boom", None));
}

#[test]
fn replies_classify_each_error() {
    let r = WizardApi::reply(Ok::<i32, WizardError>(3));
    assert_eq!((r.code, r.data), (200, Some(3)));
    let r = WizardApi::reply::<i32>(Err(WizardError::NotFoundError));
    assert_eq!((r.code, r.msg.as_str()), (404, "Not Found"));
    let r = WizardApi::reply::<i32>(Err(WizardError::BadRequest));
    assert_eq!((r.code, r.msg.as_str()), (400, "Bad Request"));
    let r = WizardApi::reply::<i32>(Err(WizardError::StorageIoError("disk full".to_string())));
    assert_eq!((r.code, r.msg.as_str()), (500, "disk full"));
    let r = WizardApi::reply::<i32>(Err(WizardError::PersistenceError("db down".to_string())));
    assert_eq!((r.code, r.msg.as_str(), r.data), (500, "db down", None));
}

#[test]
fn delete_reply_confirms() {
    let r: ResponseObject<i32> = WizardApi::delete_reply(Ok(()));
    assert_eq!((r.code, r.msg.as_str(), r.data), (200, "Delete successful", None));
    let r: ResponseObject<i32> = WizardApi::delete_reply(Err(WizardError::NotFoundError));
    assert_eq!(r.code, 404);
}

#[test]
fn error_messages() {
    assert_eq!(WizardError::NotFoundError.message(), "Row not found!");
    assert_eq!(WizardError::BadRequest.message(), "Bad Request");
    assert_eq!(WizardError::PersistenceError("x".to_string()).message(), "x");
    assert_eq!(WizardError::StorageIoError("y".to_string()).message(), "y");
}
