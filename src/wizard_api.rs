use vstd::prelude::*;
use crate::wizard_responses::ResponseObject;
use crate::wizard_service::WizardError;

verus! {

/// A request to create a wizard, or to overwrite one's name, title and age.
#[derive(Debug)]
pub struct CreateWizardRequest {
    pub name: String,
    pub title: String,
    pub age: i32,
}

/// The boundary layer: turns the outcome of each operation into the reply
/// envelope.
pub struct WizardApi;

impl WizardApi {
    /// The reply for an operation that yields `result`: success carries the
    /// payload; `NotFoundError` is a 404; `BadRequest` a 400; a storage or
    /// persistence failure a 500 that carries the failure's message.
    pub fn reply<T>(result: Result<T, WizardError>) -> (r: ResponseObject<T>)
        ensures
            match result {
                Ok(v) => r.code == 200 && r.msg@ == "OK"@ && r.data == Some(v),
                Err(WizardError::NotFoundError) => r.code == 404 && r.msg@ == "Not Found"@
                    && r.data is None,
                Err(WizardError::BadRequest) => r.code == 400 && r.msg@ == "Bad Request"@
                    && r.data is None,
                Err(WizardError::StorageIoError(m)) => r.code == 500 && r.msg == m
                    && r.data is None,
                Err(WizardError::PersistenceError(m)) => r.code == 500 && r.msg == m
                    && r.data is None,
            },
    {
        match result {
            Ok(v) => ResponseObject::ok(v),
            Err(WizardError::NotFoundError) => ResponseObject::not_found(),
            Err(WizardError::BadRequest) => ResponseObject::bad_request(None),
            Err(WizardError::StorageIoError(m)) => ResponseObject::internal_server_error(m),
            Err(WizardError::PersistenceError(m)) => ResponseObject::internal_server_error(m),
        }
    }

    /// The reply for a delete: a confirmation message on success, otherwise
    /// as `reply`.
    pub fn delete_reply<T>(result: Result<(), WizardError>) -> (r: ResponseObject<T>)
        ensures
            match result {
                Ok(_) => r.code == 200 && r.msg@ == "Delete successful"@ && r.data is None,
                Err(WizardError::NotFoundError) => r.code == 404 && r.msg@ == "Not Found"@
                    && r.data is None,
                Err(WizardError::BadRequest) => r.code == 400 && r.msg@ == "Bad Request"@
                    && r.data is None,
                Err(WizardError::StorageIoError(m)) => r.code == 500 && r.msg == m
                    && r.data is None,
                Err(WizardError::PersistenceError(m)) => r.code == 500 && r.msg == m
                    && r.data is None,
            },
    {
        match result {
            Ok(()) => ResponseObject::message(String::from_str("Delete successful")),
            Err(e) => WizardApi::reply(Err(e)),
        }
    }
}

} // verus!
