use vstd::prelude::*;

verus! {

/// The uniform envelope around every reply: a status code, a message and an
/// optional payload.
pub struct ResponseObject<T> {
    pub code: i32,
    pub msg: String,
    pub data: Option<T>,
}

impl<T> ResponseObject<T> {
    /// A successful reply carrying `data`.
    pub fn ok(data: T) -> (r: Self)
        ensures
            r.code == 200,
            r.msg@ == "OK"@,
            r.data == Some(data),
    {
        ResponseObject { code: 200, msg: String::from_str("OK"), data: Some(data) }
    }

    /// A successful reply that carries only a message.
    pub fn message(msg: String) -> (r: Self)
        ensures
            r.code == 200,
            r.msg == msg,
            r.data is None,
    {
        ResponseObject { code: 200, msg, data: None }
    }

    /// A rejected request; the message defaults to "Bad Request".
    pub fn bad_request(message: Option<String>) -> (r: Self)
        ensures
            r.code == 400,
            match message {
                Some(m) => r.msg == m,
                None => r.msg@ == "Bad Request"@,
            },
            r.data is None,
    {
        let msg = match message {
            Some(m) => m,
            None => String::from_str("Bad Request"),
        };
        ResponseObject { code: 400, msg, data: None }
    }

    /// The identified resource does not exist.
    pub fn not_found() -> (r: Self)
        ensures
            r.code == 404,
            r.msg@ == "Not Found"@,
            r.data is None,
    {
        ResponseObject { code: 404, msg: String::from_str("Not Found"), data: None }
    }

    /// An infrastructure failure, described by `msg`.
    pub fn internal_server_error(msg: String) -> (r: Self)
        ensures
            r.code == 500,
            r.msg == msg,
            r.data is None,
    {
        ResponseObject { code: 500, msg, data: None }
    }
}

} // verus!
