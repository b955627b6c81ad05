//! Uniform response body: a code, a message and optional data.
use vstd::prelude::*;

verus! {

/// Response body `{ code, message, data }`; code 200 means success.
#[derive(Debug, Clone)]
pub struct SaResultData<T> {
    /// Business code, 200 for success.
    pub code: i32,
    /// Message.
    pub message: String,
    /// Payload.
    pub data: Option<T>,
}

impl<T> SaResultData<T> {
    /// Success carrying the data.
    pub fn ok(data: T) -> (r: Self)
        ensures
            r.code == 200,
            r.message@ == "ok"@,
            r.data == Some(data),
    {
        SaResultData { code: 200, message: "ok".to_owned(), data: Some(data) }
    }

    /// Success carrying the default value of the data type.
    pub fn ok_empty() -> (r: Self)
        where
            T: Default,
        ensures
            r.code == 200,
            r.message@ == "ok"@,
            r.data is Some,
    {
        SaResultData { code: 200, message: "ok".to_owned(), data: Some(T::default()) }
    }

    /// Failure with a code and a message, without data.
    pub fn error(code: i32, message: &str) -> (r: Self)
        ensures
            r.code == code,
            r.message@ == message@,
            r.data is None,
    {
        SaResultData { code, message: message.to_owned(), data: None }
    }

    /// The same body with another code.
    pub fn with_code(self, code: i32) -> (r: Self)
        ensures
            r.code == code,
            r.message == self.message,
            r.data == self.data,
    {
        SaResultData { code, message: self.message, data: self.data }
    }

    /// The same body with another message.
    pub fn with_message(self, message: &str) -> (r: Self)
        ensures
            r.code == self.code,
            r.message@ == message@,
            r.data == self.data,
    {
        SaResultData { code: self.code, message: message.to_owned(), data: self.data }
    }

    /// The same body carrying the data.
    pub fn with_data(self, data: T) -> (r: Self)
        ensures
            r.code == self.code,
            r.message == self.message,
            r.data == Some(data),
    {
        SaResultData { code: self.code, message: self.message, data: Some(data) }
    }

    /// Whether the code is 200.
    pub fn is_ok(&self) -> (r: bool)
        ensures
            r == (self.code == 200),
    {
        self.code == 200
    }
}

} // verus!
