//! The envelope around every successful or failed answer.
use vstd::prelude::*;

verus! {

/// An answer: whether it succeeded, its data, and a message.
#[derive(Debug)]
pub struct ApiResponse<T> {
    pub success: bool,
    pub data: Option<T>,
    pub message: Option<String>,
}

impl<T> ApiResponse<T> {
    pub fn success(data: T) -> (r: ApiResponse<T>)
        ensures
            r.success,
            r.data == Some(data),
            r.message is None,
    {
        ApiResponse { success: true, data: Some(data), message: None }
    }

    pub fn success_with_message(data: T, message: String) -> (r: ApiResponse<T>)
        ensures
            r.success,
            r.data == Some(data),
            r.message == Some(message),
    {
        ApiResponse { success: true, data: Some(data), message: Some(message) }
    }

    pub fn error(message: String) -> (r: ApiResponse<()>)
        ensures
            !r.success,
            r.data is None,
            r.message == Some(message),
    {
        ApiResponse { success: false, data: None, message: Some(message) }
    }
}

/// A request body that has passed its checks.
#[derive(Debug)]
pub struct ValidatedJson<T>(pub T);

} // verus!
