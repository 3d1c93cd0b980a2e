use vstd::prelude::*;

verus! {

/// The envelope every endpoint answers with: a success flag, a message for
/// humans, and an optional payload.
pub struct ApiResponse<T> {
    pub success: bool,
    pub message: String,
    pub data: Option<T>,
}

impl<T> ApiResponse<T> {
    /// A successful envelope carrying a payload.
    pub fn success(message: &str, data: T) -> (r: Self)
        ensures
            r.success == true,
            r.message@ == message@,
            r.data == Option::Some(data),
    {
        ApiResponse { success: true, message: message.to_owned(), data: Option::Some(data) }
    }

    /// A failed envelope with no payload.
    pub fn error(message: &str) -> (r: Self)
        ensures
            r.success == false,
            r.message@ == message@,
            r.data is None,
    {
        ApiResponse { success: false, message: message.to_owned(), data: Option::None }
    }
}

/// The body served when a request carries no valid credentials.
pub fn unauthorized() -> (r: ApiResponse<()>)
    ensures
        r.success == false,
        r.message@ == "Unauthorized"@,
        r.data is None,
{
    ApiResponse::error("Unauthorized")
}

/// The body served when nothing answers to the requested path.
pub fn not_found() -> (r: ApiResponse<()>)
    ensures
        r.success == false,
        r.message@ == "Resource not found"@,
        r.data is None,
{
    ApiResponse::error("Resource not found")
}

/// The body served when handling a request failed unexpectedly.
pub fn internal_error() -> (r: ApiResponse<()>)
    ensures
        r.success == false,
        r.message@ == "Internal server error"@,
        r.data is None,
{
    ApiResponse::error("Internal server error")
}

/// The body of the liveness endpoint.
pub fn health() -> (r: &'static str)
    ensures
        r@ == "OK"@,
{
    "OK"
}

} // verus!
