//! The application's error type, and turning missing values and messages into it.

use vstd::prelude::*;

verus! {

#[verifier::external_type_specification]
#[verifier::external_body]
pub struct ExIoError(std::io::Error);

#[verifier::external_type_specification]
#[verifier::external_body]
pub struct ExSerdeJsonError(serde_json::Error);

#[verifier::external_type_specification]
#[verifier::external_body]
pub struct ExOpendalError(opendal::Error);

#[verifier::external_type_specification]
#[verifier::external_body]
pub struct ExReqwestError(reqwest::Error);

#[verifier::external_type_specification]
#[verifier::external_body]
pub struct ExAnyhowError(anyhow::Error);

/// Everything that can go wrong in the client: failures of the layers below
/// (files, JSON, storage, HTTP, other), a JavaScript failure, a message, or a
/// value that was missing.
#[derive(Debug)]
pub enum CustomError {
    IO(std::io::Error),
    SerdeJson(serde_json::Error),
    JavaScript,
    Message(String),
    NoneValue,
    Opendal(opendal::Error),
    Reqwest(reqwest::Error),
    Anyhow(anyhow::Error),
}

/// Turns a value into a result with a [`CustomError`].
pub trait IntoCustomError<T>: Sized {
    fn into_custom_error(self) -> Result<T, CustomError>;
}

impl<T> IntoCustomError<T> for Option<T> {
    /// A present value is the success; a missing one is [`CustomError::NoneValue`].
    fn into_custom_error(self) -> (r: Result<T, CustomError>)
        ensures
            self matches Some(v) ==> r matches Ok(w) && w == v,
            self is None ==> r matches Err(CustomError::NoneValue),
    {
        if let Some(this) = self {
            Ok(this)
        } else {
            Err(CustomError::NoneValue)
        }
    }
}

impl IntoCustomError<()> for String {
    /// A message is always an error: [`CustomError::Message`] carrying it.
    fn into_custom_error(self) -> (r: Result<(), CustomError>)
        ensures
            r matches Err(CustomError::Message(m)) && m == self,
    {
        Err(CustomError::Message(self))
    }
}

} // verus!
