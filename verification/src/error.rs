//! The conditions that end a run.

use crate::text::decimal;
use crate::text::push_decimal;
use vstd::prelude::*;
use vstd::string::*;

verus! {

/// Why a run against the member API stops.
#[derive(Debug, Clone, Copy, PartialEq, Eq, Structural)]
pub enum Error {
    /// The service answered 503, its signal for a scheduled outage.
    DownForMaintenance,
    /// The exchange succeeded but the payload was not of the success shape.
    UnknownApiResponseError,
    /// Any other client or server error status, with the status code.
    HttpStatusError(u16),
    /// A body did not parse into the shape that was asked for.
    DeserializationError,
    /// The connection failed below the HTTP layer.
    TransportError,
    /// An endpoint address could not be formed.
    UrlError,
    /// A member holds no license of the requested discipline; carries the member's identifier.
    MissingLicense(u32),
}

impl Error {
    /// The message that describes the error.
    pub open spec fn message_text(self) -> Seq<char> {
        match self {
            Error::DownForMaintenance => "iRacing is down for maintenance"@,
            Error::UnknownApiResponseError => "got invalid api response data"@,
            Error::HttpStatusError(status) => "request failed with HTTP status "@ + decimal(status as nat),
            Error::DeserializationError => "could not read the response body"@,
            Error::TransportError => "could not reach the service"@,
            Error::UrlError => "could not form the endpoint address"@,
            Error::MissingLicense(cust_id) => "no license of the requested discipline for member "@
                + decimal(cust_id as nat),
        }
    }

    /// The message that describes the error.
    pub fn message(&self) -> (message: String)
        ensures
            message@ == self.message_text(),
    {
        match self {
            Error::DownForMaintenance => "iRacing is down for maintenance".to_owned(),
            Error::UnknownApiResponseError => "got invalid api response data".to_owned(),
            Error::HttpStatusError(status) => {
                let mut message = "request failed with HTTP status ".to_owned();
                push_decimal(&mut message, *status as u64);
                message
            },
            Error::DeserializationError => "could not read the response body".to_owned(),
            Error::TransportError => "could not reach the service".to_owned(),
            Error::UrlError => "could not form the endpoint address".to_owned(),
            Error::MissingLicense(cust_id) => {
                let mut message = "no license of the requested discipline for member ".to_owned();
                push_decimal(&mut message, *cust_id as u64);
                message
            },
        }
    }
}

/// HTTP status of a service that is down for maintenance.
pub const SERVICE_UNAVAILABLE: u16 = 503;

/// True for the client and server error statuses, 400 to 599.
pub open spec fn is_error_status(status: u16) -> bool {
    400 <= status < 600
}

/// The verdict on a response's status line.
pub open spec fn classify(status: u16) -> Result<(), Error> {
    if status == SERVICE_UNAVAILABLE {
        Err(Error::DownForMaintenance)
    } else if is_error_status(status) {
        Err(Error::HttpStatusError(status))
    } else {
        Ok(())
    }
}

/// Classifies a response by its status alone, before any of its body is read.
pub fn error_check(status: u16) -> (verdict: Result<(), Error>)
    ensures
        verdict == classify(status),
        status == 503 ==> verdict == Err::<(), Error>(Error::DownForMaintenance),
        verdict is Ok <==> !is_error_status(status),
{
    if status == SERVICE_UNAVAILABLE {
        Err(Error::DownForMaintenance)
    } else if 400 <= status && status < 600 {
        Err(Error::HttpStatusError(status))
    } else {
        Ok(())
    }
}

} // verus!
