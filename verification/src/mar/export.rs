//! Decisions of the HTTP handler that exports MAR data to local clients.
//!
//! Clients first GET the data and write it to disk; once it is safely stored,
//! they DELETE it from the staging area. The `If-Match` header of the DELETE
//! request may carry the ETag of the GET response, so that only the data
//! just read is deleted.
use vstd::prelude::*;

use crate::mar::export_format::{accepted_format, ExportFormat, ExportFormatError};
use crate::text::{chars_of, range_eq_str};

verus! {

pub const EXPORT_MAR_URL: &'static str = "/v1/export";

/// Largest MAR file offered in one export.
pub const DEFAULT_MAX_ZIP_FILE: usize = 10 * 1024 * 1024;

/// The export handler of a MAR staging directory.
pub struct MarExportHandler {
    mar_staging: String,
}

impl MarExportHandler {
    pub fn new(mar_staging: String) -> (r: Self)
        ensures
            r.mar_staging() == mar_staging@,
    {
        MarExportHandler { mar_staging }
    }

    pub closed spec fn mar_staging(&self) -> Seq<char> {
        self.mar_staging@
    }

    /// The staging directory whose entries are exported.
    pub fn staging_path(&self) -> (r: &str)
        ensures
            r@ == self.mar_staging(),
    {
        self.mar_staging.as_str()
    }
}

/// HTTP methods the handler tells apart.
#[derive(Clone, Copy, Debug, PartialEq, Eq, Structural)]
pub enum HttpMethod {
    Get,
    Delete,
    Other,
}

/// What the handler does with a request.
#[derive(Clone, Copy, Debug, PartialEq, Eq, Structural)]
pub enum ExportRoute {
    /// The request is not for the export URL.
    NotHandled,
    /// 405: neither GET nor DELETE.
    MethodNotAllowed,
    Get,
    Delete,
}

/// Routes a request by its URL and method.
pub fn route_request(url: &str, method: HttpMethod) -> (r: ExportRoute)
    ensures
        url@ != EXPORT_MAR_URL@ ==> r == ExportRoute::NotHandled,
        url@ == EXPORT_MAR_URL@ ==> r == match method {
            HttpMethod::Get => ExportRoute::Get,
            HttpMethod::Delete => ExportRoute::Delete,
            HttpMethod::Other => ExportRoute::MethodNotAllowed,
        },
{
    let v = chars_of(url);
    if !range_eq_str(&v, 0, v.len(), EXPORT_MAR_URL) {
        assert(v@.subrange(0, v@.len() as int) =~= v@);
        return ExportRoute::NotHandled;
    }
    assert(v@.subrange(0, v@.len() as int) =~= v@);
    match method {
        HttpMethod::Get => ExportRoute::Get,
        HttpMethod::Delete => ExportRoute::Delete,
        HttpMethod::Other => ExportRoute::MethodNotAllowed,
    }
}

/// The answer to a GET request.
#[derive(Clone, Copy, Debug, PartialEq, Eq, Structural)]
pub enum GetResponse {
    /// 406: the `Accept` header names no supported format.
    NotAcceptable,
    /// 204: there is nothing to export.
    NoContent,
    /// 200: the export, in the given format.
    Export(ExportFormat),
}

/// Answers a GET request, given whether an export is ready and the `Accept`
/// header of the request (`Mar` when there is none).
pub fn get_response(has_export: bool, accept_header: Option<&str>) -> (r: GetResponse)
    ensures
        r == match accept_header {
            Some(h) => match accepted_format(h@) {
                None => GetResponse::NotAcceptable,
                Some(f) => if has_export {
                    GetResponse::Export(f)
                } else {
                    GetResponse::NoContent
                },
            },
            None => if has_export {
                GetResponse::Export(ExportFormat::Mar)
            } else {
                GetResponse::NoContent
            },
        },
{
    let format = match accept_header {
        Some(header) => match ExportFormat::from_accept_header(header) {
            Ok(format) => format,
            Err(ExportFormatError::NotSupported(_)) => {
                return GetResponse::NotAcceptable;
            },
        },
        None => ExportFormat::Mar,
    };
    if has_export {
        GetResponse::Export(format)
    } else {
        GetResponse::NoContent
    }
}

/// The answer to a DELETE request.
#[derive(Clone, Copy, Debug, PartialEq, Eq, Structural)]
pub enum DeleteResponse {
    /// 404: no export was offered.
    NotFound,
    /// 412: the `If-Match` header does not name the export offered.
    PreconditionFailed,
    /// 204: delete the entries of the export offered and forget it.
    Delete,
}

/// Answers a DELETE request, given the ETag of the export offered (if one
/// was) and the `If-Match` header of the request.
pub fn delete_response(export_hash: Option<&str>, if_match: Option<&str>) -> (r: DeleteResponse)
    ensures
        r == match export_hash {
            None => DeleteResponse::NotFound,
            Some(hash) => match if_match {
                Some(m) => if m@ != hash@ {
                    DeleteResponse::PreconditionFailed
                } else {
                    DeleteResponse::Delete
                },
                None => DeleteResponse::Delete,
            },
        },
{
    match export_hash {
        None => DeleteResponse::NotFound,
        Some(hash) => match if_match {
            Some(m) => {
                let v = chars_of(m);
                assert(v@.subrange(0, v@.len() as int) =~= v@);
                if range_eq_str(&v, 0, v.len(), hash) {
                    DeleteResponse::Delete
                } else {
                    DeleteResponse::PreconditionFailed
                }
            },
            None => DeleteResponse::Delete,
        },
    }
}

} // verus!
