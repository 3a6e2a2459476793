//! The request that carries one batch to the remote service.

use vstd::prelude::*;
use vstd::string::StrSliceExecFns;

use crate::error::SyncError;
use crate::payload::{
    all_before_year_10000, all_have_local_time, payload_text, try_build_post_data,
};
use crate::solar_data::{SampleView, SolarData};

verus! {

/// One POST request: where it goes, its header lines and its body.
#[derive(Debug, Clone, PartialEq, Eq)]
pub struct UploadRequest {
    pub url: String,
    pub headers: Vec<String>,
    pub body: String,
}

/// The mathematical value of an [`UploadRequest`].
pub struct RequestView {
    pub url: Seq<char>,
    pub headers: Seq<Seq<char>>,
    pub body: Seq<char>,
}

impl View for UploadRequest {
    type V = RequestView;

    open spec fn view(&self) -> RequestView {
        RequestView { url: self.url@, headers: self.headers.deep_view(), body: self.body@ }
    }
}

impl DeepView for UploadRequest {
    type V = RequestView;

    open spec fn deep_view(&self) -> RequestView {
        self@
    }
}

/// The address of the batch service.
pub open spec fn endpoint() -> Seq<char> {
    "https://pvoutput.org/service/r2/addbatchstatus.jsp"@
}

/// The header line that names the system a batch belongs to.
pub open spec fn system_id_header(system_id: Seq<char>) -> Seq<char> {
    "X-Pvoutput-SystemId: "@ + system_id
}

/// The header line that carries the API key.
pub open spec fn api_key_header(api_key: Seq<char>) -> Seq<char> {
    "X-Pvoutput-Apikey: "@ + api_key
}

/// A value can stand in a header line: it holds no NUL character.
pub open spec fn fits_header(value: Seq<char>) -> bool {
    forall|i: int| 0 <= i < value.len() ==> value[i] != '\0'
}

/// The batch can be written as a request.
pub open spec fn can_request(
    samples: Seq<SampleView>,
    system_id: Seq<char>,
    api_key: Seq<char>,
) -> bool {
    all_have_local_time(samples) && fits_header(system_id) && fits_header(api_key)
}

/// The request for a batch.
pub open spec fn request_of(
    samples: Seq<SampleView>,
    system_id: Seq<char>,
    api_key: Seq<char>,
) -> RequestView {
    RequestView {
        url: endpoint(),
        headers: seq![system_id_header(system_id), api_key_header(api_key)],
        body: payload_text(samples),
    }
}

/// Whether `value` can stand in a header line.
pub fn check_header_value(value: &str) -> (fits: bool)
    ensures
        fits == fits_header(value@),
{
    let n: usize = value.unicode_len();
    let mut i: usize = 0;
    while i < n
        invariant
            i <= n,
            n == value@.len(),
            forall|k: int| 0 <= k < i ==> value@[k] != '\0',
        decreases n - i,
    {
        if value.get_char(i) == '\0' {
            return false;
        }
        i += 1;
    }
    true
}

/// Writes the request for a batch: the payload as body, and the two header
/// lines that identify the system and carry the API key. Fails with
/// `Protocol` where a sample has no local time or a header value holds a NUL
/// character, and only there; so it succeeds for samples taken before the
/// year 10000 and header values without NUL.
pub fn prepare_request(samples: &Vec<SolarData>, system_id: &str, api_key: &str) -> (prepared:
    Result<UploadRequest, SyncError>)
    ensures
        prepared is Ok <==> can_request(samples.deep_view(), system_id@, api_key@),
        prepared matches Ok(request) ==> request@ == request_of(
            samples.deep_view(),
            system_id@,
            api_key@,
        ),
        prepared matches Err(error) ==> error == SyncError::Protocol,
        all_before_year_10000(samples.deep_view()) && fits_header(system_id@) && fits_header(
            api_key@,
        ) ==> prepared is Ok,
{
    if !check_header_value(system_id) || !check_header_value(api_key) {
        return Err(SyncError::Protocol);
    }
    match try_build_post_data(samples) {
        None => Err(SyncError::Protocol),
        Some(body) => {
            let mut system_line = String::from_str("X-Pvoutput-SystemId: ");
            system_line.append(system_id);
            let mut key_line = String::from_str("X-Pvoutput-Apikey: ");
            key_line.append(api_key);
            let mut headers: Vec<String> = Vec::new();
            headers.push(system_line);
            headers.push(key_line);
            let url = String::from_str("https://pvoutput.org/service/r2/addbatchstatus.jsp");
            let request = UploadRequest { url, headers, body };
            assert(request@.headers == seq![
                system_id_header(system_id@),
                api_key_header(api_key@),
            ]);
            Ok(request)
        },
    }
}

} // verus!
