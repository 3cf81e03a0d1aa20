use vstd::prelude::*;
use vstd::string::StringExecFns;
use vstd::utf8::encode_utf8;
use crate::json::{JsonValue, text, decimal, write_decimal};
use crate::model::{RegisterRequest, encodes_register};
use crate::fields::Failure;
use crate::response::{
    ApplicationResponse,
    ApplicationsResponse,
    ApplicationView,
    ApplicationsView,
    application_response_of,
    applications_response_of,
};

verus! {

/// What a call to the registry can end in, other than success.
#[derive(Debug, Clone, Copy, PartialEq, Eq, Structural)]
pub enum EurekaClientError {
    /// The registry answered "not found".
    NotFound,
    /// The registry refused a registration as a bad request.
    BadRequest,
    /// The registry failed on a registration.
    InternalServerError,
    /// The exchange failed, or the answer did not have the expected shape.
    TransportError,
    /// The base URL of the cluster does not make a valid URI.
    InvalidUrl,
}

/// Whether hyper accepts a text as a URI.
pub uninterp spec fn uri_parses(s: Seq<char>) -> bool;

/// Relies on hyper's `Uri` parser (`<hyper::Uri as FromStr>::from_str`):
/// whether it accepts the text. Its answer depends on the text alone.
#[verifier::external_body]
fn parses_as_uri(s: &str) -> (r: bool)
    ensures
        r == uri_parses(s@),
{
    s.parse::<hyper::Uri>().is_ok()
}

/// The HTTP method of a request.
#[derive(Debug, Clone, Copy, PartialEq, Eq, Structural)]
pub enum Method {
    Get,
    Post,
}

/// An HTTP request to send to the registry.
#[derive(Debug, Clone)]
pub struct HttpRequest {
    pub method: Method,
    pub uri: String,
    pub headers: Vec<(String, String)>,
    pub body: String,
}

pub open spec fn headers_view(h: Seq<(String, String)>) -> Seq<(Seq<char>, Seq<char>)> {
    h.map_values(|p: (String, String)| (p.0@, p.1@))
}

/// The headers sent with every request, for a client of this name.
pub open spec fn standard_headers(client_name: Seq<char>) -> Seq<(Seq<char>, Seq<char>)> {
    seq![
        ("Accept"@, "application/json"@),
        ("Content-Type"@, "application/json"@),
        ("Accept-Charset"@, "utf-8"@),
        ("User-Agent"@, "Rust Hyper/"@ + client_name),
    ]
}

/// How a query ends, from the status of the answer and the body read as
/// JSON then as the expected answer (`None` where the body is no JSON):
/// 404 is `NotFound`; otherwise the decoded answer, and an exchange that
/// failed where there is none.
pub open spec fn query_outcome<T>(status: u16, decoded: Option<Result<T, Failure>>) -> Result<
    T,
    EurekaClientError,
> {
    if status == 404 {
        Err(EurekaClientError::NotFound)
    } else {
        match decoded {
            Some(Ok(x)) => Ok(x),
            _ => Err(EurekaClientError::TransportError),
        }
    }
}

pub open spec fn decoded_application(body: Option<JsonValue>) -> Option<Result<ApplicationView, Failure>> {
    match body {
        Some(v) => Some(application_response_of(v)),
        None => None,
    }
}

pub open spec fn decoded_applications(body: Option<JsonValue>) -> Option<
    Result<ApplicationsView, Failure>,
> {
    match body {
        Some(v) => Some(applications_response_of(v)),
        None => None,
    }
}

/// The query for all applications branches as the query for one does: the
/// same statuses and bodies give `NotFound`, or a failed exchange for want
/// of JSON; past those each answer stands or falls with its own decoding.
pub proof fn lemma_queries_branch_alike(status: u16, body: Option<JsonValue>)
    ensures
        (query_outcome(status, decoded_application(body)) == Err::<ApplicationView, EurekaClientError>(
            EurekaClientError::NotFound,
        )) <==> (query_outcome(status, decoded_applications(body)) == Err::<
            ApplicationsView,
            EurekaClientError,
        >(EurekaClientError::NotFound)),
        status != 404 && body is None ==> query_outcome(status, decoded_application(body)) == Err::<
            ApplicationView,
            EurekaClientError,
        >(EurekaClientError::TransportError) && query_outcome(status, decoded_applications(body))
            == Err::<ApplicationsView, EurekaClientError>(EurekaClientError::TransportError),
        status != 404 && body is Some ==> (query_outcome(status, decoded_application(body)) is Ok
            <==> application_response_of(body->Some_0) is Ok),
        status != 404 && body is Some ==> (query_outcome(status, decoded_applications(body)) is Ok
            <==> applications_response_of(body->Some_0) is Ok),
{
}

/// A client of a registry cluster: the cluster's base URL and the name this
/// client gives itself.
#[derive(Debug, Clone)]
pub struct EurekaClient {
    client_name: String,
    eureka_cluster_url: String,
}

fn owned(s: &str) -> (r: String)
    ensures
        r@ == s@,
{
    String::from_str(s)
}

fn header(name: &str, value: String) -> (r: (String, String))
    ensures
        r.0@ == name@,
        r.1@ == value@,
{
    (owned(name), value)
}

impl EurekaClient {
    pub closed spec fn spec_client_name(&self) -> Seq<char> {
        self.client_name@
    }

    pub closed spec fn spec_cluster_url(&self) -> Seq<char> {
        self.eureka_cluster_url@
    }

    /// A client named `client_name` for the cluster at `eureka_cluster_url`;
    /// a base URL that does not make a valid URI with `/v2/apps` after it is
    /// refused here, before any request.
    pub fn new(client_name: &str, eureka_cluster_url: &str) -> (r: Result<
        EurekaClient,
        EurekaClientError,
    >)
        ensures
            match r {
                Ok(c) => {
                    &&& uri_parses(eureka_cluster_url@ + "/v2/apps"@)
                    &&& c.spec_client_name() == client_name@
                    &&& c.spec_cluster_url() == eureka_cluster_url@
                },
                Err(e) => !uri_parses(eureka_cluster_url@ + "/v2/apps"@) && e
                    == EurekaClientError::InvalidUrl,
            },
    {
        let client = EurekaClient {
            client_name: owned(client_name),
            eureka_cluster_url: owned(eureka_cluster_url),
        };
        let probe = client.build_uri("/v2/apps");
        if parses_as_uri(probe.as_str()) {
            Ok(client)
        } else {
            Err(EurekaClientError::InvalidUrl)
        }
    }

    pub fn client_name(&self) -> (r: &str)
        ensures
            r@ == self.spec_client_name(),
    {
        self.client_name.as_str()
    }

    pub fn eureka_cluster_url(&self) -> (r: &str)
        ensures
            r@ == self.spec_cluster_url(),
    {
        self.eureka_cluster_url.as_str()
    }

    /// The base URL followed directly by `path`.
    pub fn build_uri(&self, path: &str) -> (r: String)
        ensures
            r@ == self.spec_cluster_url() + path@,
    {
        let mut uri = self.eureka_cluster_url.clone();
        uri.append(path);
        uri
    }

    /// Appends the standard headers.
    pub fn set_headers(&self, headers: &mut Vec<(String, String)>)
        ensures
            headers_view(final(headers)@) == headers_view(old(headers)@) + standard_headers(
                self.spec_client_name(),
            ),
    {
        let ghost start = headers@;
        headers.push(header("Accept", owned("application/json")));
        headers.push(header("Content-Type", owned("application/json")));
        headers.push(header("Accept-Charset", owned("utf-8")));
        let mut agent = owned("Rust Hyper/");
        agent.append(self.client_name.as_str());
        headers.push(header("User-Agent", agent));
        assert(headers_view(headers@) =~= headers_view(start) + standard_headers(
            self.spec_client_name(),
        ));
    }

    /// The request that registers an instance of `application_id`: a POST to
    /// `/v2/apps/{application_id}` whose body is the registration as JSON,
    /// with the standard headers and the body's length in bytes.
    pub fn register(&self, application_id: &str, register_request: &RegisterRequest) -> (r:
        HttpRequest)
        ensures
            r.method == Method::Post,
            r.uri@ == self.spec_cluster_url() + "/v2/apps/"@ + application_id@,
            exists|j: JsonValue| encodes_register(j, register_request.instance@) && r.body@ == text(j),
            headers_view(r.headers@) == standard_headers(self.spec_client_name()) + seq![
                ("Content-Length"@, decimal(encode_utf8(r.body@).len() as usize as nat)),
            ],
    {
        let mut path = owned("/v2/apps/");
        path.append(application_id);
        let uri = self.build_uri(path.as_str());
        let mut headers: Vec<(String, String)> = Vec::new();
        self.set_headers(&mut headers);
        let j = register_request.to_json();
        let body = j.to_text();
        let text_body = body.as_str();
        let n = text_body.len();
        assert(n == encode_utf8(text_body@).len() as usize);
        let mut length = String::new();
        write_decimal(n as u64, &mut length);
        assert(length@ == decimal(encode_utf8(body@).len() as usize as nat));
        let ghost before = headers@;
        headers.push(header("Content-Length", length));
        assert(headers_view(headers@) =~= headers_view(before) + seq![
            ("Content-Length"@, decimal(encode_utf8(body@).len() as usize as nat)),
        ]);
        HttpRequest { method: Method::Post, uri, headers, body }
    }

    /// The outcome of a registration, from the status of the answer: 400
    /// and 500 are errors, every other status is success.
    pub fn register_result(status: u16) -> (r: Result<(), EurekaClientError>)
        ensures
            status == 400 ==> r == Err::<(), EurekaClientError>(EurekaClientError::BadRequest),
            status == 500 ==> r == Err::<(), EurekaClientError>(
                EurekaClientError::InternalServerError,
            ),
            status != 400 && status != 500 ==> r == Ok::<(), EurekaClientError>(()),
    {
        if status == 400 {
            Err(EurekaClientError::BadRequest)
        } else if status == 500 {
            Err(EurekaClientError::InternalServerError)
        } else {
            Ok(())
        }
    }

    /// The request for one application: a GET of `/v2/apps/{application_id}`
    /// with the standard headers, asking for a gzip-encoded answer.
    pub fn get_application(&self, application_id: &str) -> (r: HttpRequest)
        ensures
            r.method == Method::Get,
            r.uri@ == self.spec_cluster_url() + "/v2/apps/"@ + application_id@,
            r.body@ == Seq::<char>::empty(),
            headers_view(r.headers@) == standard_headers(self.spec_client_name()) + seq![
                ("Accept-Encoding"@, "gzip"@),
            ],
    {
        let mut path = owned("/v2/apps/");
        path.append(application_id);
        let uri = self.build_uri(path.as_str());
        let mut headers: Vec<(String, String)> = Vec::new();
        self.set_headers(&mut headers);
        let ghost before = headers@;
        headers.push(header("Accept-Encoding", owned("gzip")));
        assert(headers_view(headers@) =~= headers_view(before) + seq![("Accept-Encoding"@, "gzip"@)]);
        HttpRequest { method: Method::Get, uri, headers, body: String::new() }
    }

    /// The outcome of a query for one application, from the status of the
    /// answer and its body read as JSON (`None` where it is no JSON).
    pub fn application_result(status: u16, body: Option<JsonValue>) -> (r: Result<
        ApplicationResponse,
        EurekaClientError,
    >)
        ensures
            match r {
                Ok(x) => query_outcome(status, decoded_application(body)) == Ok::<
                    ApplicationView,
                    EurekaClientError,
                >(x.application@),
                Err(e) => query_outcome(status, decoded_application(body)) == Err::<
                    ApplicationView,
                    EurekaClientError,
                >(e),
            },
    {
        if status == 404 {
            return Err(EurekaClientError::NotFound);
        }
        match body {
            None => Err(EurekaClientError::TransportError),
            Some(v) => match ApplicationResponse::from_json(&v) {
                Ok(x) => Ok(x),
                Err(_) => Err(EurekaClientError::TransportError),
            },
        }
    }

    /// The request for all applications: a GET of `/v2/apps` with the
    /// standard headers only.
    pub fn get_applications(&self) -> (r: HttpRequest)
        ensures
            r.method == Method::Get,
            r.uri@ == self.spec_cluster_url() + "/v2/apps"@,
            r.body@ == Seq::<char>::empty(),
            headers_view(r.headers@) == standard_headers(self.spec_client_name()),
    {
        let uri = self.build_uri("/v2/apps");
        let mut headers: Vec<(String, String)> = Vec::new();
        self.set_headers(&mut headers);
        assert(headers_view(headers@) =~= standard_headers(self.spec_client_name()));
        HttpRequest { method: Method::Get, uri, headers, body: String::new() }
    }

    /// The outcome of a query for all applications, as for one application.
    pub fn applications_result(status: u16, body: Option<JsonValue>) -> (r: Result<
        ApplicationsResponse,
        EurekaClientError,
    >)
        ensures
            match r {
                Ok(x) => query_outcome(status, decoded_applications(body)) == Ok::<
                    ApplicationsView,
                    EurekaClientError,
                >(x.applications@),
                Err(e) => query_outcome(status, decoded_applications(body)) == Err::<
                    ApplicationsView,
                    EurekaClientError,
                >(e),
            },
    {
        if status == 404 {
            return Err(EurekaClientError::NotFound);
        }
        match body {
            None => Err(EurekaClientError::TransportError),
            Some(v) => match ApplicationsResponse::from_json(&v) {
                Ok(x) => Ok(x),
                Err(_) => Err(EurekaClientError::TransportError),
            },
        }
    }
}

} // verus!
