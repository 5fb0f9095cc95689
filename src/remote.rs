use vstd::prelude::*;
use crate::entry::SyncOperation;
use crate::text::compare_text;

verus! {

#[verifier::external_type_specification]
#[verifier::external_body]
pub struct ExJsonValue(serde_json::Value);

#[verifier::external_type_specification]
#[verifier::external_body]
pub struct ExJsonError(serde_json::Error);

/// Whether serde_json accepts the text as one JSON document.
pub uninterp spec fn json_accepts(s: Seq<char>) -> bool;

/// Relies on `serde_json::from_str`: parses the text as one JSON value and
/// succeeds or fails depending on the text alone.
#[verifier::external_body]
fn parse_json(s: &str) -> (r: Result<serde_json::Value, serde_json::Error>)
    ensures
        r.is_ok() == json_accepts(s@),
{
    serde_json::from_str(s)
}

/// Relies on the `Display` impl of `serde_json::Error`: a description of a
/// parse error.
#[verifier::external_body]
fn json_error_text(e: &serde_json::Error) -> String {
    e.to_string()
}

/// Where and how to reach the remote store.
pub struct SupabaseConfig {
    pub url: String,
    pub anon_key: String,
}

impl SupabaseConfig {
    /// A configuration exists only when both the base URL and the credential
    /// are known.
    pub fn from_values(url: Option<String>, anon_key: Option<String>) -> (r: Option<SupabaseConfig>)
        ensures
            r is Some <==> (url is Some && anon_key is Some),
            r is Some ==> r->0.url == url->0 && r->0.anon_key == anon_key->0,
    {
        match (url, anon_key) {
            (Some(url), Some(anon_key)) => Some(SupabaseConfig { url, anon_key }),
            _ => None,
        }
    }
}

#[derive(PartialEq, Eq, Structural, Clone, Copy, Debug)]
pub enum OperationKind {
    Insert,
    Update,
    Delete,
}

#[derive(PartialEq, Eq, Structural, Clone, Copy, Debug)]
pub enum MissingField {
    RecordId,
    Payload,
}

/// Why one entry could not be delivered.
#[derive(Debug)]
pub enum SyncFailure {
    /// The remote answered with a status outside 2xx; holds the response body.
    RemoteRejected { body: String },
    /// The request did not complete; holds the transport error.
    Transport { detail: String },
    /// A field that the operation needs is absent.
    MalformedEntry { missing: MissingField },
    /// The payload is not a JSON document; holds the parse error.
    InvalidPayload { detail: String },
    /// The operation is none of insert, update and delete.
    UnknownOperation { operation: String },
}

#[derive(PartialEq, Eq, Structural, Clone, Copy, Debug)]
pub enum HttpMethod {
    Post,
    Patch,
    Delete,
}

pub struct Header {
    pub name: String,
    pub value: String,
}

/// One REST call against the remote store.
pub struct RemoteRequest {
    pub method: HttpMethod,
    pub url: String,
    pub headers: Vec<Header>,
    pub body: Option<serde_json::Value>,
}

/// What came back from one REST call.
pub enum RemoteResponse {
    /// The remote answered with this status code and body text.
    Status { code: u16, body: String },
    /// The call failed before an answer arrived.
    Transport { detail: String },
}

pub open spec fn kind_of(op: Seq<char>) -> Option<OperationKind> {
    if op == "insert"@ {
        Some(OperationKind::Insert)
    } else if op == "update"@ {
        Some(OperationKind::Update)
    } else if op == "delete"@ {
        Some(OperationKind::Delete)
    } else {
        None
    }
}

/// The failure that an entry meets before any network call, if any.
pub open spec fn entry_defect(op: SyncOperation) -> Option<SyncFailure> {
    match kind_of(op.operation@) {
        None => Some(SyncFailure::UnknownOperation { operation: op.operation }),
        Some(OperationKind::Insert) => if op.data is None {
            Some(SyncFailure::MalformedEntry { missing: MissingField::Payload })
        } else {
            None
        },
        Some(OperationKind::Update) => if op.record_id is None {
            Some(SyncFailure::MalformedEntry { missing: MissingField::RecordId })
        } else if op.data is None {
            Some(SyncFailure::MalformedEntry { missing: MissingField::Payload })
        } else {
            None
        },
        Some(OperationKind::Delete) => if op.record_id is None {
            Some(SyncFailure::MalformedEntry { missing: MissingField::RecordId })
        } else {
            None
        },
    }
}

pub open spec fn method_of(kind: OperationKind) -> HttpMethod {
    match kind {
        OperationKind::Insert => HttpMethod::Post,
        OperationKind::Update => HttpMethod::Patch,
        OperationKind::Delete => HttpMethod::Delete,
    }
}

pub open spec fn collection_url(config: SupabaseConfig, table: Seq<char>) -> Seq<char> {
    config.url@ + "/rest/v1/"@ + table
}

/// The URL of the call for an entry of the given kind.
pub open spec fn url_of(kind: OperationKind, op: SyncOperation, config: SupabaseConfig) -> Seq<char> {
    match kind {
        OperationKind::Insert => collection_url(config, op.table_name@),
        _ => collection_url(config, op.table_name@) + "?id=eq."@ + op.record_id->0@,
    }
}

pub open spec fn header_pairs(hs: Seq<Header>) -> Seq<(Seq<char>, Seq<char>)> {
    hs.map_values(|h: Header| (h.name@, h.value@))
}

/// Credentials as an API key and as a bearer token, a JSON content type
/// where a body is sent, and a request for a minimal response.
pub open spec fn headers_of(kind: OperationKind, key: Seq<char>) -> Seq<(Seq<char>, Seq<char>)> {
    let auth = seq![("apikey"@, key), ("Authorization"@, "Bearer "@ + key)];
    let prefer = seq![("Prefer"@, "return=minimal"@)];
    if kind == OperationKind::Delete {
        auth + prefer
    } else {
        auth + seq![("Content-Type"@, "application/json"@)] + prefer
    }
}

/// `req` is the call for an entry without defect.
pub open spec fn request_for(op: SyncOperation, config: SupabaseConfig, req: RemoteRequest) -> bool {
    let kind = kind_of(op.operation@)->0;
    &&& req.method == method_of(kind)
    &&& req.url@ == url_of(kind, op, config)
    &&& header_pairs(req.headers@) == headers_of(kind, config.anon_key@)
    &&& (req.body is Some <==> kind != OperationKind::Delete)
}

/// The entry's payload, where its kind sends one, is a JSON document.
pub open spec fn payload_accepted(op: SyncOperation) -> bool {
    kind_of(op.operation@) == Some(OperationKind::Delete) || json_accepts(op.data->0@)
}

pub fn operation_kind(op: &str) -> (r: Option<OperationKind>)
    ensures
        r == kind_of(op@),
{
    if compare_text(op, "insert") == 0 {
        Some(OperationKind::Insert)
    } else if compare_text(op, "update") == 0 {
        Some(OperationKind::Update)
    } else if compare_text(op, "delete") == 0 {
        Some(OperationKind::Delete)
    } else {
        None
    }
}

fn header(name: &str, value: String) -> (h: Header)
    ensures
        h.name@ == name@,
        h.value@ == value@,
{
    Header { name: String::from_str(name), value }
}

/// Translates one entry into one REST call. An entry with an unknown
/// operation or without a field its operation needs fails without a call,
/// as does one whose payload is not JSON.
pub fn plan_request(op: &SyncOperation, config: &SupabaseConfig) -> (r: Result<RemoteRequest, SyncFailure>)
    ensures
        entry_defect(*op) is Some ==> r == Err::<RemoteRequest, SyncFailure>(entry_defect(*op)->0),
        entry_defect(*op) is None ==> (r is Ok <==> payload_accepted(*op)),
        entry_defect(*op) is None && !payload_accepted(*op) ==> r->Err_0 is InvalidPayload,
        r is Ok ==> request_for(*op, *config, r->Ok_0),
{
    let kind = match operation_kind(op.operation.as_str()) {
        None => {
            return Err(SyncFailure::UnknownOperation { operation: op.operation.clone() });
        },
        Some(k) => k,
    };
    let mut url: String = config.url.clone();
    url.append("/rest/v1/");
    url.append(op.table_name.as_str());
    if kind != OperationKind::Insert {
        match &op.record_id {
            None => {
                return Err(SyncFailure::MalformedEntry { missing: MissingField::RecordId });
            },
            Some(record_id) => {
                url.append("?id=eq.");
                url.append(record_id.as_str());
            },
        }
    }
    let body: Option<serde_json::Value> = if kind == OperationKind::Delete {
        None
    } else {
        match &op.data {
            None => {
                return Err(SyncFailure::MalformedEntry { missing: MissingField::Payload });
            },
            Some(data) => match parse_json(data.as_str()) {
                Ok(value) => Some(value),
                Err(e) => {
                    return Err(SyncFailure::InvalidPayload { detail: json_error_text(&e) });
                },
            },
        }
    };
    let mut bearer: String = String::from_str("Bearer ");
    bearer.append(config.anon_key.as_str());
    let mut headers: Vec<Header> = Vec::new();
    headers.push(header("apikey", config.anon_key.clone()));
    headers.push(header("Authorization", bearer));
    if kind != OperationKind::Delete {
        headers.push(header("Content-Type", String::from_str("application/json")));
    }
    headers.push(header("Prefer", String::from_str("return=minimal")));
    let method = match kind {
        OperationKind::Insert => HttpMethod::Post,
        OperationKind::Update => HttpMethod::Patch,
        OperationKind::Delete => HttpMethod::Delete,
    };
    assert(header_pairs(headers@) =~= headers_of(kind, config.anon_key@));
    Ok(RemoteRequest { method, url, headers, body })
}

/// A status code in the 2xx range.
pub open spec fn is_success(code: u16) -> bool {
    200 <= code <= 299
}

pub open spec fn outcome_spec(response: RemoteResponse) -> Result<(), SyncFailure> {
    match response {
        RemoteResponse::Status { code, body } => if is_success(code) {
            Ok(())
        } else {
            Err(SyncFailure::RemoteRejected { body })
        },
        RemoteResponse::Transport { detail } => Err(SyncFailure::Transport { detail }),
    }
}

/// The outcome of an entry from what its call brought back: success on any
/// 2xx status, else a failure that keeps the body or the transport error.
pub fn outcome_of(response: RemoteResponse) -> (r: Result<(), SyncFailure>)
    ensures
        r == outcome_spec(response),
{
    match response {
        RemoteResponse::Status { code, body } => if 200 <= code && code <= 299 {
            Ok(())
        } else {
            Err(SyncFailure::RemoteRejected { body })
        },
        RemoteResponse::Transport { detail } => Err(SyncFailure::Transport { detail }),
    }
}

/// The text recorded on a failed entry.
pub open spec fn failure_text(f: SyncFailure) -> Seq<char> {
    match f {
        SyncFailure::RemoteRejected { body } => "Remote rejected the request: "@ + body@,
        SyncFailure::Transport { detail } => detail@,
        SyncFailure::MalformedEntry { missing: MissingField::RecordId } => "No record_id for operation"@,
        SyncFailure::MalformedEntry { missing: MissingField::Payload } => "No data for operation"@,
        SyncFailure::InvalidPayload { detail } => detail@,
        SyncFailure::UnknownOperation { operation } => "Unknown operation: "@ + operation@,
    }
}

impl SyncFailure {
    /// The text recorded on a failed entry.
    pub fn describe(&self) -> (r: String)
        ensures
            r@ == failure_text(*self),
    {
        match self {
            SyncFailure::RemoteRejected { body } => {
                let mut t = String::from_str("Remote rejected the request: ");
                t.append(body.as_str());
                t
            },
            SyncFailure::Transport { detail } => detail.clone(),
            SyncFailure::MalformedEntry { missing: MissingField::RecordId } => String::from_str("No record_id for operation"),
            SyncFailure::MalformedEntry { missing: MissingField::Payload } => String::from_str("No data for operation"),
            SyncFailure::InvalidPayload { detail } => detail.clone(),
            SyncFailure::UnknownOperation { operation } => {
                let mut t = String::from_str("Unknown operation: ");
                t.append(operation.as_str());
                t
            },
        }
    }
}

/// An update or a delete without a target record fails as malformed, before
/// any call is planned for it.
pub proof fn lemma_missing_record_id_is_malformed(op: SyncOperation)
    requires
        kind_of(op.operation@) == Some(OperationKind::Update) || kind_of(op.operation@) == Some(OperationKind::Delete),
        op.record_id is None,
    ensures
        entry_defect(op) == Some(SyncFailure::MalformedEntry { missing: MissingField::RecordId }),
{
}

} // verus!
