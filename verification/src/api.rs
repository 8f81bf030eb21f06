//! The ITSM HTTP API: what each call sends and how its answer is read.
//!
//! Every endpoint is described by an [`ApiRequest`]; performing the request is
//! left to the caller, who hands the outcome back to [`call_result`] (or, for
//! the ticket listing of the scheduler, to [`fetch_status_check`] and
//! [`fetch_body`]).
use vstd::prelude::*;

use crate::json::{
    field_get, field_set, lemma_field_get_at, fields_view, items_view, lemma_array_view, lemma_object_view, or_text,
    set_field, Json, JsonV,
};
use crate::text::{cat, i64_decimal, int_decimal, owned, str_eq};

verus! {

/// Base address of the ITSM service.
pub open spec fn api_base() -> Seq<char> {
    "https://api-itsm.chinasie.com"@
}

/// The message given back when the service reports an expired or refused token.
pub open spec fn auth_expired_msg() -> Seq<char> {
    "登录已失效"@
}

/// The message given back when the service reports an expired or refused token.
pub fn auth_expired_err() -> (r: String)
    ensures
        r@ == auth_expired_msg(),
{
    owned("登录已失效")
}

/// The full address of an API path.
pub fn api_url(path: &str) -> (r: String)
    ensures
        r@ == api_base() + path@,
{
    cat("https://api-itsm.chinasie.com", path)
}

/// Whether a response says that the token was refused
/// (`{"status": "PERMISSION_NOT_PASS", ...}`).
pub open spec fn spec_permission_not_pass(v: JsonV) -> bool {
    v.str_field("status"@) == Some("PERMISSION_NOT_PASS"@)
}

/// Whether a response says that the token was refused.
pub fn is_permission_not_pass(v: &Json) -> (r: bool)
    ensures
        r == spec_permission_not_pass(v@),
{
    match v.str_field("status") {
        Some(s) => str_eq(s.as_str(), "PERMISSION_NOT_PASS"),
        None => false,
    }
}

/// The body of a request.
pub enum Body {
    /// No body: the request is a GET.
    Empty,
    /// A JSON body, sent by POST.
    Json(Json),
    /// A multipart form of text fields, sent by POST.
    Form(Vec<(String, String)>),
    /// A multipart form with one file part named `file`, sent by POST.
    File { bytes: Vec<u8>, file_name: String, mime: String },
}

/// One call of the ITSM API.
pub struct ApiRequest {
    /// Full address.
    pub url: String,
    pub body: Body,
    /// What a failure to send is reported with, in front of the error text.
    pub send_error_prefix: String,
    /// Whether a refused-token answer is turned into the expired-login error.
    pub checks_permission: bool,
}

/// How a call went, as far as the transport is concerned.
pub enum CallOutcome {
    /// The request could not be sent or answered; the error text.
    SendFailed(String),
    /// An answer came but its body was not JSON; the error text.
    Unreadable(String),
    /// The answer's JSON body.
    Body(Json),
}

/// The result of a call, given how it went.
pub open spec fn spec_call_result(
    prefix: Seq<char>,
    checks_permission: bool,
    outcome: CallOutcome,
) -> Result<JsonV, Seq<char>> {
    match outcome {
        CallOutcome::SendFailed(e) => Err(prefix + e@),
        CallOutcome::Unreadable(e) => Err("解析失败: "@ + e@),
        CallOutcome::Body(v) => if checks_permission && spec_permission_not_pass(v@) {
            Err(auth_expired_msg())
        } else {
            Ok(v@)
        },
    }
}

/// The model of a `Result<Json, String>`.
pub open spec fn result_view(r: Result<Json, String>) -> Result<JsonV, Seq<char>> {
    match r {
        Ok(v) => Ok(v@),
        Err(e) => Err(e@),
    }
}

/// What the caller of `req` gets, given how the call went.
pub fn call_result(req: &ApiRequest, outcome: CallOutcome) -> (r: Result<Json, String>)
    ensures
        result_view(r) == spec_call_result(req.send_error_prefix@, req.checks_permission, outcome),
{
    match outcome {
        CallOutcome::SendFailed(e) => Err(cat(req.send_error_prefix.as_str(), e.as_str())),
        CallOutcome::Unreadable(e) => Err(cat("解析失败: ", e.as_str())),
        CallOutcome::Body(v) => {
            if req.checks_permission && is_permission_not_pass(&v) {
                Err(auth_expired_err())
            } else {
                Ok(v)
            }
        },
    }
}

fn get_request(path: String) -> (r: ApiRequest)
    ensures
        r.url@ == api_base() + path@,
        r.body is Empty,
        r.send_error_prefix@ == "请求失败: "@,
        r.checks_permission,
{
    ApiRequest {
        url: api_url(path.as_str()),
        body: Body::Empty,
        send_error_prefix: owned("请求失败: "),
        checks_permission: true,
    }
}

fn post_request(path: &str, body: Json) -> (r: ApiRequest)
    ensures
        r.url@ == api_base() + path@,
        r.body matches Body::Json(b) && b@ == body@,
        r.send_error_prefix@ == "请求失败: "@,
        r.checks_permission,
{
    ApiRequest {
        url: api_url(path),
        body: Body::Json(body),
        send_error_prefix: owned("请求失败: "),
        checks_permission: true,
    }
}

fn multipart_request(path: &str, form: Vec<(String, String)>) -> (r: ApiRequest)
    ensures
        r.url@ == api_base() + path@,
        r.body matches Body::Form(f) && f@ == form@,
        r.send_error_prefix@ == "上传失败: "@,
        r.checks_permission,
{
    ApiRequest {
        url: api_url(path),
        body: Body::Form(form),
        send_error_prefix: owned("上传失败: "),
        checks_permission: true,
    }
}

/// Whether `r` is a GET of `path` with the usual error handling.
pub open spec fn is_get(r: ApiRequest, path: Seq<char>) -> bool {
    &&& r.url@ == api_base() + path
    &&& r.body is Empty
    &&& r.send_error_prefix@ == "请求失败: "@
    &&& r.checks_permission
}

/// Whether `r` is a JSON POST of `body` to `path` with the usual error handling.
pub open spec fn is_post(r: ApiRequest, path: Seq<char>, body: JsonV) -> bool {
    &&& r.url@ == api_base() + path
    &&& r.body matches Body::Json(b) && b@ == body
    &&& r.send_error_prefix@ == "请求失败: "@
    &&& r.checks_permission
}

/// Shorthand for a JSON string model.
pub open spec fn js(s: Seq<char>) -> JsonV {
    JsonV::Str(s)
}

/// Shorthand for an object of fields.
pub open spec fn jo(f: Seq<(Seq<char>, JsonV)>) -> JsonV {
    JsonV::Object(f)
}

/// The field `(k, v)` of an object.
pub fn fld(k: &str, v: Json) -> (r: (String, Json))
    ensures
        r.0@ == k@,
        r.1@ == v@,
{
    (owned(k), v)
}

/// An object of the given fields.
pub fn obj(f: Vec<(String, Json)>) -> (r: Json)
    ensures
        r@ == JsonV::Object(fields_view(f@)),
{
    proof {
        lemma_object_view(f);
    }
    Json::Object(f)
}

/// An array of JSON strings.
pub fn str_array(v: &[String]) -> (r: Json)
    ensures
        r@ == JsonV::Array(Seq::new(v@.len(), |i: int| JsonV::Str(v@[i]@))),
{
    let mut out: Vec<Json> = Vec::new();
    let mut i: usize = 0;
    while i < v.len()
        invariant
            i <= v@.len(),
            out@.len() == i,
            forall|j: int| 0 <= j < i ==> out@[j]@ == JsonV::Str(v@[j]@),
        decreases v@.len() - i,
    {
        out.push(Json::text(v[i].as_str()));
        i = i + 1;
    }
    proof {
        lemma_array_view(out);
        assert(items_view(out@) =~= Seq::new(v@.len(), |i: int| JsonV::Str(v@[i]@)));
    }
    Json::Array(out)
}

/// The request for the views of the logged-in account.
pub fn list_views() -> (r: ApiRequest)
    ensures
        is_get(r, "/api/itsm/incidentViewBase/findMyViewList?containCount=true&type=1"@),
{
    get_request(owned("/api/itsm/incidentViewBase/findMyViewList?containCount=true&type=1"))
}

/// Search filters of the ticket list; each is optional, and an empty text
/// counts as absent.
#[derive(Debug)]
pub struct SearchParams {
    pub code_and_subject: Option<String>,
    pub status: Option<String>,
    pub creation_date_begin: Option<String>,
    pub creation_date_end: Option<String>,
    pub contact_customer_group_name: Option<String>,
}

impl Default for SearchParams {
    fn default() -> (r: Self)
        ensures
            r.code_and_subject is None,
            r.status is None,
            r.creation_date_begin is None,
            r.creation_date_end is None,
            r.contact_customer_group_name is None,
    {
        SearchParams {
            code_and_subject: None,
            status: None,
            creation_date_begin: None,
            creation_date_end: None,
            contact_customer_group_name: None,
        }
    }
}

/// The text of a filter when it is present and not empty.
pub open spec fn filled(o: Option<String>) -> Option<Seq<char>> {
    match o {
        Some(s) => if s@.len() > 0 {
            Some(s@)
        } else {
            None
        },
        None => None,
    }
}

/// The field `(k, s)` when the filter is filled, nothing otherwise.
pub open spec fn opt_field(k: Seq<char>, o: Option<Seq<char>>) -> Seq<(Seq<char>, JsonV)> {
    match o {
        Some(s) => seq![(k, JsonV::Str(s))],
        None => seq![],
    }
}

impl SearchParams {
    /// Whether no filter is filled.
    pub open spec fn spec_is_empty(&self) -> bool {
        &&& filled(self.code_and_subject) is None
        &&& filled(self.status) is None
        &&& filled(self.creation_date_begin) is None
        &&& filled(self.creation_date_end) is None
        &&& filled(self.contact_customer_group_name) is None
    }

    /// The request fields of the filled filters, in order. The creation
    /// dates are sent only as a pair, when both are filled.
    pub open spec fn spec_fields(&self) -> Seq<(Seq<char>, JsonV)> {
        opt_field("codeAndSubject"@, filled(self.code_and_subject)) + opt_field(
            "status"@,
            filled(self.status),
        ) + match (filled(self.creation_date_begin), filled(self.creation_date_end)) {
            (Some(b), Some(e)) => seq![
                ("creationDateSearch"@, JsonV::Array(seq![JsonV::Str(b), JsonV::Str(e)])),
            ],
            _ => seq![],
        } + opt_field("contactCustomerGroupName"@, filled(self.contact_customer_group_name))
    }

    /// Whether no filter is filled.
    pub fn is_empty(&self) -> (r: bool)
        ensures
            r == self.spec_is_empty(),
    {
        blank(&self.code_and_subject) && blank(&self.status) && blank(&self.creation_date_begin)
            && blank(&self.creation_date_end) && blank(&self.contact_customer_group_name)
    }

    /// The request parameters of the filled filters (without `seachType`).
    pub fn to_params(&self) -> (r: Json)
        ensures
            r@ == JsonV::Object(self.spec_fields()),
    {
        let f = self.fields();
        obj(f)
    }

    fn fields(&self) -> (r: Vec<(String, Json)>)
        ensures
            fields_view(r@) == self.spec_fields(),
    {
        let mut m: Vec<(String, Json)> = Vec::new();
        let ghost f0 = opt_field("codeAndSubject"@, filled(self.code_and_subject));
        if let Some(s) = filled_text(&self.code_and_subject) {
            m.push(fld("codeAndSubject", Json::text(s.as_str())));
        }
        assert(fields_view(m@) =~= f0);
        let ghost f1 = f0 + opt_field("status"@, filled(self.status));
        if let Some(s) = filled_text(&self.status) {
            m.push(fld("status", Json::text(s.as_str())));
        }
        assert(fields_view(m@) =~= f1);
        let ghost f2 = f1 + match (filled(self.creation_date_begin), filled(self.creation_date_end)) {
            (Some(b), Some(e)) => seq![
                ("creationDateSearch"@, JsonV::Array(seq![JsonV::Str(b), JsonV::Str(e)])),
            ],
            _ => seq![],
        };
        let b = filled_text(&self.creation_date_begin);
        let e = filled_text(&self.creation_date_end);
        if let (Some(b), Some(e)) = (b, e) {
            let mut pair: Vec<Json> = Vec::new();
            pair.push(Json::text(b.as_str()));
            pair.push(Json::text(e.as_str()));
            proof {
                lemma_array_view(pair);
                assert(items_view(pair@) =~= seq![JsonV::Str(b@), JsonV::Str(e@)]);
            }
            m.push(fld("creationDateSearch", Json::Array(pair)));
        }
        assert(fields_view(m@) =~= f2);
        if let Some(s) = filled_text(&self.contact_customer_group_name) {
            m.push(fld("contactCustomerGroupName", Json::text(s.as_str())));
        }
        assert(fields_view(m@) =~= self.spec_fields());
        m
    }
}

fn blank(o: &Option<String>) -> (r: bool)
    ensures
        r == (filled(*o) is None),
{
    match o {
        Some(s) => s.as_str().is_empty(),
        None => true,
    }
}

fn filled_text(o: &Option<String>) -> (r: Option<String>)
    ensures
        r is None <==> filled(*o) is None,
        r matches Some(s) ==> filled(*o) == Some(s@),
{
    match o {
        Some(s) => if s.as_str().is_empty() {
            None
        } else {
            Some(owned(s.as_str()))
        },
        None => None,
    }
}

/// `f` with each field of `g`, in order, set in it.
pub open spec fn set_all(f: Seq<(Seq<char>, JsonV)>, g: Seq<(Seq<char>, JsonV)>) -> Seq<
    (Seq<char>, JsonV),
>
    decreases g.len(),
{
    if g.len() == 0 {
        f
    } else {
        set_all(field_set(f, g[0].0, g[0].1), g.drop_first())
    }
}

proof fn lemma_set_all_push(f: Seq<(Seq<char>, JsonV)>, g: Seq<(Seq<char>, JsonV)>, x: (Seq<char>, JsonV))
    ensures
        set_all(f, g.push(x)) == field_set(set_all(f, g), x.0, x.1),
    decreases g.len(),
{
    if g.len() == 0 {
        assert(g.push(x) =~= seq![x]);
        assert(seq![x].drop_first() =~= Seq::<(Seq<char>, JsonV)>::empty());
        let h = field_set(f, x.0, x.1);
        assert(set_all(h, Seq::<(Seq<char>, JsonV)>::empty()) == h);
        assert(set_all(f, g) == f);
    } else {
        assert(g.push(x).drop_first() =~= g.drop_first().push(x));
        assert(g.push(x)[0] == g[0]);
        lemma_set_all_push(field_set(f, g[0].0, g[0].1), g.drop_first(), x);
    }
}

/// The fields the search adds to the listing parameters, if any.
pub open spec fn search_fields(search: Option<&SearchParams>) -> Seq<(Seq<char>, JsonV)> {
    match search {
        Some(s) => s.spec_fields(),
        None => seq![],
    }
}

/// Sets the filled search filters in `params` (which already holds `seachType`).
pub fn merge_search(params: &mut Vec<(String, Json)>, search: Option<&SearchParams>)
    ensures
        fields_view(final(params)@) == set_all(fields_view(old(params)@), search_fields(search)),
{
    if let Some(s) = search {
        let m = s.fields();
        let ghost g = fields_view(m@);
        let ghost f0 = fields_view(params@);
        let mut i: usize = 0;
        proof {
            assert(g.subrange(0, 0) =~= Seq::<(Seq<char>, JsonV)>::empty());
        }
        while i < m.len()
            invariant
                g == fields_view(m@),
                g == s.spec_fields(),
                i <= m@.len(),
                fields_view(params@) == set_all(f0, g.subrange(0, i as int)),
            decreases m@.len() - i,
        {
            let k = owned(m[i].0.as_str());
            let v = m[i].1.deep_clone();
            set_field(params, k, v);
            proof {
                lemma_set_all_push(f0, g.subrange(0, i as int), g[i as int]);
                assert(g.subrange(0, i as int).push(g[i as int]) =~= g.subrange(0, i + 1));
            }
            i = i + 1;
        }
        proof {
            assert(g.subrange(0, m@.len() as int) =~= g);
        }
    }
}

/// The listing parameters: `seachType` followed by the search filters.
pub open spec fn listing_params(seach_type: i64, search: Option<&SearchParams>) -> Seq<
    (Seq<char>, JsonV),
> {
    set_all(seq![("seachType"@, JsonV::Int(seach_type as int))], search_fields(search))
}

/// The body of a ticket-list request.
pub open spec fn listing_body(
    page_index: int,
    page_rows: int,
    seach_type: i64,
    search: Option<&SearchParams>,
) -> JsonV {
    jo(
        seq![
            ("pageIndex"@, JsonV::Int(page_index)),
            ("pageRows"@, JsonV::Int(page_rows)),
            ("params"@, jo(listing_params(seach_type, search))),
            ("orderByBean"@, jo(seq![("attributeName"@, js(""@)), ("sortType"@, js(""@))])),
        ],
    )
}

/// A search with no filter filled sends no parameter: a listing with it
/// asks exactly what a listing without a search asks. A search that sends
/// no parameter is empty, but for a creation date given without its other
/// end.
pub proof fn lemma_empty_search_sends_nothing(
    s: SearchParams,
    page_index: int,
    page_rows: int,
    seach_type: i64,
)
    ensures
        s.spec_is_empty() ==> listing_body(page_index, page_rows, seach_type, Some(&s)) == listing_body(
            page_index,
            page_rows,
            seach_type,
            None,
        ),
        s.spec_fields().len() == 0 ==> filled(s.code_and_subject) is None && filled(s.status) is None
            && filled(s.contact_customer_group_name) is None && !(filled(s.creation_date_begin) is Some
            && filled(s.creation_date_end) is Some),
{
    if s.spec_is_empty() {
        assert(s.spec_fields() =~= seq![]);
        assert(search_fields(None) =~= seq![]);
    }
}

fn listing_body_json(page_index: i64, page_rows: i64, seach_type: i64, search: Option<&SearchParams>) -> (r: Json)
    ensures
        r@ == listing_body(page_index as int, page_rows as int, seach_type, search),
{
    let mut params: Vec<(String, Json)> = Vec::new();
    params.push(fld("seachType", Json::Int(seach_type)));
    assert(fields_view(params@) =~= seq![("seachType"@, JsonV::Int(seach_type as int))]);
    merge_search(&mut params, search);
    let mut order: Vec<(String, Json)> = Vec::new();
    order.push(fld("attributeName", Json::text("")));
    order.push(fld("sortType", Json::text("")));
    assert(fields_view(order@) =~= seq![("attributeName"@, js(""@)), ("sortType"@, js(""@))]);
    let order = obj(order);
    let params = obj(params);
    let mut b: Vec<(String, Json)> = Vec::new();
    b.push(fld("pageIndex", Json::Int(page_index)));
    b.push(fld("pageRows", Json::Int(page_rows)));
    b.push(fld("params", params));
    b.push(fld("orderByBean", order));
    assert(fields_view(b@) =~= seq![
        ("pageIndex"@, JsonV::Int(page_index as int)),
        ("pageRows"@, JsonV::Int(page_rows as int)),
        ("params"@, jo(listing_params(seach_type, search))),
        ("orderByBean"@, jo(seq![("attributeName"@, js(""@)), ("sortType"@, js(""@))])),
    ]);
    obj(b)
}

/// Path of the ticket listing.
pub open spec fn find_pagination_path() -> Seq<char> {
    "/api/itsm/incidentService/find-pagination"@
}

/// The request for the first 200 tickets of a view.
pub fn list_tickets(seach_type: i64, search: Option<&SearchParams>) -> (r: ApiRequest)
    ensures
        is_post(r, find_pagination_path(), listing_body(1, 200, seach_type, search)),
{
    post_request(
        "/api/itsm/incidentService/find-pagination",
        listing_body_json(1, 200, seach_type, search),
    )
}

/// The request for the fields of one ticket.
pub fn get_detail(id: &str) -> (r: ApiRequest)
    ensures
        is_get(r, "/api/itsm/incidentService/get-with-fields?id="@ + id@),
{
    get_request(cat("/api/itsm/incidentService/get-with-fields?id=", id))
}

/// The request for the replies of one ticket.
pub fn list_replies(incident_id: &str) -> (r: ApiRequest)
    ensures
        is_get(r, "/api/itsm/incidentService/find-replyList?incidentId="@ + incident_id@),
{
    get_request(cat("/api/itsm/incidentService/find-replyList?incidentId=", incident_id))
}

/// A form of one text field.
fn form1(k: &str, v: &str) -> (r: Vec<(String, String)>)
    ensures
        r@.len() == 1,
        r@[0].0@ == k@ && r@[0].1@ == v@,
{
    let mut f: Vec<(String, String)> = Vec::new();
    f.push((owned(k), owned(v)));
    f
}

/// The request that takes a ticket: a form `{id}` whose answer is not
/// checked for a refused token.
pub fn claim(id: &str) -> (r: ApiRequest)
    ensures
        r.url@ == api_base() + "/api/itsm/incidentService/snatch-order"@,
        r.body matches Body::Form(f) && f@.len() == 1 && f@[0].0@ == "id"@ && f@[0].1@ == id@,
        r.send_error_prefix@ == "接单失败: "@,
        !r.checks_permission,
{
    ApiRequest {
        url: api_url("/api/itsm/incidentService/snatch-order"),
        body: Body::Form(form1("id", id)),
        send_error_prefix: owned("接单失败: "),
        checks_permission: false,
    }
}

/// A file that was uploaded.
#[derive(Debug)]
pub struct UploadResult {
    pub file_id: String,
    pub file_path: String,
    pub file_name: String,
}

/// The request that uploads one attachment (`bizId` left empty).
pub fn upload_attachment(bytes: Vec<u8>, file_name: &str, mime: &str) -> (r: ApiRequest)
    ensures
        r.url@ == api_base() + "/api/file/iot-base-attachment/single/file-upload?bizId="@,
        r.body matches Body::File { bytes: b, file_name: n, mime: m } && b@ == bytes@ && n@
            == file_name@ && m@ == mime@,
        r.send_error_prefix@ == "上传失败: "@,
        r.checks_permission,
{
    ApiRequest {
        url: api_url("/api/file/iot-base-attachment/single/file-upload?bizId="),
        body: Body::File { bytes, file_name: owned(file_name), mime: owned(mime) },
        send_error_prefix: owned("上传失败: "),
        checks_permission: true,
    }
}

/// What an upload answer gives: the file, or the error message.
pub open spec fn spec_parse_upload(v: JsonV) -> Result<(Seq<char>, Seq<char>, Seq<char>), Seq<char>> {
    let code = match v.int_field("code"@) {
        Some(c) => c,
        None => 0,
    };
    if code != 800 {
        Err("上传失败: "@ + or_text(v.str_field("msg"@), ""@))
    } else {
        match v.get("data"@) {
            None => Err("上传响应缺 data"@),
            Some(d) => match d.str_field("fileId"@) {
                None => Err("上传响应缺 fileId"@),
                Some(id) => match d.str_field("filePath"@) {
                    None => Err("上传响应缺 filePath"@),
                    Some(p) => Ok((id, p, or_text(d.str_field("sourceFileName"@), ""@))),
                },
            },
        }
    }
}

/// Reads an upload answer; success is code 800.
pub fn parse_upload_response(v: &Json) -> (r: Result<UploadResult, String>)
    ensures
        match r {
            Ok(u) => spec_parse_upload(v@) == Ok::<_, Seq<char>>((u.file_id@, u.file_path@, u.file_name@)),
            Err(e) => spec_parse_upload(v@) == Err::<(Seq<char>, Seq<char>, Seq<char>), _>(e@),
        },
{
    let code = match v.int_field("code") {
        Some(c) => c,
        None => 0,
    };
    if code != 800 {
        let msg = match v.str_field("msg") {
            Some(m) => m,
            None => owned(""),
        };
        return Err(cat("上传失败: ", msg.as_str()));
    }
    let data = match v.get("data") {
        Some(d) => d,
        None => return Err(owned("上传响应缺 data")),
    };
    let file_id = match data.str_field("fileId") {
        Some(s) => s,
        None => return Err(owned("上传响应缺 fileId")),
    };
    let file_path = match data.str_field("filePath") {
        Some(s) => s,
        None => return Err(owned("上传响应缺 filePath")),
    };
    let file_name = match data.str_field("sourceFileName") {
        Some(s) => s,
        None => owned(""),
    };
    Ok(UploadResult { file_id, file_path, file_name })
}

/// The body of a reply.
pub open spec fn spec_reply_body(
    order_id: Seq<char>,
    detail_html: Seq<char>,
    file_ids: Seq<Seq<char>>,
    is_private: bool,
    order_type: Seq<char>,
) -> JsonV {
    jo(
        seq![
            (
                "params"@,
                jo(
                    seq![
                        ("orderId"@, js(order_id)),
                        ("profile"@, js(""@)),
                        ("fileIds"@, JsonV::Array(Seq::new(file_ids.len(), |i: int| js(file_ids[i])))),
                        ("orderType"@, js(order_type)),
                        ("detail"@, js(detail_html)),
                        ("isPrivate"@, JsonV::Int(if is_private { 1 } else { 0 })),
                        ("operationSource"@, js("ITSM_DEVOPS"@)),
                        ("replyType"@, JsonV::Int(1)),
                    ],
                ),
            ),
        ],
    )
}

/// The models of a list of strings.
pub open spec fn texts(v: Seq<String>) -> Seq<Seq<char>> {
    Seq::new(v.len(), |i: int| v[i]@)
}

/// A reply goes to the ticket `order_id` and carries the given content,
/// attachments, privacy and ticket type, each under its own name in
/// `params`.
pub proof fn lemma_reply_body_fields(
    order_id: Seq<char>,
    detail_html: Seq<char>,
    file_ids: Seq<Seq<char>>,
    is_private: bool,
    order_type: Seq<char>,
)
    ensures
        ({
            let p = spec_reply_body(order_id, detail_html, file_ids, is_private, order_type).get(
                "params"@,
            );
            &&& p is Some
            &&& p->0.get("orderId"@) == Some(js(order_id))
            &&& p->0.get("orderType"@) == Some(js(order_type))
            &&& p->0.get("detail"@) == Some(js(detail_html))
            &&& p->0.get("isPrivate"@) == Some(JsonV::Int(if is_private { 1 } else { 0 }))
            &&& p->0.get("fileIds"@) == Some(
                JsonV::Array(Seq::new(file_ids.len(), |i: int| js(file_ids[i]))),
            )
        }),
{
    let b = spec_reply_body(order_id, detail_html, file_ids, is_private, order_type);
    reveal_strlit("orderId");
    reveal_strlit("profile");
    reveal_strlit("fileIds");
    reveal_strlit("orderType");
    reveal_strlit("detail");
    reveal_strlit("isPrivate");
    reveal_strlit("operationSource");
    reveal_strlit("replyType");
    reveal_strlit("params");
    if let JsonV::Object(outer) = b {
        lemma_field_get_at(outer, 0, "params"@);
        if let JsonV::Object(f) = outer[0].1 {
            lemma_field_get_at(f, 0, "orderId"@);
            assert("orderId"@[0] != "fileIds"@[0]);
            assert("profile"@[0] != "fileIds"@[0]);
            lemma_field_get_at(f, 2, "fileIds"@);
            assert("orderId"@.len() != "orderType"@.len());
            assert("profile"@.len() != "orderType"@.len());
            assert("fileIds"@.len() != "orderType"@.len());
            lemma_field_get_at(f, 3, "orderType"@);
            assert("orderId"@.len() != "detail"@.len());
            assert("profile"@.len() != "detail"@.len());
            assert("fileIds"@.len() != "detail"@.len());
            assert("orderType"@.len() != "detail"@.len());
            lemma_field_get_at(f, 4, "detail"@);
            assert("orderId"@.len() != "isPrivate"@.len());
            assert("profile"@.len() != "isPrivate"@.len());
            assert("fileIds"@.len() != "isPrivate"@.len());
            assert("orderType"@[0] != "isPrivate"@[0]);
            assert("detail"@.len() != "isPrivate"@.len());
            lemma_field_get_at(f, 5, "isPrivate"@);
        }
    }
}

/// The body of a reply to a ticket.
pub fn reply_body(
    order_id: &str,
    detail_html: &str,
    file_ids: &[String],
    is_private: bool,
    order_type: &str,
) -> (r: Json)
    ensures
        r@ == spec_reply_body(order_id@, detail_html@, texts(file_ids@), is_private, order_type@),
{
    let mut p: Vec<(String, Json)> = Vec::new();
    p.push(fld("orderId", Json::text(order_id)));
    p.push(fld("profile", Json::text("")));
    p.push(fld("fileIds", str_array(file_ids)));
    p.push(fld("orderType", Json::text(order_type)));
    p.push(fld("detail", Json::text(detail_html)));
    p.push(fld("isPrivate", Json::Int(if is_private { 1 } else { 0 })));
    p.push(fld("operationSource", Json::text("ITSM_DEVOPS")));
    p.push(fld("replyType", Json::Int(1)));
    let ghost ids = texts(file_ids@);
    proof {
        assert(Seq::new(file_ids@.len(), |i: int| JsonV::Str(file_ids@[i]@)) =~= Seq::new(
            ids.len(),
            |i: int| js(ids[i]),
        ));
    }
    let ghost inner = seq![
        ("orderId"@, js(order_id@)),
        ("profile"@, js(""@)),
        ("fileIds"@, JsonV::Array(Seq::new(ids.len(), |i: int| js(ids[i])))),
        ("orderType"@, js(order_type@)),
        ("detail"@, js(detail_html@)),
        ("isPrivate"@, JsonV::Int(if is_private { 1 } else { 0 })),
        ("operationSource"@, js("ITSM_DEVOPS"@)),
        ("replyType"@, JsonV::Int(1)),
    ];
    assert(fields_view(p@) =~= inner);
    let p = obj(p);
    let mut b: Vec<(String, Json)> = Vec::new();
    b.push(fld("params", p));
    assert(fields_view(b@) =~= seq![("params"@, jo(inner))]);
    obj(b)
}

/// The request that replies to a ticket.
pub fn reply(
    order_id: &str,
    detail_html: &str,
    file_ids: &[String],
    is_private: bool,
    order_type: &str,
) -> (r: ApiRequest)
    ensures
        is_post(
            r,
            "/api/itsm/incidentService/order-reply"@,
            spec_reply_body(order_id@, detail_html@, texts(file_ids@), is_private, order_type@),
        ),
{
    post_request(
        "/api/itsm/incidentService/order-reply",
        reply_body(order_id, detail_html, file_ids, is_private, order_type),
    )
}


/// Path of a ticket's fields.
pub open spec fn detail_path(id: Seq<char>) -> Seq<char> {
    "/api/itsm/incidentService/get-with-fields?id="@ + id
}

/// The first step of a status change: the request that reads the ticket.
pub fn change_status(id: &str) -> (r: ApiRequest)
    ensures
        is_get(r, detail_path(id@)),
{
    get_detail(id)
}

/// The fields of a ticket after a status change to `status` with the text
/// `content`; a resolution also sets the resolved-state fields.
pub open spec fn status_fields(
    f: Seq<(Seq<char>, JsonV)>,
    status: Seq<char>,
    content: Seq<char>,
    is_resolve: bool,
) -> Seq<(Seq<char>, JsonV)> {
    let g = field_set(field_set(f, "status"@, js(status)), "solution"@, js(content));
    if is_resolve {
        field_set(
            field_set(
                field_set(field_set(g, "statusName"@, js("已解决"@)), "endCode"@, js("1"@)),
                "accountability"@,
                js("3"@),
            ),
            "statusIndex"@,
            JsonV::Int(3),
        )
    } else {
        g
    }
}

/// The update that a status change sends, given the ticket as read; or the
/// error when the answer holds no ticket object.
pub open spec fn spec_status_update(
    detail: JsonV,
    status: Seq<char>,
    content: Seq<char>,
    is_resolve: bool,
) -> Result<JsonV, Seq<char>> {
    match detail.get("data"@) {
        None => Err("未取到工单数据"@),
        Some(JsonV::Object(f)) => Ok(
            jo(seq![("params"@, jo(status_fields(f, status, content, is_resolve)))]),
        ),
        Some(_) => Err("工单数据格式异常"@),
    }
}

/// The second step of a status change: the update request built from the
/// ticket as read (`detail` is the answer of [`change_status`]).
pub fn change_status_update(detail: &Json, status: &str, content: &str, is_resolve: bool) -> (r:
    Result<ApiRequest, String>)
    ensures
        match spec_status_update(detail@, status@, content@, is_resolve) {
            Ok(b) => r matches Ok(req) && is_post(req, "/api/itsm/incidentService/update"@, b),
            Err(e) => r matches Err(m) && m@ == e,
        },
{
    let data = match detail.get("data") {
        Some(d) => d.deep_clone(),
        None => return Err(owned("未取到工单数据")),
    };
    let ghost dv = data@;
    let mut f = match data {
        Json::Object(f) => {
            proof {
                lemma_object_view(f);
            }
            f
        },
        _ => return Err(owned("工单数据格式异常")),
    };
    let ghost f0 = fields_view(f@);
    assert(dv == JsonV::Object(f0));
    set_field(&mut f, owned("status"), Json::text(status));
    set_field(&mut f, owned("solution"), Json::text(content));
    if is_resolve {
        set_field(&mut f, owned("statusName"), Json::text("已解决"));
        set_field(&mut f, owned("endCode"), Json::text("1"));
        set_field(&mut f, owned("accountability"), Json::text("3"));
        set_field(&mut f, owned("statusIndex"), Json::Int(3));
    }
    let inner = obj(f);
    let mut b: Vec<(String, Json)> = Vec::new();
    b.push(fld("params", inner));
    let ghost fs = status_fields(f0, status@, content@, is_resolve);
    assert(fields_view(f@) == fs);
    assert(fields_view(b@) =~= seq![("params"@, jo(fs))]);
    Ok(post_request("/api/itsm/incidentService/update", obj(b)))
}

/// The request for the three-level service catalogue.
pub fn list_service_tree() -> (r: ApiRequest)
    ensures
        is_get(
            r,
            "/api/bussconfig/service-config/findServiceTypeTree2?filterPermission=false&status=0&type=1"@,
        ),
{
    get_request(
        owned(
            "/api/bussconfig/service-config/findServiceTypeTree2?filterPermission=false&status=0&type=1",
        ),
    )
}

/// The request for the back-fill template of a catalogue leaf.
pub fn get_replenish_template(leaf_id: &str) -> (r: ApiRequest)
    ensures
        is_get(r, "/api/bussconfig/service-config/template/replenish?id="@ + leaf_id@),
{
    get_request(cat("/api/bussconfig/service-config/template/replenish?id=", leaf_id))
}

/// The request for a dictionary of a tenant.
pub fn get_dict(tenant_id: &str, dic_type: &str) -> (r: ApiRequest)
    ensures
        is_get(
            r,
            "/dictionary/dic-items/get-dictype-notoken?dicType="@ + dic_type@ + "&tenantId="@
                + tenant_id@,
        ),
{
    let mut p = cat("/dictionary/dic-items/get-dictype-notoken?dicType=", dic_type);
    p.append("&tenantId=");
    p.append(tenant_id);
    get_request(p)
}

/// An object of one field.
fn obj1(k: &str, v: Json) -> (r: Json)
    ensures
        r@ == jo(seq![(k@, v@)]),
{
    let mut b: Vec<(String, Json)> = Vec::new();
    b.push(fld(k, v));
    assert(fields_view(b@) =~= seq![(k@, v@)]);
    obj(b)
}

/// An object of two fields.
fn obj2(k1: &str, v1: Json, k2: &str, v2: Json) -> (r: Json)
    ensures
        r@ == jo(seq![(k1@, v1@), (k2@, v2@)]),
{
    let mut b: Vec<(String, Json)> = Vec::new();
    b.push(fld(k1, v1));
    b.push(fld(k2, v2));
    assert(fields_view(b@) =~= seq![(k1@, v1@), (k2@, v2@)]);
    obj(b)
}

/// The request for all active support groups.
pub fn list_support_groups() -> (r: ApiRequest)
    ensures
        is_post(
            r,
            "/api/bussconfig/support-group/find-list"@,
            jo(seq![("params"@, jo(seq![("groupState"@, JsonV::Int(0))]))]),
        ),
{
    post_request(
        "/api/bussconfig/support-group/find-list",
        obj1("params", obj1("groupState", Json::Int(0))),
    )
}

/// The request for the members of all support groups.
pub fn list_support_members() -> (r: ApiRequest)
    ensures
        is_post(
            r,
            "/api/bussconfig/support-group-member/find-alllist"@,
            jo(seq![("params"@, jo(seq![]))]),
        ),
{
    let empty: Vec<(String, Json)> = Vec::new();
    assert(fields_view(empty@) =~= seq![]);
    post_request("/api/bussconfig/support-group-member/find-alllist", obj1("params", obj(empty)))
}

/// The body of a paged keyword search: first page of 20, with the fields.
pub open spec fn keyword_search_body(params: Seq<(Seq<char>, JsonV)>) -> JsonV {
    jo(
        seq![
            ("pageIndex"@, JsonV::Int(1)),
            ("pageRows"@, JsonV::Int(20)),
            ("params"@, jo(params)),
        ],
    )
}

/// A keyword search asks for the first 20 hits, with its filters under
/// `params`: the body has exactly the fields `pageIndex` (1), `pageRows`
/// (20) and `params`, and `params` is the object of the filters. For the
/// customer-group search the filters are `groupState` "0" and the name,
/// for the people search `useState` "0" and the name.
pub proof fn lemma_keyword_search_body(params: Seq<(Seq<char>, JsonV)>, keyword: Seq<char>)
    ensures
        keyword_search_body(params) matches JsonV::Object(f) && f.len() == 3,
        keyword_search_body(params).get("pageIndex"@) == Some(JsonV::Int(1)),
        keyword_search_body(params).get("pageRows"@) == Some(JsonV::Int(20)),
        keyword_search_body(params).get("params"@) == Some(JsonV::Object(params)),
        params == seq![("groupState"@, js("0"@)), ("customerGroupName"@, js(keyword))] ==> keyword_search_body(
            params,
        ).get("params"@)->0.get("customerGroupName"@) == Some(js(keyword)),
        params == seq![("useState"@, js("0"@)), ("psnName"@, js(keyword))] ==> keyword_search_body(
            params,
        ).get("params"@)->0.get("psnName"@) == Some(js(keyword)),
{
    reveal_strlit("pageIndex");
    reveal_strlit("pageRows");
    reveal_strlit("params");
    if let JsonV::Object(f) = keyword_search_body(params) {
        lemma_field_get_at(f, 0, "pageIndex"@);
        assert("pageIndex"@.len() != "pageRows"@.len());
        lemma_field_get_at(f, 1, "pageRows"@);
        assert("pageIndex"@.len() != "params"@.len());
        assert("pageRows"@.len() != "params"@.len());
        lemma_field_get_at(f, 2, "params"@);
    }
    reveal_strlit("groupState");
    reveal_strlit("customerGroupName");
    reveal_strlit("useState");
    reveal_strlit("psnName");
    if params == seq![("groupState"@, js("0"@)), ("customerGroupName"@, js(keyword))] {
        assert("groupState"@.len() != "customerGroupName"@.len());
        lemma_field_get_at(params, 1, "customerGroupName"@);
    }
    if params == seq![("useState"@, js("0"@)), ("psnName"@, js(keyword))] {
        assert("useState"@.len() != "psnName"@.len());
        lemma_field_get_at(params, 1, "psnName"@);
    }
}

fn keyword_search_json(k1: &str, v1: &str, k2: &str, kw: &str) -> (r: Json)
    ensures
        r@ == keyword_search_body(seq![(k1@, js(v1@)), (k2@, js(kw@))]),
{
    let params = obj2(k1, Json::text(v1), k2, Json::text(kw));
    let mut b: Vec<(String, Json)> = Vec::new();
    b.push(fld("pageIndex", Json::Int(1)));
    b.push(fld("pageRows", Json::Int(20)));
    b.push(fld("params", params));
    assert(fields_view(b@) =~= seq![
        ("pageIndex"@, JsonV::Int(1)),
        ("pageRows"@, JsonV::Int(20)),
        ("params"@, jo(seq![(k1@, js(v1@)), (k2@, js(kw@))])),
    ]);
    obj(b)
}

/// The request searching customer groups by name (an empty keyword lists the first page).
pub fn search_customer_groups(keyword: &str) -> (r: ApiRequest)
    ensures
        is_post(
            r,
            "/api/bussconfig/customer-group/find-pagination"@,
            keyword_search_body(
                seq![("groupState"@, js("0"@)), ("customerGroupName"@, js(keyword@))],
            ),
        ),
{
    post_request(
        "/api/bussconfig/customer-group/find-pagination",
        keyword_search_json("groupState", "0", "customerGroupName", keyword),
    )
}

/// The request searching people by name (an empty keyword lists the first page).
pub fn search_base_persons(keyword: &str) -> (r: ApiRequest)
    ensures
        is_post(
            r,
            "/api/base/base-person/find-pagination-all"@,
            keyword_search_body(seq![("useState"@, js("0"@)), ("psnName"@, js(keyword@))]),
        ),
{
    post_request(
        "/api/base/base-person/find-pagination-all",
        keyword_search_json("useState", "0", "psnName", keyword),
    )
}

/// The request that files a back-filled ticket from the full form `params`.
pub fn save_replenish(params: Json) -> (r: ApiRequest)
    ensures
        is_post(r, "/api/itsm/incidentService/save"@, jo(seq![("params"@, params@)])),
{
    post_request("/api/itsm/incidentService/save", obj1("params", params))
}

/// The request that hands a ticket over, from the form `params`.
pub fn reassign(params: Json) -> (r: ApiRequest)
    ensures
        is_post(r, "/api/itsm/incident-bpm/order-reply"@, jo(seq![("params"@, params@)])),
{
    post_request("/api/itsm/incident-bpm/order-reply", obj1("params", params))
}

/// Whether `r` is the request that suspends or resumes the ticket `id`:
/// a form `{id, optionType, detail}` posted to the suspend-or-unhang
/// endpoint, with upload errors and the refused-token check.
pub open spec fn is_suspend_or_unhang(
    r: ApiRequest,
    id: Seq<char>,
    option_type: Seq<char>,
    detail: Seq<char>,
) -> bool {
    &&& r.url@ == api_base() + "/api/itsm/incidentService/suspend-or-unhang"@
    &&& r.body matches Body::Form(f) && f@.len() == 3 && f@[0].0@ == "id"@ && f@[0].1@ == id
        && f@[1].0@ == "optionType"@ && f@[1].1@ == option_type && f@[2].0@ == "detail"@
        && f@[2].1@ == detail
    &&& r.send_error_prefix@ == "上传失败: "@
    &&& r.checks_permission
}

/// The request that suspends (`option_type` = `suspend`) or resumes
/// (`unhang`) a ticket: a form `{id, optionType, detail}`.
pub fn suspend_or_unhang(id: &str, option_type: &str, detail: &str) -> (r: ApiRequest)
    ensures
        is_suspend_or_unhang(r, id@, option_type@, detail@),
{
    let mut f: Vec<(String, String)> = Vec::new();
    f.push((owned("id"), owned(id)));
    f.push((owned("optionType"), owned(option_type)));
    f.push((owned("detail"), owned(detail)));
    multipart_request("/api/itsm/incidentService/suspend-or-unhang", f)
}

/// The request that cancels a ticket; its body is not wrapped in `params`.
pub fn cancel_incident(incident_id: &str, reason: &str) -> (r: ApiRequest)
    ensures
        is_post(
            r,
            "/api/itsm/incidentAction/delete-incident"@,
            jo(seq![("incidentId"@, js(incident_id@)), ("operationReason"@, js(reason@))]),
        ),
{
    post_request(
        "/api/itsm/incidentAction/delete-incident",
        obj2("incidentId", Json::text(incident_id), "operationReason", Json::text(reason)),
    )
}

/// The request that closes a ticket.
pub fn close_incident(incident_id: &str) -> (r: ApiRequest)
    ensures
        is_post(
            r,
            "/api/itsm/incidentAction/close-incident"@,
            jo(seq![("params"@, jo(seq![("incidentId"@, js(incident_id@))]))]),
        ),
{
    post_request(
        "/api/itsm/incidentAction/close-incident",
        obj1("params", obj1("incidentId", Json::text(incident_id))),
    )
}

/// Why a background refresh failed.
#[derive(Debug, Clone, Copy, PartialEq, Eq, Structural)]
pub enum RefreshError {
    Network,
    Auth,
    Server,
}

/// Why a ticket listing failed, with the error text where there is one.
#[derive(Debug)]
pub enum FetchError {
    Network(String),
    Auth,
    Server(String),
}

/// The class of a failure: a 401 is an expired login; else a connection
/// failure or timeout is the network; else a body that could not be read,
/// a 5xx or any other status is the server; no status at all is the network.
pub open spec fn spec_classify(status_code: Option<u16>, is_connect_or_timeout: bool, parse_failed: bool) -> RefreshError {
    if status_code == Some(401u16) {
        RefreshError::Auth
    } else if is_connect_or_timeout {
        RefreshError::Network
    } else if parse_failed {
        RefreshError::Server
    } else {
        match status_code {
            Some(_) => RefreshError::Server,
            None => RefreshError::Network,
        }
    }
}

/// Classifies a failure from its status, whether the connection failed or
/// timed out, and whether the body could not be read.
pub fn classify(status_code: Option<u16>, is_connect_or_timeout: bool, parse_failed: bool) -> (r: RefreshError)
    ensures
        r == spec_classify(status_code, is_connect_or_timeout, parse_failed),
{
    if let Some(401) = status_code {
        return RefreshError::Auth;
    }
    if is_connect_or_timeout {
        return RefreshError::Network;
    }
    if parse_failed {
        return RefreshError::Server;
    }
    match status_code {
        Some(c) if 500 <= c && c < 600 => RefreshError::Server,
        None => RefreshError::Network,
        Some(_) => RefreshError::Server,
    }
}

/// The class of a listing failure.
pub open spec fn spec_map_fetch_error(e: &FetchError) -> RefreshError {
    match e {
        FetchError::Network(_) => RefreshError::Network,
        FetchError::Auth => RefreshError::Auth,
        FetchError::Server(_) => RefreshError::Server,
    }
}

/// The class of a listing failure.
pub fn map_fetch_error(e: &FetchError) -> (r: RefreshError)
    ensures
        r == spec_map_fetch_error(e),
{
    match e {
        FetchError::Network(_) => RefreshError::Network,
        FetchError::Auth => RefreshError::Auth,
        FetchError::Server(_) => RefreshError::Server,
    }
}

/// Whether `e` is the server error with the text `m`.
pub open spec fn is_server_error(e: FetchError, m: Seq<char>) -> bool {
    e matches FetchError::Server(s) && s@ == m
}

/// What a listing answer gives: its `data.data` (an empty array when absent)
/// and its `data.count` (0 when absent or not an `i64`); no `data` at all is
/// a server error.
pub open spec fn spec_parse_tickets(v: JsonV) -> Option<(JsonV, int)> {
    match v.get("data"@) {
        None => None,
        Some(d) => Some(
            (
                match d.get("data"@) {
                    Some(a) => a,
                    None => JsonV::Array(seq![]),
                },
                match d.int_field("count"@) {
                    Some(c) => c,
                    None => 0,
                },
            ),
        ),
    }
}

/// Reads a listing answer into its tickets and their count.
pub fn parse_tickets_response(v: &Json) -> (r: Result<(Json, i64), FetchError>)
    ensures
        match spec_parse_tickets(v@) {
            Some((a, c)) => r matches Ok((x, n)) && x@ == a && n == c,
            None => r matches Err(e) && is_server_error(e, "响应缺 data"@),
        },
{
    let data = match v.get("data") {
        Some(d) => d,
        None => return Err(FetchError::Server(owned("响应缺 data"))),
    };
    let arr = match data.get("data") {
        Some(a) => a.deep_clone(),
        None => {
            let empty: Vec<Json> = Vec::new();
            proof {
                lemma_array_view(empty);
                assert(items_view(empty@) =~= seq![]);
            }
            Json::Array(empty)
        },
    };
    let count = match data.int_field("count") {
        Some(c) => c,
        None => 0,
    };
    Ok((arr, count))
}

/// The request of one page of a view's tickets, for the scheduler and for
/// searches; its failures are read by [`fetch_send_error`],
/// [`fetch_status_check`] and [`fetch_body`].
pub fn fetch_tickets_request(
    seach_type: i64,
    page_index: i64,
    page_rows: i64,
    search: Option<&SearchParams>,
) -> (r: ApiRequest)
    ensures
        is_post(
            r,
            find_pagination_path(),
            listing_body(page_index as int, page_rows as int, seach_type, search),
        ),
{
    post_request(
        "/api/itsm/incidentService/find-pagination",
        listing_body_json(page_index, page_rows, seach_type, search),
    )
}

/// A listing request that could not be sent: a connection failure or a
/// timeout is the network, anything else the server.
pub fn fetch_send_error(is_connect_or_timeout: bool, msg: String) -> (r: FetchError)
    ensures
        is_connect_or_timeout ==> (r matches FetchError::Network(m) && m@ == msg@),
        !is_connect_or_timeout ==> is_server_error(r, msg@),
{
    if is_connect_or_timeout {
        FetchError::Network(msg)
    } else {
        FetchError::Server(msg)
    }
}

/// The verdict on a listing answer's status: 401 is an expired login, any
/// status outside 200..300 a server error `HTTP <status>`.
pub fn fetch_status_check(status: u16) -> (r: Result<(), FetchError>)
    ensures
        status == 401 ==> r matches Err(FetchError::Auth),
        status != 401 && 200 <= status < 300 ==> r is Ok,
        status != 401 && !(200 <= status < 300) ==> (r matches Err(e) && is_server_error(
            e,
            "HTTP "@ + int_decimal(status as int),
        )),
{
    if classify(Some(status), false, false) == RefreshError::Auth {
        return Err(FetchError::Auth);
    }
    if !(200 <= status && status < 300) {
        return Err(FetchError::Server(cat("HTTP ", i64_decimal(status as i64).as_str())));
    }
    Ok(())
}

/// The verdict on a listing answer's body (`Err` holds the error text of a
/// body that was not JSON): unreadable is a server error, a refused token
/// an expired login, anything else as [`parse_tickets_response`] reads it.
pub fn fetch_body(body: Result<Json, String>) -> (r: Result<(Json, i64), FetchError>)
    ensures
        match body {
            Err(e) => r matches Err(x) && is_server_error(x, "解析失败: "@ + e@),
            Ok(v) => if spec_permission_not_pass(v@) {
                r matches Err(FetchError::Auth)
            } else {
                match spec_parse_tickets(v@) {
                    Some((a, c)) => r matches Ok((x, n)) && x@ == a && n == c,
                    None => r matches Err(e) && is_server_error(e, "响应缺 data"@),
                }
            },
        },
{
    match body {
        Err(e) => Err(FetchError::Server(cat("解析失败: ", e.as_str()))),
        Ok(v) => {
            if is_permission_not_pass(&v) {
                Err(FetchError::Auth)
            } else {
                parse_tickets_response(&v)
            }
        },
    }
}

} // verus!
