//! The logic of the local MCP tools: argument checks, the back-fill form,
//! and the shape of what each tool answers.
use vstd::prelude::*;

use crate::api::{auth_expired_err, auth_expired_msg, fld, js, obj, FetchError};
use crate::config::Config;
use crate::json::{fields_view, items_view, lemma_array_view, lemma_field_get_at, Json, JsonV};
use crate::text::{cat, cat3, i64_decimal, int_decimal, owned, spec_trim, trim};

verus! {

/// The two kinds of tool errors.
#[derive(Debug, Clone, Copy, PartialEq, Eq, Structural)]
pub enum ToolErrorKind {
    /// The arguments were wrong.
    InvalidParams,
    /// The call failed.
    Internal,
}

/// A tool error: its kind and message.
#[derive(Debug)]
pub struct ToolError {
    pub kind: ToolErrorKind,
    pub message: String,
}

/// Whether `e` is of kind `k` with the message `m`.
pub open spec fn is_error(e: ToolError, k: ToolErrorKind, m: Seq<char>) -> bool {
    e.kind == k && e.message@ == m
}

/// A failed API call as a tool error.
pub fn api_error(message: String) -> (r: ToolError)
    ensures
        r.kind == ToolErrorKind::Internal,
        r.message == message,
{
    ToolError { kind: ToolErrorKind::Internal, message }
}

/// A failed listing as a tool error: its text, or the expired-login message.
pub fn fetch_error(error: FetchError) -> (r: ToolError)
    ensures
        r.kind == ToolErrorKind::Internal,
        error matches FetchError::Network(m) ==> r.message@ == m@,
        error matches FetchError::Server(m) ==> r.message@ == m@,
        error is Auth ==> r.message@ == auth_expired_msg(),
{
    match error {
        FetchError::Network(m) => api_error(m),
        FetchError::Server(m) => api_error(m),
        FetchError::Auth => api_error(auth_expired_err()),
    }
}

/// A required text argument: trimmed, and not empty.
pub open spec fn spec_required(field: Seq<char>, value: Seq<char>) -> Result<Seq<char>, Seq<char>> {
    if spec_trim(value).len() == 0 {
        Err(field + " 不能为空"@)
    } else {
        Ok(spec_trim(value))
    }
}

/// A required text argument, trimmed; an empty one is an invalid argument
/// `<field> 不能为空`.
pub fn required_text(field: &str, value: String) -> (r: Result<String, ToolError>)
    ensures
        match spec_required(field@, value@) {
            Ok(t) => r matches Ok(x) && x@ == t,
            Err(m) => r matches Err(e) && is_error(e, ToolErrorKind::InvalidParams, m),
        },
{
    let v = trim(value.as_str());
    if v.as_str().is_empty() {
        return Err(ToolError { kind: ToolErrorKind::InvalidParams, message: cat(field, " 不能为空") });
    }
    Ok(v)
}

/// The page and page size of a search: 1 and 50 by default; the page must
/// be at least 1 and the size within 1..=200.
pub fn pagination(page_index: Option<i64>, page_size: Option<i64>) -> (r: Result<(i64, i64), ToolError>)
    ensures
        ({
            let pi = match page_index {
                Some(p) => p,
                None => 1,
            };
            let ps = match page_size {
                Some(s) => s,
                None => 50,
            };
            if pi < 1 {
                r matches Err(e) && is_error(e, ToolErrorKind::InvalidParams, "page_index 必须 >= 1"@)
            } else if !(1 <= ps <= 200) {
                r matches Err(e) && is_error(
                    e,
                    ToolErrorKind::InvalidParams,
                    "page_size 必须在 1..=200"@,
                )
            } else {
                r == Ok::<(i64, i64), ToolError>((pi, ps))
            }
        }),
{
    let pi = match page_index {
        Some(p) => p,
        None => 1,
    };
    let ps = match page_size {
        Some(s) => s,
        None => 50,
    };
    if pi < 1 {
        return Err(ToolError { kind: ToolErrorKind::InvalidParams, message: owned("page_index 必须 >= 1") });
    }
    if !(1 <= ps && ps <= 200) {
        return Err(ToolError { kind: ToolErrorKind::InvalidParams, message: owned("page_size 必须在 1..=200") });
    }
    Ok((pi, ps))
}

/// The arguments of the back-fill (create ticket) tool.
pub struct CreateTicketParams {
    pub service_type: String,
    pub service_sub_type: String,
    pub order_subject: String,
    pub detail: String,
    pub contact_customer_group: String,
    pub contact_customer_group_name: String,
    pub requestor: String,
    pub requestor_name: String,
    pub assign: Option<String>,
    pub assign_name: Option<String>,
    pub support_by: Option<String>,
    pub support_name: Option<String>,
    pub create_template_id: Option<String>,
}

/// An optional argument, trimmed; blank counts as absent.
pub open spec fn opt_trimmed(o: Option<String>) -> Option<Seq<char>> {
    match o {
        Some(s) => if spec_trim(s@).len() > 0 {
            Some(spec_trim(s@))
        } else {
            None
        },
        None => None,
    }
}

/// An id and its name, given together or left out together (then both
/// empty); `None` when only one is given.
pub open spec fn spec_pair(id: Option<String>, name: Option<String>) -> Option<(Seq<char>, Seq<char>)> {
    match (opt_trimmed(id), opt_trimmed(name)) {
        (Some(i), Some(n)) => Some((i, n)),
        (None, None) => Some((seq![], seq![])),
        _ => None,
    }
}

/// The message of a half-given pair.
pub open spec fn pair_message(id_field: Seq<char>, name_field: Seq<char>) -> Seq<char> {
    id_field + " 与 "@ + name_field + " 必须同时传入或同时省略"@
}

/// The message when no support group is given or configured.
pub open spec fn no_group_message() -> Seq<char> {
    "未配置默认支持组，请在应用设置中配置，或显式传入 assign 与 assign_name"@
}

/// The required arguments of the back-fill tool, by name, in the order
/// they are checked.
pub open spec fn required_args(p: CreateTicketParams) -> Seq<(Seq<char>, Seq<char>)> {
    seq![
        ("service_type"@, p.service_type@),
        ("service_sub_type"@, p.service_sub_type@),
        ("order_subject"@, p.order_subject@),
        ("detail"@, p.detail@),
        ("contact_customer_group"@, p.contact_customer_group@),
        ("contact_customer_group_name"@, p.contact_customer_group_name@),
        ("requestor"@, p.requestor@),
        ("requestor_name"@, p.requestor_name@),
    ]
}

/// The trimmed required arguments, or the message of the first empty one.
pub open spec fn check_required(args: Seq<(Seq<char>, Seq<char>)>) -> Result<Seq<Seq<char>>, Seq<char>>
    decreases args.len(),
{
    if args.len() == 0 {
        Ok(seq![])
    } else {
        match spec_required(args[0].0, args[0].1) {
            Err(m) => Err(m),
            Ok(t) => match check_required(args.drop_first()) {
                Ok(rest) => Ok(seq![t] + rest),
                Err(m) => Err(m),
            },
        }
    }
}

/// The back-fill form for the given (trimmed) required values, support
/// group, supporter and template.
pub open spec fn replenish_form(
    v: Seq<Seq<char>>,
    assign: (Seq<char>, Seq<char>),
    support: (Seq<char>, Seq<char>),
    template: Seq<char>,
) -> JsonV {
    JsonV::Object(
        seq![
            ("serviceType"@, js(v[0])),
            ("serviceSubType"@, js(v[1])),
            ("orderSubject"@, js(v[2])),
            ("detail"@, js(v[3])),
            ("fileIds"@, JsonV::Array(seq![])),
            ("priority"@, js("3"@)),
            ("contactCustomerGroup"@, js(v[4])),
            ("requestor"@, js(v[6])),
            ("assign"@, js(assign.0)),
            ("supportBy"@, js(support.0)),
            ("effect"@, js("4"@)),
            ("urgency"@, js("1"@)),
            ("cc"@, JsonV::Array(seq![])),
            ("orderSign"@, JsonV::Int(1)),
            ("contactCustomerGroupName"@, js(v[5])),
            ("requestorName"@, js(v[7])),
            ("assignName"@, js(assign.1)),
            ("assignLevel"@, JsonV::Int(1)),
            ("supportName"@, js(support.1)),
            ("relatedorderList"@, JsonV::Array(seq![])),
            ("createTemplateId"@, js(template)),
        ],
    )
}

/// What the back-fill tool sends, or the message of the invalid argument.
/// The support group is the one given, else the configured default.
pub open spec fn spec_replenish(
    p: CreateTicketParams,
    default_group: Option<(Seq<char>, Seq<char>)>,
) -> Result<JsonV, Seq<char>> {
    match check_required(required_args(p)) {
        Err(m) => Err(m),
        Ok(v) => match spec_pair(p.assign, p.assign_name) {
            None => Err(pair_message("assign"@, "assign_name"@)),
            Some(given) => {
                let group = if given.0.len() > 0 {
                    Some(given)
                } else {
                    default_group
                };
                match group {
                    None => Err(no_group_message()),
                    Some(g) => match spec_pair(p.support_by, p.support_name) {
                        None => Err(pair_message("support_by"@, "support_name"@)),
                        Some(s) => Ok(
                            replenish_form(
                                v,
                                g,
                                s,
                                match opt_trimmed(p.create_template_id) {
                                    Some(t) => t,
                                    None => seq![],
                                },
                            ),
                        ),
                    },
                }
            },
        },
    }
}

fn opt_trim(o: &Option<String>) -> (r: Option<String>)
    ensures
        r is None <==> opt_trimmed(*o) is None,
        r matches Some(s) ==> opt_trimmed(*o) == Some(s@),
{
    match o {
        Some(s) => {
            let t = trim(s.as_str());
            if t.as_str().is_empty() {
                None
            } else {
                Some(t)
            }
        },
        None => None,
    }
}

fn pair(id: &Option<String>, name: &Option<String>, id_field: &str, name_field: &str) -> (r: Result<
    (String, String),
    ToolError,
>)
    ensures
        match spec_pair(*id, *name) {
            Some((i, n)) => r matches Ok((a, b)) && a@ == i && b@ == n,
            None => r matches Err(e) && is_error(
                e,
                ToolErrorKind::InvalidParams,
                pair_message(id_field@, name_field@),
            ),
        },
{
    let i = opt_trim(id);
    let n = opt_trim(name);
    match (i, n) {
        (Some(i), Some(n)) => Ok((i, n)),
        (None, None) => Ok((String::new(), String::new())),
        _ => {
            let mut m = cat3(id_field, " 与 ", name_field);
            m.append(" 必须同时传入或同时省略");
            Err(ToolError { kind: ToolErrorKind::InvalidParams, message: m })
        },
    }
}

/// The default support group as a pair of models.
pub open spec fn group_view(g: Option<&(String, String)>) -> Option<(Seq<char>, Seq<char>)> {
    match g {
        Some(x) => Some((x.0@, x.1@)),
        None => None,
    }
}

proof fn lemma_check_required_8(args: Seq<(Seq<char>, Seq<char>)>)
    requires
        args.len() == 8,
    ensures
        check_required(args) == match spec_required(args[0].0, args[0].1) {
            Err(m) => Err(m),
            Ok(t0) => match spec_required(args[1].0, args[1].1) {
                Err(m) => Err(m),
                Ok(t1) => match spec_required(args[2].0, args[2].1) {
                    Err(m) => Err(m),
                    Ok(t2) => match spec_required(args[3].0, args[3].1) {
                        Err(m) => Err(m),
                        Ok(t3) => match spec_required(args[4].0, args[4].1) {
                            Err(m) => Err(m),
                            Ok(t4) => match spec_required(args[5].0, args[5].1) {
                                Err(m) => Err(m),
                                Ok(t5) => match spec_required(args[6].0, args[6].1) {
                                    Err(m) => Err(m),
                                    Ok(t6) => match spec_required(args[7].0, args[7].1) {
                                        Err(m) => Err(m),
                                        Ok(t7) => Ok::<Seq<Seq<char>>, Seq<char>>(
                                            seq![t0, t1, t2, t3, t4, t5, t6, t7],
                                        ),
                                    },
                                },
                            },
                        },
                    },
                },
            },
        },
{
    reveal_with_fuel(check_required, 9);
    let a1 = args.drop_first();
    let a2 = a1.drop_first();
    let a3 = a2.drop_first();
    let a4 = a3.drop_first();
    let a5 = a4.drop_first();
    let a6 = a5.drop_first();
    let a7 = a6.drop_first();
    let a8 = a7.drop_first();
    assert(a8.len() == 0);
    if let Ok(v) = check_required(args) {
        assert(v =~= seq![v[0], v[1], v[2], v[3], v[4], v[5], v[6], v[7]]);
    }
    match spec_required(args[0].0, args[0].1) {
        Err(_) => {},
        Ok(t0) => match spec_required(args[1].0, args[1].1) {
            Err(_) => {},
            Ok(t1) => match spec_required(args[2].0, args[2].1) {
                Err(_) => {},
                Ok(t2) => match spec_required(args[3].0, args[3].1) {
                    Err(_) => {},
                    Ok(t3) => match spec_required(args[4].0, args[4].1) {
                        Err(_) => {},
                        Ok(t4) => match spec_required(args[5].0, args[5].1) {
                            Err(_) => {},
                            Ok(t5) => match spec_required(args[6].0, args[6].1) {
                                Err(_) => {},
                                Ok(t6) => match spec_required(args[7].0, args[7].1) {
                                    Err(_) => {},
                                    Ok(t7) => {
                                        assert(seq![t7] + Seq::<Seq<char>>::empty() =~= seq![t7]);
                                        assert(seq![t0] + (seq![t1] + (seq![t2] + (seq![t3] + (
                                        seq![t4] + (seq![t5] + (seq![t6] + seq![t7]))))))
                                            =~= seq![t0, t1, t2, t3, t4, t5, t6, t7]);
                                    },
                                },
                            },
                        },
                    },
                },
            },
        },
    }
}

/// The back-fill form carries each argument under its own name: every
/// required argument trimmed; the support group given (trimmed) or else
/// the configured default; the supporter given (trimmed) or empty; the
/// template given (trimmed) or empty.
pub proof fn lemma_replenish_form_fields(p: CreateTicketParams, default_group: Option<(Seq<char>, Seq<char>)>)
    ensures
        match spec_replenish(p, default_group) {
            Ok(v) => {
                let given = opt_trimmed(p.assign) is Some;
                let dg = default_group->0;
                &&& v.get("serviceType"@) == Some(js(spec_trim(p.service_type@)))
                &&& v.get("serviceSubType"@) == Some(js(spec_trim(p.service_sub_type@)))
                &&& v.get("orderSubject"@) == Some(js(spec_trim(p.order_subject@)))
                &&& v.get("detail"@) == Some(js(spec_trim(p.detail@)))
                &&& v.get("contactCustomerGroup"@) == Some(js(spec_trim(p.contact_customer_group@)))
                &&& v.get("contactCustomerGroupName"@) == Some(
                    js(spec_trim(p.contact_customer_group_name@)),
                )
                &&& v.get("requestor"@) == Some(js(spec_trim(p.requestor@)))
                &&& v.get("requestorName"@) == Some(js(spec_trim(p.requestor_name@)))
                &&& given ==> v.get("assign"@) == Some(js(opt_trimmed(p.assign)->0))
                    && v.get("assignName"@) == Some(js(opt_trimmed(p.assign_name)->0))
                &&& !given ==> default_group is Some && v.get("assign"@) == Some(js(dg.0))
                    && v.get("assignName"@) == Some(js(dg.1))
                &&& v.get("supportBy"@) == Some(
                    js(
                        match opt_trimmed(p.support_by) {
                            Some(t) => t,
                            None => seq![],
                        },
                    ),
                )
                &&& v.get("supportName"@) == Some(
                    js(
                        match opt_trimmed(p.support_name) {
                            Some(t) => t,
                            None => seq![],
                        },
                    ),
                )
                &&& v.get("createTemplateId"@) == Some(
                    js(
                        match opt_trimmed(p.create_template_id) {
                            Some(t) => t,
                            None => seq![],
                        },
                    ),
                )
            },
            Err(_) => true,
        },
{
    lemma_check_required_8(required_args(p));
    match spec_replenish(p, default_group) {
        Ok(v) => {
            reveal_strlit("serviceType");
            reveal_strlit("serviceSubType");
            reveal_strlit("orderSubject");
            reveal_strlit("detail");
            reveal_strlit("fileIds");
            reveal_strlit("priority");
            reveal_strlit("contactCustomerGroup");
            reveal_strlit("requestor");
            reveal_strlit("assign");
            reveal_strlit("supportBy");
            reveal_strlit("effect");
            reveal_strlit("urgency");
            reveal_strlit("cc");
            reveal_strlit("orderSign");
            reveal_strlit("contactCustomerGroupName");
            reveal_strlit("requestorName");
            reveal_strlit("assignName");
            reveal_strlit("assignLevel");
            reveal_strlit("supportName");
            reveal_strlit("relatedorderList");
            reveal_strlit("createTemplateId");
            if let JsonV::Object(f) = v {
                lemma_field_get_at(f, 0, "serviceType"@);
                assert("serviceType"@.len() != "serviceSubType"@.len());
                lemma_field_get_at(f, 1, "serviceSubType"@);
                assert("serviceType"@.len() != "orderSubject"@.len());
                assert("serviceSubType"@.len() != "orderSubject"@.len());
                lemma_field_get_at(f, 2, "orderSubject"@);
                assert("serviceType"@.len() != "detail"@.len());
                assert("serviceSubType"@.len() != "detail"@.len());
                assert("orderSubject"@.len() != "detail"@.len());
                lemma_field_get_at(f, 3, "detail"@);
                assert("serviceType"@.len() != "contactCustomerGroup"@.len());
                assert("serviceSubType"@.len() != "contactCustomerGroup"@.len());
                assert("orderSubject"@.len() != "contactCustomerGroup"@.len());
                assert("detail"@.len() != "contactCustomerGroup"@.len());
                assert("fileIds"@.len() != "contactCustomerGroup"@.len());
                assert("priority"@.len() != "contactCustomerGroup"@.len());
                lemma_field_get_at(f, 6, "contactCustomerGroup"@);
                assert("serviceType"@.len() != "contactCustomerGroupName"@.len());
                assert("serviceSubType"@.len() != "contactCustomerGroupName"@.len());
                assert("orderSubject"@.len() != "contactCustomerGroupName"@.len());
                assert("detail"@.len() != "contactCustomerGroupName"@.len());
                assert("fileIds"@.len() != "contactCustomerGroupName"@.len());
                assert("priority"@.len() != "contactCustomerGroupName"@.len());
                assert("contactCustomerGroup"@.len() != "contactCustomerGroupName"@.len());
                assert("requestor"@.len() != "contactCustomerGroupName"@.len());
                assert("assign"@.len() != "contactCustomerGroupName"@.len());
                assert("supportBy"@.len() != "contactCustomerGroupName"@.len());
                assert("effect"@.len() != "contactCustomerGroupName"@.len());
                assert("urgency"@.len() != "contactCustomerGroupName"@.len());
                assert("cc"@.len() != "contactCustomerGroupName"@.len());
                assert("orderSign"@.len() != "contactCustomerGroupName"@.len());
                lemma_field_get_at(f, 14, "contactCustomerGroupName"@);
                assert("serviceType"@.len() != "requestor"@.len());
                assert("serviceSubType"@.len() != "requestor"@.len());
                assert("orderSubject"@.len() != "requestor"@.len());
                assert("detail"@.len() != "requestor"@.len());
                assert("fileIds"@.len() != "requestor"@.len());
                assert("priority"@.len() != "requestor"@.len());
                assert("contactCustomerGroup"@.len() != "requestor"@.len());
                lemma_field_get_at(f, 7, "requestor"@);
                assert("serviceType"@.len() != "requestorName"@.len());
                assert("serviceSubType"@.len() != "requestorName"@.len());
                assert("orderSubject"@.len() != "requestorName"@.len());
                assert("detail"@.len() != "requestorName"@.len());
                assert("fileIds"@.len() != "requestorName"@.len());
                assert("priority"@.len() != "requestorName"@.len());
                assert("contactCustomerGroup"@.len() != "requestorName"@.len());
                assert("requestor"@.len() != "requestorName"@.len());
                assert("assign"@.len() != "requestorName"@.len());
                assert("supportBy"@.len() != "requestorName"@.len());
                assert("effect"@.len() != "requestorName"@.len());
                assert("urgency"@.len() != "requestorName"@.len());
                assert("cc"@.len() != "requestorName"@.len());
                assert("orderSign"@.len() != "requestorName"@.len());
                assert("contactCustomerGroupName"@.len() != "requestorName"@.len());
                lemma_field_get_at(f, 15, "requestorName"@);
                assert("serviceType"@.len() != "assign"@.len());
                assert("serviceSubType"@.len() != "assign"@.len());
                assert("orderSubject"@.len() != "assign"@.len());
                assert("detail"@[0] != "assign"@[0]);
                assert("fileIds"@.len() != "assign"@.len());
                assert("priority"@.len() != "assign"@.len());
                assert("contactCustomerGroup"@.len() != "assign"@.len());
                assert("requestor"@.len() != "assign"@.len());
                lemma_field_get_at(f, 8, "assign"@);
                assert("serviceType"@.len() != "assignName"@.len());
                assert("serviceSubType"@.len() != "assignName"@.len());
                assert("orderSubject"@.len() != "assignName"@.len());
                assert("detail"@.len() != "assignName"@.len());
                assert("fileIds"@.len() != "assignName"@.len());
                assert("priority"@.len() != "assignName"@.len());
                assert("contactCustomerGroup"@.len() != "assignName"@.len());
                assert("requestor"@.len() != "assignName"@.len());
                assert("assign"@.len() != "assignName"@.len());
                assert("supportBy"@.len() != "assignName"@.len());
                assert("effect"@.len() != "assignName"@.len());
                assert("urgency"@.len() != "assignName"@.len());
                assert("cc"@.len() != "assignName"@.len());
                assert("orderSign"@.len() != "assignName"@.len());
                assert("contactCustomerGroupName"@.len() != "assignName"@.len());
                assert("requestorName"@.len() != "assignName"@.len());
                lemma_field_get_at(f, 16, "assignName"@);
                assert("serviceType"@.len() != "supportBy"@.len());
                assert("serviceSubType"@.len() != "supportBy"@.len());
                assert("orderSubject"@.len() != "supportBy"@.len());
                assert("detail"@.len() != "supportBy"@.len());
                assert("fileIds"@.len() != "supportBy"@.len());
                assert("priority"@.len() != "supportBy"@.len());
                assert("contactCustomerGroup"@.len() != "supportBy"@.len());
                assert("requestor"@[0] != "supportBy"@[0]);
                assert("assign"@.len() != "supportBy"@.len());
                lemma_field_get_at(f, 9, "supportBy"@);
                assert("serviceType"@[1] != "supportName"@[1]);
                assert("serviceSubType"@.len() != "supportName"@.len());
                assert("orderSubject"@.len() != "supportName"@.len());
                assert("detail"@.len() != "supportName"@.len());
                assert("fileIds"@.len() != "supportName"@.len());
                assert("priority"@.len() != "supportName"@.len());
                assert("contactCustomerGroup"@.len() != "supportName"@.len());
                assert("requestor"@.len() != "supportName"@.len());
                assert("assign"@.len() != "supportName"@.len());
                assert("supportBy"@.len() != "supportName"@.len());
                assert("effect"@.len() != "supportName"@.len());
                assert("urgency"@.len() != "supportName"@.len());
                assert("cc"@.len() != "supportName"@.len());
                assert("orderSign"@.len() != "supportName"@.len());
                assert("contactCustomerGroupName"@.len() != "supportName"@.len());
                assert("requestorName"@.len() != "supportName"@.len());
                assert("assignName"@.len() != "supportName"@.len());
                assert("assignLevel"@[0] != "supportName"@[0]);
                lemma_field_get_at(f, 18, "supportName"@);
                assert("serviceType"@.len() != "createTemplateId"@.len());
                assert("serviceSubType"@.len() != "createTemplateId"@.len());
                assert("orderSubject"@.len() != "createTemplateId"@.len());
                assert("detail"@.len() != "createTemplateId"@.len());
                assert("fileIds"@.len() != "createTemplateId"@.len());
                assert("priority"@.len() != "createTemplateId"@.len());
                assert("contactCustomerGroup"@.len() != "createTemplateId"@.len());
                assert("requestor"@.len() != "createTemplateId"@.len());
                assert("assign"@.len() != "createTemplateId"@.len());
                assert("supportBy"@.len() != "createTemplateId"@.len());
                assert("effect"@.len() != "createTemplateId"@.len());
                assert("urgency"@.len() != "createTemplateId"@.len());
                assert("cc"@.len() != "createTemplateId"@.len());
                assert("orderSign"@.len() != "createTemplateId"@.len());
                assert("contactCustomerGroupName"@.len() != "createTemplateId"@.len());
                assert("requestorName"@.len() != "createTemplateId"@.len());
                assert("assignName"@.len() != "createTemplateId"@.len());
                assert("assignLevel"@.len() != "createTemplateId"@.len());
                assert("supportName"@.len() != "createTemplateId"@.len());
                assert("relatedorderList"@[0] != "createTemplateId"@[0]);
                lemma_field_get_at(f, 20, "createTemplateId"@);
            }
        },
        Err(_) => {},
    }
}

/// Builds the form that the back-fill tool files: the eight required
/// arguments trimmed and checked in order, the support group given (as a
/// pair) or else the configured default, the supporter (as a pair), the
/// template, and the fixed fields of a back-filled ticket.
pub fn build_replenish_params(params: &CreateTicketParams, default_support_group: Option<&(String, String)>) -> (r:
    Result<Json, ToolError>)
    ensures
        match spec_replenish(*params, group_view(default_support_group)) {
            Ok(v) => r matches Ok(j) && j@ == v,
            Err(m) => r matches Err(e) && is_error(e, ToolErrorKind::InvalidParams, m),
        },
{
    proof {
        lemma_check_required_8(required_args(*params));
    }
    let service_type = required_text("service_type", owned(params.service_type.as_str()))?;
    let service_sub_type = required_text("service_sub_type", owned(params.service_sub_type.as_str()))?;
    let order_subject = required_text("order_subject", owned(params.order_subject.as_str()))?;
    let detail = required_text("detail", owned(params.detail.as_str()))?;
    let contact_customer_group = required_text(
        "contact_customer_group",
        owned(params.contact_customer_group.as_str()),
    )?;
    let contact_customer_group_name = required_text(
        "contact_customer_group_name",
        owned(params.contact_customer_group_name.as_str()),
    )?;
    let requestor = required_text("requestor", owned(params.requestor.as_str()))?;
    let requestor_name = required_text("requestor_name", owned(params.requestor_name.as_str()))?;
    let ghost v = seq![
        service_type@,
        service_sub_type@,
        order_subject@,
        detail@,
        contact_customer_group@,
        contact_customer_group_name@,
        requestor@,
        requestor_name@,
    ];
    assert(check_required(required_args(*params)) == Ok::<Seq<Seq<char>>, Seq<char>>(v));
    let (assign_in, assign_name_in) = pair(&params.assign, &params.assign_name, "assign", "assign_name")?;
    let (assign, assign_name) = if !assign_in.as_str().is_empty() {
        (assign_in, assign_name_in)
    } else {
        match default_support_group {
            Some(g) => (owned(g.0.as_str()), owned(g.1.as_str())),
            None => {
                return Err(
                    ToolError {
                        kind: ToolErrorKind::InvalidParams,
                        message: owned(
                            "未配置默认支持组，请在应用设置中配置，或显式传入 assign 与 assign_name",
                        ),
                    },
                );
            },
        }
    };
    let (support_by, support_name) = pair(&params.support_by, &params.support_name, "support_by", "support_name")?;
    let create_template_id = match opt_trim(&params.create_template_id) {
        Some(t) => t,
        None => String::new(),
    };
    let ghost g = (assign@, assign_name@);
    let ghost s = (support_by@, support_name@);
    let ghost t = create_template_id@;
    let mut f: Vec<(String, Json)> = Vec::new();
    f.push(fld("serviceType", Json::Str(service_type)));
    f.push(fld("serviceSubType", Json::Str(service_sub_type)));
    f.push(fld("orderSubject", Json::Str(order_subject)));
    f.push(fld("detail", Json::Str(detail)));
    f.push(fld("fileIds", empty_array()));
    f.push(fld("priority", Json::text("3")));
    f.push(fld("contactCustomerGroup", Json::Str(contact_customer_group)));
    f.push(fld("requestor", Json::Str(requestor)));
    f.push(fld("assign", Json::Str(assign)));
    f.push(fld("supportBy", Json::Str(support_by)));
    f.push(fld("effect", Json::text("4")));
    f.push(fld("urgency", Json::text("1")));
    f.push(fld("cc", empty_array()));
    f.push(fld("orderSign", Json::Int(1)));
    f.push(fld("contactCustomerGroupName", Json::Str(contact_customer_group_name)));
    f.push(fld("requestorName", Json::Str(requestor_name)));
    f.push(fld("assignName", Json::Str(assign_name)));
    f.push(fld("assignLevel", Json::Int(1)));
    f.push(fld("supportName", Json::Str(support_name)));
    f.push(fld("relatedorderList", empty_array()));
    f.push(fld("createTemplateId", Json::Str(create_template_id)));
    proof {
        if let JsonV::Object(expected) = replenish_form(v, g, s, t) {
            assert(fields_view(f@) =~= expected);
        }
    }
    Ok(obj(f))
}

/// An empty JSON array.
pub fn empty_array() -> (r: Json)
    ensures
        r@ == JsonV::Array(seq![]),
{
    let v: Vec<Json> = Vec::new();
    proof {
        lemma_array_view(v);
        assert(items_view(v@) =~= seq![]);
    }
    Json::Array(v)
}

/// The fields of a ticket that the detail tool keeps, in order.
pub open spec fn kept_fields() -> Seq<Seq<char>> {
    seq![
        "incidentId"@,
        "incidentCode"@,
        "orderSubject"@,
        "detail"@,
        "status"@,
        "statusName"@,
        "priority"@,
        "priorityName"@,
        "effect"@,
        "effectName"@,
        "urgency"@,
        "supportBy"@,
        "supportName"@,
        "requestor"@,
        "requestorName"@,
        "assign"@,
        "assignName"@,
        "serviceFullName"@,
        "serviceTypeName"@,
        "serviceSubTypeName"@,
        "incidentType"@,
        "incidentTypeName"@,
        "incidentSource"@,
        "incidentSourceName"@,
        "contactCustomerGroup"@,
        "contactCustomerGroupName"@,
        "creationDate"@,
        "lastUpdateDate"@,
        "firstResponseTime"@,
        "hopeResolvedTime"@,
        "resolvedTime"@,
        "closeTime"@,
        "solution"@,
        "orderType"@,
        "tenantId"@,
        "phone"@,
        "email"@,
    ]
}

fn kept_field_names() -> (r: Vec<String>)
    ensures
        r@.len() == kept_fields().len(),
        forall|i: int| 0 <= i < r@.len() ==> r@[i]@ == kept_fields()[i],
{
    let mut v: Vec<String> = Vec::new();
    v.push(owned("incidentId"));
    v.push(owned("incidentCode"));
    v.push(owned("orderSubject"));
    v.push(owned("detail"));
    v.push(owned("status"));
    v.push(owned("statusName"));
    v.push(owned("priority"));
    v.push(owned("priorityName"));
    v.push(owned("effect"));
    v.push(owned("effectName"));
    v.push(owned("urgency"));
    v.push(owned("supportBy"));
    v.push(owned("supportName"));
    v.push(owned("requestor"));
    v.push(owned("requestorName"));
    v.push(owned("assign"));
    v.push(owned("assignName"));
    v.push(owned("serviceFullName"));
    v.push(owned("serviceTypeName"));
    v.push(owned("serviceSubTypeName"));
    v.push(owned("incidentType"));
    v.push(owned("incidentTypeName"));
    v.push(owned("incidentSource"));
    v.push(owned("incidentSourceName"));
    v.push(owned("contactCustomerGroup"));
    v.push(owned("contactCustomerGroupName"));
    v.push(owned("creationDate"));
    v.push(owned("lastUpdateDate"));
    v.push(owned("firstResponseTime"));
    v.push(owned("hopeResolvedTime"));
    v.push(owned("resolvedTime"));
    v.push(owned("closeTime"));
    v.push(owned("solution"));
    v.push(owned("orderType"));
    v.push(owned("tenantId"));
    v.push(owned("phone"));
    v.push(owned("email"));
    proof {
        let k = kept_fields();
        assert forall|i: int| 0 <= i < v@.len() implies v@[i]@ == kept_fields()[i] by {
            assert(v@[i]@ == k[i]);
        }
    }
    v
}

/// The kept fields present in `f`, in the order of `names`, with their values.
pub open spec fn picked(names: Seq<Seq<char>>, f: Seq<(Seq<char>, JsonV)>) -> Seq<(Seq<char>, JsonV)>
    decreases names.len(),
{
    if names.len() == 0 {
        seq![]
    } else {
        let rest = picked(names.drop_last(), f);
        match crate::json::field_get(f, names.last()) {
            Some(v) => rest.push((names.last(), v)),
            None => rest,
        }
    }
}

/// The core fields of a ticket's `data`, in a fixed order (an empty object
/// when the answer has no `data` object): the detail tool drops the form
/// templates and the extension fields.
pub open spec fn spec_pick_detail(v: JsonV) -> JsonV {
    match v.get("data"@) {
        Some(JsonV::Object(f)) => JsonV::Object(picked(kept_fields(), f)),
        _ => JsonV::Object(seq![]),
    }
}

/// What a name finds among the picked fields: the field of the ticket
/// when the name is one of `names`, nothing otherwise.
proof fn lemma_picked_get(names: Seq<Seq<char>>, f: Seq<(Seq<char>, JsonV)>, k: Seq<char>)
    ensures
        crate::json::field_get(picked(names, f), k) == if names.contains(k) {
            crate::json::field_get(f, k)
        } else {
            None
        },
    decreases names.len(),
{
    if names.len() > 0 {
        let init = names.drop_last();
        lemma_picked_get(init, f, k);
        let rest = picked(init, f);
        match crate::json::field_get(f, names.last()) {
            Some(v) => crate::json::lemma_field_get_push(rest, (names.last(), v), k),
            None => {},
        }
        assert(names =~= init.push(names.last()));
        if init.contains(k) {
            let i = choose|i: int| 0 <= i < init.len() && init[i] == k;
            assert(names[i] == k);
        }
        if names.contains(k) && !init.contains(k) {
            let i = choose|i: int| 0 <= i < names.len() && names[i] == k;
            if i < names.len() - 1 {
                assert(init[i] == k);
            }
        }
    }
}

/// The detail tools answer a ticket's core fields as the ticket has them,
/// and nothing else: the name, state, priority, impact and urgency, the
/// people and groups involved, the service, type and source, the dates,
/// the solution, the ticket type, tenant and contact. For one of these
/// names the answer holds what the ticket's `data` holds (nothing when it
/// has none); any other name, the form templates and extension fields
/// among them, is dropped.
pub proof fn lemma_pick_detail_keeps_core_fields(v: JsonV, k: Seq<char>)
    ensures
        v.get("data"@) matches Some(JsonV::Object(f)) ==> (
            k == "incidentId"@ || k == "incidentCode"@ || k == "orderSubject"@ || k == "detail"@ ||
                k == "status"@ || k == "statusName"@ || k == "priority"@ || k == "priorityName"@ ||
                k == "effect"@ || k == "effectName"@ || k == "urgency"@ || k == "supportBy"@ ||
                k == "supportName"@ || k == "requestor"@ || k == "requestorName"@ ||
                k == "assign"@ || k == "assignName"@ || k == "serviceFullName"@ ||
                k == "serviceTypeName"@ || k == "serviceSubTypeName"@ || k == "incidentType"@ ||
                k == "incidentTypeName"@ || k == "incidentSource"@ || k == "incidentSourceName"@ ||
                k == "contactCustomerGroup"@ || k == "contactCustomerGroupName"@ ||
                k == "creationDate"@ || k == "lastUpdateDate"@ || k == "firstResponseTime"@ ||
                k == "hopeResolvedTime"@ || k == "resolvedTime"@ || k == "closeTime"@ ||
                k == "solution"@ || k == "orderType"@ || k == "tenantId"@ || k == "phone"@ ||
                k == "email"@
        ) ==> spec_pick_detail(v).get(k) == crate::json::field_get(f, k),
        !(
            k == "incidentId"@ || k == "incidentCode"@ || k == "orderSubject"@ || k == "detail"@ ||
                k == "status"@ || k == "statusName"@ || k == "priority"@ || k == "priorityName"@ ||
                k == "effect"@ || k == "effectName"@ || k == "urgency"@ || k == "supportBy"@ ||
                k == "supportName"@ || k == "requestor"@ || k == "requestorName"@ ||
                k == "assign"@ || k == "assignName"@ || k == "serviceFullName"@ ||
                k == "serviceTypeName"@ || k == "serviceSubTypeName"@ || k == "incidentType"@ ||
                k == "incidentTypeName"@ || k == "incidentSource"@ || k == "incidentSourceName"@ ||
                k == "contactCustomerGroup"@ || k == "contactCustomerGroupName"@ ||
                k == "creationDate"@ || k == "lastUpdateDate"@ || k == "firstResponseTime"@ ||
                k == "hopeResolvedTime"@ || k == "resolvedTime"@ || k == "closeTime"@ ||
                k == "solution"@ || k == "orderType"@ || k == "tenantId"@ || k == "phone"@ ||
                k == "email"@
        ) ==> spec_pick_detail(v).get(k) is None,
{
    if let Some(JsonV::Object(f)) = v.get("data"@) {
        lemma_picked_get(kept_fields(), f, k);
        if k == "incidentId"@ || k == "incidentCode"@ || k == "orderSubject"@ || k == "detail"@ || k == "status"@ || k == "statusName"@ || k == "priority"@ || k == "priorityName"@ || k == "effect"@ || k == "effectName"@ || k == "urgency"@ || k == "supportBy"@ || k == "supportName"@ || k == "requestor"@ || k == "requestorName"@ || k == "assign"@ || k == "assignName"@ || k == "serviceFullName"@ || k == "serviceTypeName"@ || k == "serviceSubTypeName"@ || k == "incidentType"@ || k == "incidentTypeName"@ || k == "incidentSource"@ || k == "incidentSourceName"@ || k == "contactCustomerGroup"@ || k == "contactCustomerGroupName"@ || k == "creationDate"@ || k == "lastUpdateDate"@ || k == "firstResponseTime"@ || k == "hopeResolvedTime"@ || k == "resolvedTime"@ || k == "closeTime"@ || k == "solution"@ || k == "orderType"@ || k == "tenantId"@ || k == "phone"@ || k == "email"@ {
            if k == "incidentId"@ {
                assert(kept_fields()[0] == k);
            } else if k == "incidentCode"@ {
                assert(kept_fields()[1] == k);
            } else if k == "orderSubject"@ {
                assert(kept_fields()[2] == k);
            } else if k == "detail"@ {
                assert(kept_fields()[3] == k);
            } else if k == "status"@ {
                assert(kept_fields()[4] == k);
            } else if k == "statusName"@ {
                assert(kept_fields()[5] == k);
            } else if k == "priority"@ {
                assert(kept_fields()[6] == k);
            } else if k == "priorityName"@ {
                assert(kept_fields()[7] == k);
            } else if k == "effect"@ {
                assert(kept_fields()[8] == k);
            } else if k == "effectName"@ {
                assert(kept_fields()[9] == k);
            } else if k == "urgency"@ {
                assert(kept_fields()[10] == k);
            } else if k == "supportBy"@ {
                assert(kept_fields()[11] == k);
            } else if k == "supportName"@ {
                assert(kept_fields()[12] == k);
            } else if k == "requestor"@ {
                assert(kept_fields()[13] == k);
            } else if k == "requestorName"@ {
                assert(kept_fields()[14] == k);
            } else if k == "assign"@ {
                assert(kept_fields()[15] == k);
            } else if k == "assignName"@ {
                assert(kept_fields()[16] == k);
            } else if k == "serviceFullName"@ {
                assert(kept_fields()[17] == k);
            } else if k == "serviceTypeName"@ {
                assert(kept_fields()[18] == k);
            } else if k == "serviceSubTypeName"@ {
                assert(kept_fields()[19] == k);
            } else if k == "incidentType"@ {
                assert(kept_fields()[20] == k);
            } else if k == "incidentTypeName"@ {
                assert(kept_fields()[21] == k);
            } else if k == "incidentSource"@ {
                assert(kept_fields()[22] == k);
            } else if k == "incidentSourceName"@ {
                assert(kept_fields()[23] == k);
            } else if k == "contactCustomerGroup"@ {
                assert(kept_fields()[24] == k);
            } else if k == "contactCustomerGroupName"@ {
                assert(kept_fields()[25] == k);
            } else if k == "creationDate"@ {
                assert(kept_fields()[26] == k);
            } else if k == "lastUpdateDate"@ {
                assert(kept_fields()[27] == k);
            } else if k == "firstResponseTime"@ {
                assert(kept_fields()[28] == k);
            } else if k == "hopeResolvedTime"@ {
                assert(kept_fields()[29] == k);
            } else if k == "resolvedTime"@ {
                assert(kept_fields()[30] == k);
            } else if k == "closeTime"@ {
                assert(kept_fields()[31] == k);
            } else if k == "solution"@ {
                assert(kept_fields()[32] == k);
            } else if k == "orderType"@ {
                assert(kept_fields()[33] == k);
            } else if k == "tenantId"@ {
                assert(kept_fields()[34] == k);
            } else if k == "phone"@ {
                assert(kept_fields()[35] == k);
            } else if k == "email"@ {
                assert(kept_fields()[36] == k);
            }
        }
    }
}

/// The core fields of a ticket, as the detail tools answer them.
pub fn pick_detail_fields(v: &Json) -> (r: Json)
    ensures
        r@ == spec_pick_detail(v@),
{
    let data = match v.get("data") {
        Some(d) => d,
        None => {
            let e: Vec<(String, Json)> = Vec::new();
            assert(fields_view(e@) =~= seq![]);
            return obj(e);
        },
    };
    let src = match data {
        Json::Object(f) => f,
        _ => {
            let e: Vec<(String, Json)> = Vec::new();
            assert(fields_view(e@) =~= seq![]);
            return obj(e);
        },
    };
    proof {
        crate::json::lemma_object_view(*src);
    }
    let names = kept_field_names();
    let ghost ks = kept_fields();
    let ghost fv = fields_view(src@);
    let mut m: Vec<(String, Json)> = Vec::new();
    let mut i: usize = 0;
    while i < names.len()
        invariant
            names@.len() == ks.len(),
            forall|j: int| 0 <= j < names@.len() ==> names@[j]@ == ks[j],
            fv == fields_view(src@),
            data@ == JsonV::Object(fv),
            i <= names@.len(),
            fields_view(m@) == picked(ks.subrange(0, i as int), fv),
        decreases names@.len() - i,
    {
        assert(ks.subrange(0, i + 1).drop_last() =~= ks.subrange(0, i as int));
        assert(ks.subrange(0, i + 1).last() == ks[i as int]);
        match data.get(names[i].as_str()) {
            Some(x) => {
                m.push((owned(names[i].as_str()), x.deep_clone()));
                assert(fields_view(m@) =~= picked(ks.subrange(0, i as int), fv).push(
                    (ks[i as int], x@),
                ));
            },
            None => {},
        }
        i = i + 1;
    }
    assert(ks.subrange(0, names@.len() as int) =~= ks);
    obj(m)
}

/// The replies in a reply-list answer: its `data`, or an empty array.
pub open spec fn spec_replies_of(value: JsonV) -> JsonV {
    match value.get("data"@) {
        Some(d) => d,
        None => JsonV::Array(seq![]),
    }
}

/// The replies in a reply-list answer: its `data`, or an empty array.
pub fn replies_of(value: &Json) -> (r: Json)
    ensures
        r@ == spec_replies_of(value@),
{
    match value.get("data") {
        Some(d) => d.deep_clone(),
        None => empty_array(),
    }
}

/// The number of items of an array, 0 for anything else.
pub open spec fn item_count(v: JsonV) -> int {
    match v {
        JsonV::Array(a) => a.len() as int,
        _ => 0,
    }
}

/// The JSON number of a count: an `Int` when it fits an `i64`, else its
/// decimal text.
pub open spec fn count_view(n: int) -> JsonV {
    if n <= i64::MAX {
        JsonV::Int(n)
    } else {
        JsonV::Num(crate::text::nat_decimal(n as nat))
    }
}

/// A count as a JSON number.
pub fn count_json(n: usize) -> (r: Json)
    ensures
        r@ == count_view(n as int),
{
    if (n as u64) <= (i64::MAX as u64) {
        Json::Int(n as i64)
    } else {
        let mut s = String::new();
        crate::text::push_u64_decimal(&mut s, n as u64);
        assert(s@ =~= crate::text::nat_decimal(n as nat));
        Json::Num(s)
    }
}

/// What the reply-list tool answers: `{replies, count}`.
pub fn replies_result(value: &Json) -> (r: Json)
    ensures
        r@ == JsonV::Object(
            seq![
                ("replies"@, spec_replies_of(value@)),
                ("count"@, count_view(item_count(spec_replies_of(value@)))),
            ],
        ),
{
    let replies = replies_of(value);
    let count: usize = match &replies {
        Json::Array(a) => {
            proof {
                lemma_array_view(*a);
            }
            a.len()
        },
        _ => 0,
    };
    let ghost rv = replies@;
    let mut f: Vec<(String, Json)> = Vec::new();
    f.push(fld("replies", replies));
    f.push(fld("count", count_json(count)));
    assert(fields_view(f@) =~= seq![("replies"@, rv), ("count"@, count_view(item_count(rv)))]);
    obj(f)
}

/// What a ticket search answers.
pub fn search_result(data: Json, count: i64, seach_type: i64, page_index: i64, page_size: i64) -> (r: Json)
    ensures
        r@ == JsonV::Object(
            seq![
                ("data"@, data@),
                ("count"@, JsonV::Int(count as int)),
                ("seach_type"@, JsonV::Int(seach_type as int)),
                ("page_index"@, JsonV::Int(page_index as int)),
                ("page_size"@, JsonV::Int(page_size as int)),
            ],
        ),
{
    let ghost dv = data@;
    let mut f: Vec<(String, Json)> = Vec::new();
    f.push(fld("data", data));
    f.push(fld("count", Json::Int(count)));
    f.push(fld("seach_type", Json::Int(seach_type)));
    f.push(fld("page_index", Json::Int(page_index)));
    f.push(fld("page_size", Json::Int(page_size)));
    assert(fields_view(f@) =~= seq![
        ("data"@, dv),
        ("count"@, JsonV::Int(count as int)),
        ("seach_type"@, JsonV::Int(seach_type as int)),
        ("page_index"@, JsonV::Int(page_index as int)),
        ("page_size"@, JsonV::Int(page_size as int)),
    ]);
    obj(f)
}

/// The ticket a code search found: the `incidentId` and `incidentCode` of
/// the first hit, or why there is none.
pub open spec fn spec_code_target(code: Seq<char>, data: JsonV) -> Result<(Seq<char>, JsonV), (ToolErrorKind, Seq<char>)> {
    match data {
        JsonV::Array(a) => if a.len() == 0 {
            Err((ToolErrorKind::InvalidParams, "未找到单号为 "@ + code + " 的工单"@))
        } else {
            match a[0].str_field("incidentId"@) {
                None => Err((ToolErrorKind::Internal, "搜索结果缺 incidentId"@)),
                Some(id) => Ok(
                    (
                        id,
                        match a[0].get("incidentCode"@) {
                            Some(c) => c,
                            None => JsonV::Null,
                        },
                    ),
                ),
            }
        },
        _ => Err((ToolErrorKind::Internal, "搜索响应非数组"@)),
    }
}

/// The ticket a code search found (its first hit), or the tool error.
pub fn ticket_by_code_target(code: &str, data: &Json) -> (r: Result<(String, Json), ToolError>)
    ensures
        match spec_code_target(code@, data@) {
            Ok((id, c)) => r matches Ok((x, y)) && x@ == id && y@ == c,
            Err((k, m)) => r matches Err(e) && is_error(e, k, m),
        },
{
    let arr = match data {
        Json::Array(a) => {
            proof {
                lemma_array_view(*a);
            }
            a
        },
        _ => return Err(api_error(owned("搜索响应非数组"))),
    };
    if arr.len() == 0 {
        return Err(
            ToolError { kind: ToolErrorKind::InvalidParams, message: cat3("未找到单号为 ", code, " 的工单") },
        );
    }
    let first = &arr[0];
    let incident_id = match first.str_field("incidentId") {
        Some(s) => s,
        None => return Err(api_error(owned("搜索结果缺 incidentId"))),
    };
    let incident_code = match first.get("incidentCode") {
        Some(c) => c.deep_clone(),
        None => Json::Null,
    };
    Ok((incident_id, incident_code))
}

/// The hint added when a code search hit more than one ticket.
pub open spec fn many_hits_hint(count: i64) -> Seq<char> {
    "命中 "@ + int_decimal(count as int) + " 条，已取首条；如非目标请用更完整的单号"@
}

/// What the ticket-by-code tool answers: the hit count, the ticket's id
/// and code, its core fields and its replies, and a hint when the search
/// hit more than one ticket.
pub fn ticket_by_code_result(
    count: i64,
    incident_id: String,
    incident_code: Json,
    detail: Json,
    replies: Json,
) -> (r: Json)
    ensures
        r@ == JsonV::Object(
            seq![
                ("count"@, JsonV::Int(count as int)),
                ("incident_id"@, js(incident_id@)),
                ("incident_code"@, incident_code@),
                ("detail"@, detail@),
                ("replies"@, replies@),
            ] + if count > 1 {
                seq![("hint"@, js(many_hits_hint(count)))]
            } else {
                seq![]
            },
        ),
{
    let ghost (iv, cv, dv, rv) = (incident_id@, incident_code@, detail@, replies@);
    let mut f: Vec<(String, Json)> = Vec::new();
    f.push(fld("count", Json::Int(count)));
    f.push(fld("incident_id", Json::Str(incident_id)));
    f.push(fld("incident_code", incident_code));
    f.push(fld("detail", detail));
    f.push(fld("replies", replies));
    let ghost base = seq![
        ("count"@, JsonV::Int(count as int)),
        ("incident_id"@, js(iv)),
        ("incident_code"@, cv),
        ("detail"@, dv),
        ("replies"@, rv),
    ];
    assert(fields_view(f@) =~= base);
    if count > 1 {
        let mut h = cat("命中 ", i64_decimal(count).as_str());
        h.append(" 条，已取首条；如非目标请用更完整的单号");
        f.push(fld("hint", Json::Str(h)));
        assert(fields_view(f@) =~= base + seq![("hint"@, js(many_hits_hint(count)))]);
    } else {
        assert(fields_view(f@) =~= base + seq![]);
    }
    obj(f)
}

/// The ticket type of a reply: the given one (required, trimmed), or `1`.
pub fn reply_order_type(order_type: Option<String>) -> (r: Result<String, ToolError>)
    ensures
        order_type is None ==> (r matches Ok(t) && t@ == "1"@),
        order_type matches Some(s) ==> match spec_required("order_type"@, s@) {
            Ok(t) => r matches Ok(x) && x@ == t,
            Err(m) => r matches Err(e) && is_error(e, ToolErrorKind::InvalidParams, m),
        },
{
    match order_type {
        Some(s) => required_text("order_type", s),
        None => Ok(owned("1")),
    }
}

/// The support group that back-filled tickets default to: the configured
/// id and name, when both are set and neither is blank.
pub fn default_support_group(cfg: &Config) -> (r: Option<(String, String)>)
    ensures
        ({
            let id = cfg@.default_support_group_id;
            let name = cfg@.default_support_group_name;
            if id is Some && name is Some && spec_trim(id->0).len() > 0 && spec_trim(name->0).len() > 0 {
                r matches Some((a, b)) && a@ == id->0 && b@ == name->0
            } else {
                r is None
            }
        }),
{
    match (&cfg.default_support_group_id, &cfg.default_support_group_name) {
        (Some(id), Some(name)) => {
            let ti = trim(id.as_str());
            let tn = trim(name.as_str());
            if !ti.as_str().is_empty() && !tn.as_str().is_empty() {
                Some((owned(id.as_str()), owned(name.as_str())))
            } else {
                None
            }
        },
        _ => None,
    }
}

} // verus!
