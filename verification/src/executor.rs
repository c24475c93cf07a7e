//! The executor dispatch layer.
//!
//! Executors are the external capabilities steps dispatch to.  Each one is
//! split into pure parts: a *plan* function that validates the step input
//! and applies the executor's own policy, and an *outcome* function that
//! turns the raw network response into an [`ExecutorResult`].  The driver in
//! between performs the actual network call and nothing else.

use vstd::prelude::*;
use vstd::string::*;

use crate::config::{ControlPlaneConfig, HttpConfig, SecurityConfig};
use crate::json::{JVal, Json};
use crate::text::has_suffix;

verus! {

/// The static description an executor publishes.
pub struct ExecutorManifest {
    pub id: String,
    pub version: String,
    pub description: String,
    pub permissions: Vec<String>,
}

/// The outcome of one dispatch attempt: exactly one of executed, denied by
/// policy, or failed.
pub enum ExecutorResult {
    Executed { output: Json, duration_ms: u64 },
    Denied { denial_reason: DenialReason },
    Error { error: String },
}

/// Why a step was refused: the rule that fired, the value that tripped it,
/// and a readable sentence.
pub struct DenialReason {
    pub rule: String,
    pub attempted: String,
    pub policy: String,
}

/// The closed set of executors this node ships.
pub enum ExecutorKind {
    HttpRequest,
    LlmChat,
    GoogleGmail,
    HarnessExecute,
}

/// The registry of executors; delegated execution needs the harness
/// endpoint it forwards to.
pub struct Registry {
    pub harness_url: String,
}

impl Registry {
    /// Builds the registry around the configured harness endpoint.
    pub fn load(harness_url: String) -> (r: Registry)
        ensures
            r.harness_url@ == harness_url@,
    {
        Registry { harness_url }
    }

    /// The executor an identifier names, if any.
    pub fn get(&self, id: &str) -> (r: Option<ExecutorKind>)
        ensures
            r == kind_of_id(id@),
    {
        if crate::text::str_eq(id, "http.request") {
            Option::Some(ExecutorKind::HttpRequest)
        } else if crate::text::str_eq(id, "llm.chat") {
            Option::Some(ExecutorKind::LlmChat)
        } else if crate::text::str_eq(id, "google.gmail") {
            Option::Some(ExecutorKind::GoogleGmail)
        } else if crate::text::str_eq(id, "harness.execute") {
            Option::Some(ExecutorKind::HarnessExecute)
        } else {
            Option::None
        }
    }

    /// The manifests of every registered executor.
    pub fn list(&self) -> (r: Vec<ExecutorManifest>)
        ensures
            r@.len() == 4,
            r@[0].id@ == "http.request"@,
            r@[1].id@ == "llm.chat"@,
            r@[2].id@ == "google.gmail"@,
            r@[3].id@ == "harness.execute"@,
    {
        let mut v: Vec<ExecutorManifest> = Vec::new();
        v.push(ExecutorKind::HttpRequest.manifest());
        v.push(ExecutorKind::LlmChat.manifest());
        v.push(ExecutorKind::GoogleGmail.manifest());
        v.push(ExecutorKind::HarnessExecute.manifest());
        v
    }
}

/// The four executor identifiers name the four executors.
pub proof fn lemma_kind_ids()
    ensures
        kind_of_id("http.request"@) == Option::Some(ExecutorKind::HttpRequest),
        kind_of_id("llm.chat"@) == Option::Some(ExecutorKind::LlmChat),
        kind_of_id("google.gmail"@) == Option::Some(ExecutorKind::GoogleGmail),
        kind_of_id("harness.execute"@) == Option::Some(ExecutorKind::HarnessExecute),
{
    reveal_strlit("http.request");
    reveal_strlit("llm.chat");
    reveal_strlit("google.gmail");
    reveal_strlit("harness.execute");
    assert("http.request"@.len() == 12);
    assert("llm.chat"@.len() == 8);
    assert("google.gmail"@.len() == 12);
    assert("harness.execute"@.len() == 15);
    assert("google.gmail"@[0] == 'g' && "http.request"@[0] == 'h');
    assert("llm.chat"@ != "http.request"@);
    assert("google.gmail"@ != "http.request"@ && "google.gmail"@ != "llm.chat"@);
    assert("harness.execute"@ != "http.request"@ && "harness.execute"@ != "llm.chat"@
        && "harness.execute"@ != "google.gmail"@);
}

/// The executor an identifier names.
pub open spec fn kind_of_id(id: Seq<char>) -> Option<ExecutorKind> {
    if id == "http.request"@ {
        Option::Some(ExecutorKind::HttpRequest)
    } else if id == "llm.chat"@ {
        Option::Some(ExecutorKind::LlmChat)
    } else if id == "google.gmail"@ {
        Option::Some(ExecutorKind::GoogleGmail)
    } else if id == "harness.execute"@ {
        Option::Some(ExecutorKind::HarnessExecute)
    } else {
        Option::None
    }
}

impl ExecutorKind {
    /// The identifier steps use to name this executor.
    pub fn id(&self) -> (r: String)
        ensures
            kind_of_id(r@) == Option::Some(*self),
    {
        proof {
            lemma_kind_ids();
        }
        match self {
            ExecutorKind::HttpRequest => String::from_str("http.request"),
            ExecutorKind::LlmChat => String::from_str("llm.chat"),
            ExecutorKind::GoogleGmail => String::from_str("google.gmail"),
            ExecutorKind::HarnessExecute => String::from_str("harness.execute"),
        }
    }

    /// The static manifest of this executor.
    pub fn manifest(&self) -> (r: ExecutorManifest)
        ensures
            kind_of_id(r.id@) == Option::Some(*self),
            r.version@ == "0.1.0"@,
    {
        proof {
            lemma_kind_ids();
        }
        match self {
            ExecutorKind::HttpRequest => ExecutorManifest {
                id: String::from_str("http.request"),
                version: String::from_str("0.1.0"),
                description: String::from_str("HTTP requests (curl parity)"),
                permissions: one_str("network"),
            },
            ExecutorKind::LlmChat => ExecutorManifest {
                id: String::from_str("llm.chat"),
                version: String::from_str("0.1.0"),
                description: String::from_str("Chat with LLM (OpenRouter/Anthropic/OpenAI)"),
                permissions: two_str("network", "llm"),
            },
            ExecutorKind::GoogleGmail => ExecutorManifest {
                id: String::from_str("google.gmail"),
                version: String::from_str("0.1.0"),
                description: String::from_str("Send emails via Gmail API"),
                permissions: two_str("network", "oauth"),
            },
            ExecutorKind::HarnessExecute => ExecutorManifest {
                id: String::from_str("harness.execute"),
                version: String::from_str("0.1.0"),
                description: String::from_str("Execute workflows on the remote harness"),
                permissions: two_str("network", "harness"),
            },
        }
    }
}

fn one_str(a: &str) -> (r: Vec<String>)
    ensures
        r@.len() == 1,
        r@[0]@ == a@,
{
    let mut v: Vec<String> = Vec::new();
    v.push(String::from_str(a));
    v
}

fn two_str(a: &str, b: &str) -> (r: Vec<String>)
    ensures
        r@.len() == 2,
        r@[0]@ == a@,
        r@[1]@ == b@,
{
    let mut v: Vec<String> = Vec::new();
    v.push(String::from_str(a));
    v.push(String::from_str(b));
    v
}

/// Membership of a string in a list.
pub open spec fn str_in_list(list: Seq<String>, s: Seq<char>) -> bool {
    exists|i: int| 0 <= i < list.len() && (#[trigger] list[i])@ == s
}

/// The policy gate: a step may dispatch only to an executor on the
/// allow-list.
pub fn executor_allowed(security: &SecurityConfig, id: &str) -> (r: bool)
    ensures
        r == str_in_list(security.allowed_executors@, id@),
{
    let mut i: usize = 0;
    while i < security.allowed_executors.len()
        invariant
            i <= security.allowed_executors@.len(),
            forall|j: int| 0 <= j < i ==> (#[trigger] security.allowed_executors@[j])@ != id@,
        decreases security.allowed_executors@.len() - i,
    {
        if crate::text::str_eq(security.allowed_executors[i].as_str(), id) {
            return true;
        }
        i = i + 1;
    }
    false
}

/// One allow-list pattern against a host: exact match, the wildcard `*`, or
/// a `*.suffix` pattern matching any host ending in `.suffix`.
pub open spec fn domain_pattern_matches(p: Seq<char>, domain: Seq<char>) -> bool {
    ||| p == seq!['*']
    ||| p == domain
    ||| (p.len() >= 2 && p[0] == '*' && p[1] == '.' && has_suffix(
        domain,
        p.subrange(1, p.len() as int),
    ))
}

/// A host is allowed when some pattern on the list matches it.
pub open spec fn domain_allowed(domains: Seq<String>, domain: Seq<char>) -> bool {
    exists|i: int|
        0 <= i < domains.len() && domain_pattern_matches((#[trigger] domains[i])@, domain)
}

fn pattern_matches_x(p: &str, domain: &str) -> (r: bool)
    ensures
        r == domain_pattern_matches(p@, domain@),
{
    proof {
        lemma_star_lit();
    }
    if crate::text::str_eq(p, "*") {
        return true;
    }
    if crate::text::str_eq(p, domain) {
        return true;
    }
    let n = p.unicode_len();
    if n >= 2 && p.get_char(0) == '*' && p.get_char(1) == '.' {
        let suffix = p.substring_char(1, n);
        if crate::text::str_has_suffix(domain, suffix) {
            return true;
        }
        return false;
    }
    false
}

proof fn lemma_star_lit()
    ensures
        "*"@ == seq!['*'],
{
    reveal_strlit("*");
    assert("*"@ =~= seq!['*']);
}

/// Whether a host passes the domain allow-list.
pub fn host_allowed(http: &HttpConfig, domain: &str) -> (r: bool)
    ensures
        r == domain_allowed(http.allowed_domains@, domain@),
{
    let mut i: usize = 0;
    while i < http.allowed_domains.len()
        invariant
            i <= http.allowed_domains@.len(),
            forall|j: int| 0 <= j < i ==> !domain_pattern_matches(
                (#[trigger] http.allowed_domains@[j])@,
                domain@,
            ),
        decreases http.allowed_domains@.len() - i,
    {
        if pattern_matches_x(http.allowed_domains[i].as_str(), domain) {
            return true;
        }
        i = i + 1;
    }
    false
}

/// The host component of a URL, a function of its text alone.  `None` means
/// the text does not parse as a URL at all; a URL without a host yields the
/// empty string.
pub uninterp spec fn url_host_of(s: Seq<char>) -> Option<Seq<char>>;

/// Relies on `url::Url::parse` and `Url::host_str`: whether a text parses
/// as a URL, and its host component, depend on the text alone.
#[verifier::external_body]
pub(crate) fn url_host(u: &str) -> (r: Option<String>)
    ensures
        r is Some <==> url_host_of(u@) is Some,
        r matches Option::Some(h) ==> url_host_of(u@) == Option::Some(h@),
{
    match url::Url::parse(u) {
        Ok(p) => Some(p.host_str().unwrap_or("").to_string()),
        Err(_) => None,
    }
}

/// An `ExecutorResult::Error` carrying a transport failure's message, as
/// every executor reports one.
pub fn transport_error(message: String) -> (r: ExecutorResult)
    ensures
        r matches ExecutorResult::Error { error } && error@ == message@,
{
    ExecutorResult::Error { error: message }
}

/// `a` then `b` then `c`.
pub fn concat3(a: &str, b: &str, c: &str) -> (r: String)
    ensures
        r@ == a@ + b@ + c@,
{
    let mut s = String::from_str(a);
    s.append(b);
    s.append(c);
    s
}

// ============================================================
// HTTP executor
// ============================================================

/// What the HTTP executor will do with a step input: refuse it, deny it, or
/// issue a request.
pub enum HttpPlan {
    Invalid { error: String },
    Denied { denial_reason: DenialReason },
    Request { method: String, url: String, headers: Vec<(String, String)>, body: Option<String> },
}

/// The `url` field, which must be a string.
pub open spec fn http_url_of(input: JVal) -> Option<Seq<char>> {
    match input.get("url"@) {
        Option::Some(JVal::Str(u)) => Option::Some(u),
        _ => Option::None,
    }
}

/// The request method: the `method` field, defaulting to `GET`.
pub open spec fn http_method_of(input: JVal) -> Seq<char> {
    match input.get("method"@) {
        Option::Some(JVal::Str(m)) => m,
        _ => "GET"@,
    }
}

/// The string-valued pairs of a field sequence, in order.
pub open spec fn str_pairs(fields: Seq<(Seq<char>, JVal)>) -> Seq<(Seq<char>, Seq<char>)>
    decreases fields.len(),
{
    if fields.len() == 0 {
        Seq::empty()
    } else {
        match fields[0].1 {
            JVal::Str(s) => seq![(fields[0].0, s)] + str_pairs(fields.drop_first()),
            _ => str_pairs(fields.drop_first()),
        }
    }
}

/// The request headers: the string-valued fields of the `headers` object.
pub open spec fn http_headers_of(input: JVal) -> Seq<(Seq<char>, Seq<char>)> {
    match input.get("headers"@) {
        Option::Some(JVal::Obj(fs)) => str_pairs(fs),
        _ => Seq::empty(),
    }
}

/// The request body: the `body` field, when it is a string.
pub open spec fn http_body_of(input: JVal) -> Option<Seq<char>> {
    match input.get("body"@) {
        Option::Some(JVal::Str(b)) => Option::Some(b),
        _ => Option::None,
    }
}

/// The host the domain allow-list blocks, if any: a URL that does not parse
/// is not checked, and a parsed URL without a host is checked as the empty
/// host.
pub open spec fn http_blocked_host(input: JVal, domains: Seq<String>) -> Option<Seq<char>> {
    match http_url_of(input) {
        Option::Some(u) => match url_host_of(u) {
            Option::Some(h) => if !domain_allowed(domains, h) {
                Option::Some(h)
            } else {
                Option::None
            },
            Option::None => Option::None,
        },
        Option::None => Option::None,
    }
}

/// The views of owned header pairs.
pub open spec fn header_views(hs: Seq<(String, String)>) -> Seq<(Seq<char>, Seq<char>)> {
    Seq::new(hs.len(), |i: int| (hs[i].0@, hs[i].1@))
}

/// Plans an HTTP step: requires a `url`, checks its host against the domain
/// allow-list, and otherwise assembles the request exactly as the input
/// describes it.
pub fn http_plan(input: &Json, http: &HttpConfig) -> (r: HttpPlan)
    ensures
        http_url_of(input@) is None ==> (r matches HttpPlan::Invalid { error } && error@
            == "url required"@),
        http_blocked_host(input@, http.allowed_domains@) matches Option::Some(h) ==> (r matches
            HttpPlan::Denied { denial_reason } && denial_reason.rule@ == "http.allowed_domains"@
            && denial_reason.attempted@ == h && denial_reason.policy@ == "Domain '"@ + h
            + "' not allowed"@),
        http_url_of(input@) matches Option::Some(u) ==> http_blocked_host(
            input@,
            http.allowed_domains@,
        ) is None ==> (r matches HttpPlan::Request { method, url, headers, body } && method@
            == http_method_of(input@) && url@ == u && header_views(headers@) == http_headers_of(
            input@,
        ) && (match http_body_of(input@) {
            Option::Some(b) => body matches Option::Some(bs) && bs@ == b,
            Option::None => body is None,
        })),
{
    let url: String = match input.get("url") {
        Option::Some(u) => match u {
            Json::Str(s) => crate::json::copy_string(s),
            _ => {
                return HttpPlan::Invalid { error: String::from_str("url required") };
            },
        },
        Option::None => {
            return HttpPlan::Invalid { error: String::from_str("url required") };
        },
    };
    match url_host(url.as_str()) {
        Option::Some(host) => {
            if !host_allowed(http, host.as_str()) {
                let policy = concat3("Domain '", host.as_str(), "' not allowed");
                return HttpPlan::Denied {
                    denial_reason: DenialReason {
                        rule: String::from_str("http.allowed_domains"),
                        attempted: host,
                        policy,
                    },
                };
            }
        },
        Option::None => {},
    }
    let method: String = match input.get("method") {
        Option::Some(m) => match m {
            Json::Str(s) => crate::json::copy_string(s),
            _ => String::from_str("GET"),
        },
        _ => String::from_str("GET"),
    };
    let mut headers: Vec<(String, String)> = Vec::new();
    match input.get("headers") {
        Option::Some(h) => {
            match h {
                Json::Obj(fields) => {
                    let ghost fs = h@->Obj_0;
                    let mut i: usize = 0;
                    assert(fs.subrange(0, fs.len() as int) =~= fs);
                    assert(header_views(headers@) + str_pairs(fs) =~= str_pairs(fs));
                    while i < fields.len()
                        invariant
                            i <= fields.len(),
                            fs == h@->Obj_0,
                            h@ is Obj,
                            fs.len() == fields@.len(),
                            forall|j: int| 0 <= j < fields@.len() ==> (#[trigger] fs[j]) == (
                            fields@[j].0@,
                            fields@[j].1@,
                            ),
                            header_views(headers@) + str_pairs(
                                fs.subrange(i as int, fs.len() as int),
                            ) == str_pairs(fs),
                        decreases fields.len() - i,
                    {
                        let ghost rest = fs.subrange(i as int, fs.len() as int);
                        let ghost hv0 = header_views(headers@);
                        let pair = &fields[i];
                        match &pair.1 {
                            Json::Str(s) => {
                                headers.push(
                                    (crate::json::copy_string(&pair.0), crate::json::copy_string(s)),
                                );
                                proof {
                                    assert(header_views(headers@) =~= hv0.push(
                                        (fs[i as int].0, fs[i as int].1->Str_0),
                                    ));
                                    assert(str_pairs(rest) == seq![
                                        (fs[i as int].0, fs[i as int].1->Str_0),
                                    ] + str_pairs(rest.drop_first()));
                                    assert(hv0.push((fs[i as int].0, fs[i as int].1->Str_0))
                                        + str_pairs(rest.drop_first()) =~= hv0 + str_pairs(rest));
                                }
                            },
                            _ => {
                                proof {
                                    assert(str_pairs(rest) == str_pairs(rest.drop_first()));
                                }
                            },
                        }
                        assert(rest.drop_first() =~= fs.subrange(i + 1 as int, fs.len() as int));
                        i = i + 1;
                    }
                    assert(str_pairs(fs.subrange(fs.len() as int, fs.len() as int))
                        =~= Seq::empty());
                    assert(header_views(headers@) + Seq::<(Seq<char>, Seq<char>)>::empty()
                        =~= header_views(headers@));
                },
                _ => {
                    assert(header_views(headers@) =~= Seq::empty());
                },
            }
        },
        Option::None => {
            assert(header_views(headers@) =~= Seq::empty());
        },
    }
    let body: Option<String> = match input.get("body") {
        Option::Some(b) => match b {
            Json::Str(s) => Option::Some(crate::json::copy_string(s)),
            _ => Option::None,
        },
        _ => Option::None,
    };
    HttpPlan::Request { method, url, headers, body }
}

/// The verb an HTTP request goes out with.
pub enum HttpVerb {
    Get,
    Post,
    Put,
    Delete,
}

/// The verb a method string selects: `POST`, `PUT` and `DELETE` as
/// themselves, anything else as `GET`.
pub fn http_verb_of(method: &str) -> (r: HttpVerb)
    ensures
        method@ == "POST"@ ==> r is Post,
        method@ == "PUT"@ ==> r is Put,
        method@ == "DELETE"@ ==> r is Delete,
        method@ != "POST"@ && method@ != "PUT"@ && method@ != "DELETE"@ ==> r is Get,
{
    proof {
        reveal_strlit("POST");
        reveal_strlit("PUT");
        reveal_strlit("DELETE");
        assert("POST"@.len() == 4 && "PUT"@.len() == 3 && "DELETE"@.len() == 6);
    }
    if crate::text::str_eq(method, "POST") {
        HttpVerb::Post
    } else if crate::text::str_eq(method, "PUT") {
        HttpVerb::Put
    } else if crate::text::str_eq(method, "DELETE") {
        HttpVerb::Delete
    } else {
        HttpVerb::Get
    }
}

/// The executed output of an HTTP step: the response status and body text.
pub fn http_outcome(status: u16, body: String, duration_ms: u64) -> (r: ExecutorResult)
    ensures
        r matches ExecutorResult::Executed { output, duration_ms: d } && d == duration_ms
            && output@ == JVal::Obj(
            seq![("status"@, JVal::Int(status as int)), ("body"@, JVal::Str(body@))],
        ),
{
    let ghost bodyv = body@;
    let mut fields: Vec<(String, Json)> = Vec::new();
    fields.push((String::from_str("status"), Json::Int(status as i64)));
    fields.push((String::from_str("body"), Json::Str(body)));
    let ghost gfields = fields@;
    let output = Json::Obj(fields);
    assert(gfields[0].1@ == JVal::Int(status as int));
    assert(gfields[1].1@ == JVal::Str(bodyv));
    assert(output@->Obj_0 =~= seq![("status"@, JVal::Int(status as int)), ("body"@, JVal::Str(bodyv))]);
    assert(output@ == JVal::Obj(seq![("status"@, JVal::Int(status as int)), ("body"@, JVal::Str(bodyv))]));
    ExecutorResult::Executed { output, duration_ms }
}

// ============================================================
// Delegated-execution ("harness") executor
// ============================================================

/// What the harness executor will do: refuse the input or forward it.
pub enum HarnessPlan {
    Invalid { error: String },
    Request { url: String, payload: Json },
}

/// The inner executor identifier, which must be a string.
pub open spec fn harness_executor_of(input: JVal) -> Option<Seq<char>> {
    match input.get("executor"@) {
        Option::Some(JVal::Str(e)) => Option::Some(e),
        _ => Option::None,
    }
}

/// The forwarded parameters: the `params` field as it stands, or an empty
/// object.
pub open spec fn harness_params_of(input: JVal) -> JVal {
    match input.get("params"@) {
        Option::Some(v) => v,
        Option::None => JVal::Obj(Seq::empty()),
    }
}

/// A string field with a default.
pub open spec fn str_field_or(input: JVal, key: Seq<char>, dflt: Seq<char>) -> Seq<char> {
    match input.get(key) {
        Option::Some(JVal::Str(s)) => s,
        _ => dflt,
    }
}

/// The payload forwarded to the harness.
pub open spec fn harness_payload_of(input: JVal) -> JVal {
    JVal::Obj(
        seq![
            ("workflowId"@, JVal::Str(match harness_executor_of(input) {
                    Option::Some(e) => e,
                    Option::None => Seq::empty(),
                })),
            ("input"@, harness_params_of(input)),
            ("tenantId"@, JVal::Str(str_field_or(input, "tenant_id"@, "default"@))),
            ("tier"@, JVal::Str(str_field_or(input, "tier"@, "pro"@))),
        ],
    )
}

/// Plans a delegated-execution step: requires an `executor` field and
/// forwards it with its parameters and tenant context to the harness's
/// `/execute` endpoint.
pub fn harness_plan(input: &Json, harness_url: &str) -> (r: HarnessPlan)
    ensures
        harness_executor_of(input@) is None ==> (r matches HarnessPlan::Invalid { error } && error@
            == "executor required"@),
        harness_executor_of(input@) is Some ==> (r matches HarnessPlan::Request { url, payload }
            && url@ == harness_url@ + "/execute"@ && payload@ == harness_payload_of(input@)),
{
    let exec_id: String = match input.get("executor") {
        Option::Some(e) => match e {
            Json::Str(s) => crate::json::copy_string(s),
            _ => {
                return HarnessPlan::Invalid { error: String::from_str("executor required") };
            },
        },
        Option::None => {
            return HarnessPlan::Invalid { error: String::from_str("executor required") };
        },
    };
    let params: Json = match input.get("params") {
        Option::Some(p) => p.deep_copy(),
        Option::None => {
            let b = crate::json::ObjBuilder::new();
            b.build()
        },
    };
    let tenant: String = match input.get("tenant_id") {
        Option::Some(t) => match t {
            Json::Str(s) => crate::json::copy_string(s),
            _ => String::from_str("default"),
        },
        _ => String::from_str("default"),
    };
    let tier: String = match input.get("tier") {
        Option::Some(t) => match t {
            Json::Str(s) => crate::json::copy_string(s),
            _ => String::from_str("pro"),
        },
        _ => String::from_str("pro"),
    };
    let mut b = crate::json::ObjBuilder::new();
    b.add("workflowId", Json::Str(exec_id));
    b.add("input", params);
    b.add("tenantId", Json::Str(tenant));
    b.add("tier", Json::Str(tier));
    let payload = b.build();
    assert(payload@->Obj_0 =~= harness_payload_of(input@)->Obj_0);
    assert(payload@ == harness_payload_of(input@));
    let url = concat3(harness_url, "/execute", "");
    proof {
        reveal_strlit("");
        assert(url@ =~= harness_url@ + "/execute"@);
    }
    HarnessPlan::Request { url, payload }
}

/// What the harness's response body stands for: its JSON document, or a
/// `raw` wrapper when it is not JSON.
pub open spec fn harness_parsed(body: Seq<char>) -> JVal {
    match crate::json_parse::parse_doc(body) {
        Option::Some(v) => v,
        Option::None => JVal::Obj(seq![("raw"@, JVal::Str(body))]),
    }
}

/// The error a harness response reports in-band, if any.
pub open spec fn harness_error_of(v: JVal) -> Option<Seq<char>> {
    match v.get("error"@) {
        Option::Some(JVal::Str(e)) => Option::Some(e),
        Option::Some(_) => Option::Some("Unknown error"@),
        Option::None => Option::None,
    }
}

/// Interprets the harness's response: a 4xx/5xx status is an error, a
/// reported `error` field is an error even on success, anything else is the
/// executed output.
pub fn harness_outcome(status: u16, body: String, duration_ms: u64) -> (r: ExecutorResult)
    ensures
        status >= 400 ==> (r matches ExecutorResult::Error { error } && error@ == "Harness error "@
            + crate::json_text::int_text(status as int) + ": "@ + body@),
        status < 400 ==> (match harness_error_of(harness_parsed(body@)) {
            Option::Some(e) => r matches ExecutorResult::Error { error } && error@ == e,
            Option::None => r matches ExecutorResult::Executed { output, duration_ms: d } && d
                == duration_ms && output@ == harness_parsed(body@),
        }),
{
    if status >= 400 {
        let code = crate::json_text::int_string(status as i64);
        let mut msg = String::from_str("Harness error ");
        msg.append(code.as_str());
        msg.append(": ");
        msg.append(body.as_str());
        return ExecutorResult::Error { error: msg };
    }
    let parsed: Json = match crate::json_parse::parse_text(body.as_str()) {
        Option::Some(v) => v,
        Option::None => {
            let ghost bodyv = body@;
            let mut b = crate::json::ObjBuilder::new();
            b.add("raw", Json::Str(body));
            let w = b.build();
            assert(w@->Obj_0 =~= harness_parsed(bodyv)->Obj_0);
            assert(w@ == harness_parsed(bodyv));
            w
        },
    };
    match parsed.get("error") {
        Option::Some(e) => match e {
            Json::Str(s) => ExecutorResult::Error { error: crate::json::copy_string(s) },
            _ => ExecutorResult::Error { error: String::from_str("Unknown error") },
        },
        Option::None => ExecutorResult::Executed { output: parsed, duration_ms },
    }
}

// ============================================================
// Outbound-mail executor
// ============================================================

/// What the mail executor will do: refuse the input or forward a send
/// request to the control plane.
pub enum GmailPlan {
    Invalid { error: String },
    Request { url: String, payload: Json, to: String, subject: String },
}

/// The send payload: required `user_id`, `to` and `body`, a defaulted
/// `subject`, and the optional sender fields when present.
pub open spec fn gmail_payload_of(input: JVal) -> JVal {
    let base = seq![
        ("user_id"@, JVal::Str(str_field_or(input, "user_id"@, Seq::empty()))),
        ("to"@, JVal::Str(str_field_or(input, "to"@, Seq::empty()))),
        ("subject"@, JVal::Str(str_field_or(input, "subject"@, "(No Subject)"@))),
        ("body"@, JVal::Str(str_field_or(input, "body"@, Seq::empty()))),
    ];
    let with_name = match input.get("from_name"@) {
        Option::Some(JVal::Str(n)) => base.push(("from_name"@, JVal::Str(n))),
        _ => base,
    };
    let all = match input.get("gmail_account_id"@) {
        Option::Some(JVal::Str(a)) => with_name.push(("gmail_account_id"@, JVal::Str(a))),
        _ => with_name,
    };
    JVal::Obj(all)
}

/// Whether a required string field is missing.
pub open spec fn missing_str_field(input: JVal, key: Seq<char>) -> bool {
    !(input.get(key) matches Option::Some(JVal::Str(_)))
}

/// Plans an outbound-mail step: `user_id`, `to` and `body` are required,
/// the control plane must be configured, and the send request goes to its
/// Google send endpoint.
pub fn gmail_plan(input: &Json, control_plane: &ControlPlaneConfig) -> (r: GmailPlan)
    ensures
        missing_str_field(input@, "user_id"@) ==> (r matches GmailPlan::Invalid { error } && error@
            == "user_id required"@),
        !missing_str_field(input@, "user_id"@) && missing_str_field(input@, "to"@) ==> (r matches
            GmailPlan::Invalid { error } && error@ == "to email required"@),
        !missing_str_field(input@, "user_id"@) && !missing_str_field(input@, "to"@)
            && missing_str_field(input@, "body"@) ==> (r matches GmailPlan::Invalid { error }
            && error@ == "body required"@),
        !missing_str_field(input@, "user_id"@) && !missing_str_field(input@, "to"@)
            && !missing_str_field(input@, "body"@) && control_plane.url is None ==> (r matches
            GmailPlan::Invalid { error } && error@ == "control_plane.url not configured"@),
        (!missing_str_field(input@, "user_id"@) && !missing_str_field(input@, "to"@)
            && !missing_str_field(input@, "body"@)) ==> (control_plane.url matches Option::Some(cp)
            ==> (r matches GmailPlan::Request { url, payload, to, subject } && url@ == cp@
            + "/api/v1/oauth/google/send"@ && payload@ == gmail_payload_of(input@) && to@
            == str_field_or(input@, "to"@, Seq::empty()) && subject@ == str_field_or(
            input@,
            "subject"@,
            "(No Subject)"@,
        ))),
{
    let user_id: String = match input.get("user_id") {
        Option::Some(u) => match u {
            Json::Str(s) => crate::json::copy_string(s),
            _ => {
                return GmailPlan::Invalid { error: String::from_str("user_id required") };
            },
        },
        _ => {
            return GmailPlan::Invalid { error: String::from_str("user_id required") };
        },
    };
    let to: String = match input.get("to") {
        Option::Some(t) => match t {
            Json::Str(s) => crate::json::copy_string(s),
            _ => {
                return GmailPlan::Invalid { error: String::from_str("to email required") };
            },
        },
        _ => {
            return GmailPlan::Invalid { error: String::from_str("to email required") };
        },
    };
    let body: String = match input.get("body") {
        Option::Some(b) => match b {
            Json::Str(s) => crate::json::copy_string(s),
            _ => {
                return GmailPlan::Invalid { error: String::from_str("body required") };
            },
        },
        _ => {
            return GmailPlan::Invalid { error: String::from_str("body required") };
        },
    };
    let subject: String = match input.get("subject") {
        Option::Some(t) => match t {
            Json::Str(s) => crate::json::copy_string(s),
            _ => String::from_str("(No Subject)"),
        },
        _ => String::from_str("(No Subject)"),
    };
    let cp: &String = match &control_plane.url {
        Option::Some(u) => u,
        Option::None => {
            return GmailPlan::Invalid {
                error: String::from_str("control_plane.url not configured"),
            };
        },
    };
    let mut b = crate::json::ObjBuilder::new();
    b.add("user_id", Json::Str(user_id));
    b.add("to", Json::Str(crate::json::copy_string(&to)));
    b.add("subject", Json::Str(crate::json::copy_string(&subject)));
    b.add("body", Json::Str(body));
    match input.get("from_name") {
        Option::Some(n) => match n {
            Json::Str(s) => {
                b.add("from_name", Json::Str(crate::json::copy_string(s)));
            },
            _ => {},
        },
        _ => {},
    }
    match input.get("gmail_account_id") {
        Option::Some(a) => match a {
            Json::Str(s) => {
                b.add("gmail_account_id", Json::Str(crate::json::copy_string(s)));
            },
            _ => {},
        },
        _ => {},
    }
    let payload = b.build();
    assert(payload@->Obj_0 =~= gmail_payload_of(input@)->Obj_0);
    assert(payload@ == gmail_payload_of(input@));
    let url = concat3(cp.as_str(), "/api/v1/oauth/google/send", "");
    proof {
        reveal_strlit("");
        assert(url@ =~= cp@ + "/api/v1/oauth/google/send"@);
    }
    GmailPlan::Request { url, payload, to, subject }
}

/// The executed output of a mail step: a success summary around the
/// control plane's reported message id and send time.
pub open spec fn gmail_output_of(
    body: Seq<char>,
    to: Seq<char>,
    subject: Seq<char>,
) -> JVal {
    let parsed = harness_parsed(body);
    JVal::Obj(
        seq![
            ("success"@, JVal::Bool(true)),
            ("to"@, JVal::Str(to)),
            ("subject"@, JVal::Str(subject)),
            ("gmail_message_id"@, jv_field(parsed, "gmail_message_id"@)),
            ("sent_at"@, jv_field(parsed, "sent_at"@)),
        ],
    )
}

/// A field's value, or `null` when absent.
pub open spec fn jv_field(v: JVal, key: Seq<char>) -> JVal {
    match v.get(key) {
        Option::Some(w) => w,
        Option::None => JVal::Null,
    }
}

/// Interprets the control plane's response to a send request.
pub fn gmail_outcome(status: u16, body: String, to: String, subject: String, duration_ms: u64) -> (r:
    ExecutorResult)
    ensures
        status >= 400 ==> (r matches ExecutorResult::Error { error } && error@
            == "Gmail API error "@ + crate::json_text::int_text(status as int) + ": "@ + body@),
        status < 400 ==> (r matches ExecutorResult::Executed { output, duration_ms: d } && d
            == duration_ms && output@ == gmail_output_of(body@, to@, subject@)),
{
    if status >= 400 {
        let code = crate::json_text::int_string(status as i64);
        let mut msg = String::from_str("Gmail API error ");
        msg.append(code.as_str());
        msg.append(": ");
        msg.append(body.as_str());
        return ExecutorResult::Error { error: msg };
    }
    let ghost bodyv = body@;
    let parsed: Json = match crate::json_parse::parse_text(body.as_str()) {
        Option::Some(v) => v,
        Option::None => {
            let mut b = crate::json::ObjBuilder::new();
            b.add("raw", Json::Str(body));
            let w = b.build();
            assert(w@->Obj_0 =~= harness_parsed(bodyv)->Obj_0);
            assert(w@ == harness_parsed(bodyv));
            w
        },
    };
    let msg_id: Json = match parsed.get("gmail_message_id") {
        Option::Some(v) => v.deep_copy(),
        Option::None => Json::Null,
    };
    let sent_at: Json = match parsed.get("sent_at") {
        Option::Some(v) => v.deep_copy(),
        Option::None => Json::Null,
    };
    let mut b = crate::json::ObjBuilder::new();
    b.add("success", Json::Bool(true));
    b.add("to", Json::Str(to));
    b.add("subject", Json::Str(subject));
    b.add("gmail_message_id", msg_id);
    b.add("sent_at", sent_at);
    let output = b.build();
    assert(output@->Obj_0 =~= gmail_output_of(bodyv, to@, subject@)->Obj_0);
    assert(output@ == gmail_output_of(bodyv, to@, subject@));
    ExecutorResult::Executed { output, duration_ms }
}

} // verus!
