//! Admin API: the routes of the management interface, the responses that
//! stand behind them, and the check of the API key.

use vstd::prelude::*;
use crate::text::{lowercase_text, str_eq, to_lowercase, to_uppercase, upper_text};
use crate::text_map::TextMap;

verus! {

/// The version that the info route reports.
pub const VERSION_TEXT: &'static str = "0.1.0";

/// Admin API configuration.
#[derive(Debug, Clone)]
pub struct AdminConfig {
    /// Admin API port.
    pub port: u16,
    /// Whether the admin API is on.
    pub enabled: bool,
    /// Whether requests must carry the API key.
    pub require_auth: bool,
    /// The API key.
    pub api_key: Option<String>,
}

impl Default for AdminConfig {
    /// Port 9090, on, without authentication.
    fn default() -> (c: AdminConfig)
        ensures
            c.port == 9090,
            c.enabled,
            !c.require_auth,
            c.api_key is None,
    {
        AdminConfig { port: 9090, enabled: true, require_auth: false, api_key: None }
    }
}

impl AdminConfig {
    /// The same configuration with another port.
    pub fn with_port(self, port: u16) -> (c: AdminConfig)
        ensures
            c.port == port,
            c.enabled == self.enabled,
            c.require_auth == self.require_auth,
            c.api_key == self.api_key,
    {
        let mut c = self;
        c.port = port;
        c
    }

    /// The same configuration with authentication by an API key.
    pub fn with_auth(self, api_key: &str) -> (c: AdminConfig)
        ensures
            c.require_auth,
            c.api_key matches Some(k) && k@ == api_key@,
            c.port == self.port,
            c.enabled == self.enabled,
    {
        let mut c = self;
        c.require_auth = true;
        c.api_key = Some(String::from_str(api_key));
        c
    }
}

/// Response of an admin route.
#[derive(Debug, Clone)]
pub struct AdminResponse {
    pub status: u16,
    pub content_type: String,
    pub body: String,
}

/// A response as a value.
pub struct AdminResponseModel {
    pub status: u16,
    pub content_type: Seq<char>,
    pub body: Seq<char>,
}

impl View for AdminResponse {
    type V = AdminResponseModel;

    open spec fn view(&self) -> AdminResponseModel {
        AdminResponseModel {
            status: self.status,
            content_type: self.content_type@,
            body: self.body@,
        }
    }
}

/// The response of a success.
pub open spec fn ok_response(body: Seq<char>) -> AdminResponseModel {
    AdminResponseModel { status: 200, content_type: "application/json"@, body }
}

/// The response of a failure: the message in a JSON object.
pub open spec fn error_response(status: u16, message: Seq<char>) -> AdminResponseModel {
    AdminResponseModel {
        status,
        content_type: "application/json"@,
        body: "{\"error\":\""@ + message + "\"}"@,
    }
}

impl AdminResponse {
    /// A success with a JSON body.
    pub fn ok(body: &str) -> (r: AdminResponse)
        ensures
            r@ == ok_response(body@),
    {
        AdminResponse {
            status: 200,
            content_type: String::from_str("application/json"),
            body: String::from_str(body),
        }
    }

    /// A failure with a status and a message.
    pub fn error(status: u16, message: &str) -> (r: AdminResponse)
        ensures
            r@ == error_response(status, message@),
    {
        let mut body = String::from_str("{\"error\":\"");
        body.append(message);
        body.append("\"}");
        AdminResponse { status, content_type: String::from_str("application/json"), body }
    }

    /// The answer to an unknown route.
    pub fn not_found() -> (r: AdminResponse)
        ensures
            r@ == error_response(404, "Not found"@),
    {
        AdminResponse::error(404, "Not found")
    }

    /// The answer to a request without the API key.
    pub fn unauthorized() -> (r: AdminResponse)
        ensures
            r@ == error_response(401, "Unauthorized"@),
    {
        AdminResponse::error(401, "Unauthorized")
    }

    /// A copy of this response.
    pub fn duplicate(&self) -> (r: AdminResponse)
        ensures
            r@ == self@,
    {
        AdminResponse {
            status: self.status,
            content_type: self.content_type.clone(),
            body: self.body.clone(),
        }
    }
}

/// Request to the admin API.
pub struct AdminRequest {
    /// The method, in upper case.
    pub method: String,
    pub path: String,
    /// Query parameters.
    pub query: TextMap<String>,
    /// Headers, by their names in lower case.
    pub headers: TextMap<String>,
    pub body: String,
}

impl AdminRequest {
    /// The tables of the request are well formed.
    pub open spec fn wf(&self) -> bool {
        self.query.wf() && self.headers.wf()
    }

    /// The route that the request asks for: the method, a space, and the
    /// path.
    pub open spec fn route(&self) -> Seq<char> {
        self.method@ + " "@ + self.path@
    }

    /// The value of a header, if the request has it.
    pub open spec fn header(&self, name: Seq<char>) -> Option<Seq<char>> {
        if self.headers.has(lowercase_text(name)) {
            Some(self.headers.value_of(lowercase_text(name))@)
        } else {
            None
        }
    }

    /// A request without query, headers or body.
    pub fn new(method: &str, path: &str) -> (r: AdminRequest)
        ensures
            r.wf(),
            r.method@ == upper_text(method@),
            r.path@ == path@,
            r.body@.len() == 0,
            forall|name: Seq<char>| !r.headers.has(name),
            forall|name: Seq<char>| !r.query.has(name),
    {
        AdminRequest {
            method: to_uppercase(method),
            path: String::from_str(path),
            query: TextMap::new(),
            headers: TextMap::new(),
            body: String::new(),
        }
    }

    /// The same request with a query parameter.
    pub fn with_query(self, key: &str, value: &str) -> (r: AdminRequest)
        requires
            self.wf(),
        ensures
            r.wf(),
            r.method == self.method,
            r.path == self.path,
            r.body == self.body,
            r.headers == self.headers,
            r.query.has(key@),
            r.query.value_of(key@)@ == value@,
            forall|other: Seq<char>|
                other != key@ ==> r.query.has(other) == self.query.has(other) && (self.query.has(
                    other,
                ) ==> r.query.value_of(other) == self.query.value_of(other)),
    {
        let mut r = self;
        r.query.insert(String::from_str(key), String::from_str(value));
        r
    }

    /// The same request with a header; the name counts in lower case.
    pub fn with_header(self, key: &str, value: &str) -> (r: AdminRequest)
        requires
            self.wf(),
        ensures
            r.wf(),
            r.method == self.method,
            r.path == self.path,
            r.body == self.body,
            r.query == self.query,
            r.headers.has(lowercase_text(key@)),
            r.headers.value_of(lowercase_text(key@))@ == value@,
            forall|other: Seq<char>|
                other != lowercase_text(key@) ==> r.headers.has(other) == self.headers.has(other)
                    && (self.headers.has(other) ==> r.headers.value_of(other)
                    == self.headers.value_of(other)),
    {
        let mut r = self;
        r.headers.insert(to_lowercase(key), String::from_str(value));
        r
    }

    /// The value of a header; the name counts in lower case.
    pub fn get_header(&self, key: &str) -> (r: Option<&String>)
        requires
            self.wf(),
        ensures
            match self.header(key@) {
                Some(v) => r matches Some(got) && got@ == v,
                None => r is None,
            },
    {
        let name = to_lowercase(key);
        self.headers.get(name.as_str())
    }
}

/// Whether a request with this authorization header passes: the header
/// is "Bearer " and the API key, or there is neither header nor key.
pub open spec fn authorized(api_key: Option<Seq<char>>, header: Option<Seq<char>>) -> bool {
    match (api_key, header) {
        (Some(k), Some(h)) => h == "Bearer "@ + k,
        (None, None) => true,
        _ => false,
    }
}

/// Admin API router.
pub struct AdminApi {
    config: AdminConfig,
    handlers: TextMap<AdminResponse>,
}

impl AdminApi {
    /// The configuration.
    pub closed spec fn spec_config(&self) -> AdminConfig {
        self.config
    }

    /// The responses, by route.
    pub closed spec fn handlers(&self) -> TextMap<AdminResponse> {
        self.handlers
    }

    /// The table of routes is well formed.
    pub open spec fn wf(&self) -> bool {
        self.handlers().wf()
    }

    /// The API key of the configuration, as text.
    pub open spec fn api_key(&self) -> Option<Seq<char>> {
        match self.spec_config().api_key {
            Some(k) => Some(k@),
            None => None,
        }
    }

    /// The answer to a request: "unauthorized" where authentication is
    /// required and the request does not pass; else the response behind
    /// the route; else "not found".
    pub open spec fn answer(&self, req: &AdminRequest) -> AdminResponseModel {
        if self.spec_config().require_auth && !authorized(
            self.api_key(),
            req.header("authorization"@),
        ) {
            error_response(401, "Unauthorized"@)
        } else if self.handlers().has(req.route()) {
            self.handlers().value_of(req.route())@
        } else {
            error_response(404, "Not found"@)
        }
    }

    /// A router with the default routes: health, info, stats, reload of
    /// the configuration, flush of the cache, and profiling.
    pub fn new(config: AdminConfig) -> (api: AdminApi)
        ensures
            api.wf(),
            api.spec_config() == config,
            api.handlers().has("GET /health"@),
            api.handlers().value_of("GET /health"@)@ == ok_response("{\"status\":\"ok\"}"@),
            api.handlers().has("GET /info"@),
            api.handlers().has("GET /stats"@),
            api.handlers().has("POST /config/reload"@),
            api.handlers().has("POST /cache/flush"@),
            api.handlers().has("GET /debug/pprof"@),
    {
        let mut api = AdminApi { config, handlers: TextMap::new() };
        api.register_default_handlers();
        api
    }

    fn register_default_handlers(&mut self)
        requires
            old(self).wf(),
        ensures
            final(self).wf(),
            final(self).spec_config() == old(self).spec_config(),
            final(self).handlers().has("GET /health"@),
            final(self).handlers().value_of("GET /health"@)@ == ok_response(
                "{\"status\":\"ok\"}"@,
            ),
            final(self).handlers().has("GET /info"@),
            final(self).handlers().has("GET /stats"@),
            final(self).handlers().has("POST /config/reload"@),
            final(self).handlers().has("POST /cache/flush"@),
            final(self).handlers().has("GET /debug/pprof"@),
    {
        proof {
            reveal_strlit("GET /health");
            reveal_strlit("GET /info");
            reveal_strlit("GET /stats");
            reveal_strlit("POST /config/reload");
            reveal_strlit("POST /cache/flush");
            reveal_strlit("GET /debug/pprof");
            assert("GET /health"@[5] != "GET /info"@[5]);
            assert("GET /health"@[5] != "GET /stats"@[5]);
            assert("GET /health"@[5] != "GET /debug/pprof"@[5]);
            assert("GET /health"@[0] != "POST /config/reload"@[0]);
            assert("GET /health"@[0] != "POST /cache/flush"@[0]);
        }
        self.register("GET /health", AdminResponse::ok("{\"status\":\"ok\"}"));
        let mut info = String::from_str("{\"version\":\"");
        info.append(VERSION_TEXT);
        info.append("\",\"name\":\"celrix\"}");
        self.register("GET /info", AdminResponse::ok(info.as_str()));
        self.register(
            "GET /stats",
            AdminResponse::ok("{\"ops_total\":0,\"keys\":0,\"memory_bytes\":0}"),
        );
        self.register("POST /config/reload", AdminResponse::ok("{\"reloaded\":true}"));
        self.register("POST /cache/flush", AdminResponse::ok("{\"flushed\":true}"));
        self.register(
            "GET /debug/pprof",
            AdminResponse::ok("{\"profile\":\"not available in release\"}"),
        );
    }

    /// Puts a response behind a route, in the place of the one that was
    /// there.
    pub fn register(&mut self, route: &str, response: AdminResponse)
        requires
            old(self).wf(),
        ensures
            final(self).wf(),
            final(self).spec_config() == old(self).spec_config(),
            final(self).handlers().has(route@),
            final(self).handlers().value_of(route@) == response,
            forall|other: Seq<char>|
                other != route@
                    ==> final(self).handlers().has(other) == old(self).handlers().has(other)
                    && (old(self).handlers().has(other)
                        ==> final(self).handlers().value_of(other)
                            == old(self).handlers().value_of(other)),
    {
        self.handlers.insert(String::from_str(route), response);
    }

    /// Answers a request.
    pub fn handle(&self, req: &AdminRequest) -> (r: AdminResponse)
        requires
            self.wf(),
            req.wf(),
        ensures
            r@ == self.answer(req),
    {
        if self.config.require_auth {
            let passes = match (&self.config.api_key, req.get_header("authorization")) {
                (Some(k), Some(h)) => {
                    let mut expected = String::from_str("Bearer ");
                    expected.append(k.as_str());
                    str_eq(h.as_str(), expected.as_str())
                },
                (None, None) => true,
                _ => false,
            };
            if !passes {
                return AdminResponse::unauthorized();
            }
        }
        let mut route = req.method.clone();
        route.append(" ");
        route.append(req.path.as_str());
        match self.handlers.get(route.as_str()) {
            Some(response) => response.duplicate(),
            None => AdminResponse::not_found(),
        }
    }

    /// The routes, in the order in which they were first registered.
    pub fn routes(&self) -> (r: Vec<String>)
        requires
            self.wf(),
        ensures
            crate::text::texts(r@) == self.handlers().keys(),
    {
        let mut out: Vec<String> = Vec::new();
        let n = self.handlers.len();
        let mut i: usize = 0;
        while i < n
            invariant
                i <= n,
                self.wf(),
                n == self.handlers().keys().len(),
                out@.len() == i,
                forall|j: int| 0 <= j < i ==> (#[trigger] out@[j])@ == self.handlers().keys()[j],
            decreases n - i,
        {
            out.push(self.handlers.key_at(i).clone());
            i += 1;
        }
        assert(crate::text::texts(out@) =~= self.handlers().keys());
        out
    }
}

impl Default for AdminApi {
    fn default() -> (api: AdminApi)
        ensures
            api.wf(),
            !api.spec_config().require_auth,
            api.handlers().has("GET /health"@),
    {
        AdminApi::new(AdminConfig::default())
    }
}

} // verus!
