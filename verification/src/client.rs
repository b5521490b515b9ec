//! The per-device client: connection settings, cached name lists, and every
//! decision taken around an HTTP exchange with a WLED device (endpoints,
//! status classification, error mapping, retry policy, preset lookup).

use std::collections::HashMap;
use std::sync::{Arc, RwLock};
use std::time::Duration;
use vstd::prelude::*;
use crate::error::WledError;
use crate::text::push_decimal;
use crate::text::decimal;
use crate::types::PresetInfo;

verus! {

broadcast use vstd::std_specs::hash::group_hash_axioms;

// ── Cached name lists ────────────────────────────────────────────────────────

/// How long a fetched effect or palette list stays valid, in milliseconds (one hour).
pub const CACHE_TTL_MS: u64 = 3_600_000;

/// A list of names fetched from a device, with the time it was fetched.
///
/// Times are milliseconds on a monotonic clock chosen by the caller.
#[derive(Debug, Clone)]
pub struct CachedList {
    data: Vec<String>,
    fetched_at_ms: u64,
}

/// Milliseconds elapsed between `from` and `now` on a monotonic clock (zero if `now` is earlier).
pub open spec fn elapsed_ms(from: u64, now: u64) -> nat {
    if now >= from { (now - from) as nat } else { 0 }
}

impl CachedList {
    /// A list fetched at time `now_ms`.
    pub fn new(data: Vec<String>, now_ms: u64) -> (c: CachedList)
        ensures
            c.data() == data,
            c.fetched_at() == now_ms,
    {
        CachedList { data, fetched_at_ms: now_ms }
    }

    /// The cached names.
    pub closed spec fn data(&self) -> Vec<String> {
        self.data
    }

    /// The time the names were fetched.
    pub closed spec fn fetched_at(&self) -> u64 {
        self.fetched_at_ms
    }

    /// The cached names.
    pub fn names(&self) -> (r: &Vec<String>)
        ensures
            *r == self.data(),
    {
        &self.data
    }

    /// Whether the list is younger than the one-hour TTL at time `now_ms`.
    pub fn is_valid(&self, now_ms: u64) -> (r: bool)
        ensures
            r == (elapsed_ms(self.fetched_at(), now_ms) < CACHE_TTL_MS),
    {
        let elapsed = if now_ms >= self.fetched_at_ms { now_ms - self.fetched_at_ms } else { 0 };
        elapsed < CACHE_TTL_MS
    }
}

/// The names a cache cell holds, if it holds a list still valid at `now_ms`;
/// `None` when the list has to be fetched (again).
pub fn fresh_names(cell: &Option<CachedList>, now_ms: u64) -> (r: Option<&Vec<String>>)
    ensures
        r is Some <==> (cell matches Some(c) && elapsed_ms(c.fetched_at(), now_ms) < CACHE_TTL_MS),
        r matches Some(v) ==> *v == cell->0.data(),
{
    match cell {
        Some(c) => {
            if c.is_valid(now_ms) {
                Some(c.names())
            } else {
                None
            }
        },
        None => None,
    }
}

// ── Endpoints ────────────────────────────────────────────────────────────────

/// The device endpoints the client talks to.
#[derive(Debug, Clone, Copy, PartialEq, Eq)]
pub enum Endpoint {
    /// `/json/state`: current state (GET) and state updates (POST)
    State,
    /// `/json/info`: device information
    Info,
    /// `/json`: state, info, effects and palettes in one response
    Full,
    /// `/json/effects`: effect names
    Effects,
    /// `/json/palettes`: palette names
    Palettes,
    /// `/json/palettes?v=1&cb={id}`: color data of one palette
    PaletteColors(u16),
    /// `/json/presets`: presets keyed by slot
    Presets,
    /// `/presets.json`: presets file, for firmware without `/json/presets`
    PresetsFile,
    /// `/json/cfg`: device configuration (NTP, timers)
    Config,
}

/// The request path of an endpoint.
pub open spec fn endpoint_path(e: Endpoint) -> Seq<char> {
    match e {
        Endpoint::State => "/json/state"@,
        Endpoint::Info => "/json/info"@,
        Endpoint::Full => "/json"@,
        Endpoint::Effects => "/json/effects"@,
        Endpoint::Palettes => "/json/palettes"@,
        Endpoint::PaletteColors(id) => "/json/palettes?v=1&cb="@ + decimal(id as nat),
        Endpoint::Presets => "/json/presets"@,
        Endpoint::PresetsFile => "/presets.json"@,
        Endpoint::Config => "/json/cfg"@,
    }
}

impl Endpoint {
    /// The request path of this endpoint.
    pub fn path(&self) -> (p: String)
        ensures
            p@ == endpoint_path(*self),
    {
        match self {
            Endpoint::State => String::from_str("/json/state"),
            Endpoint::Info => String::from_str("/json/info"),
            Endpoint::Full => String::from_str("/json"),
            Endpoint::Effects => String::from_str("/json/effects"),
            Endpoint::Palettes => String::from_str("/json/palettes"),
            Endpoint::PaletteColors(id) => {
                let mut p = String::from_str("/json/palettes?v=1&cb=");
                push_decimal(&mut p, *id as u64);
                p
            },
            Endpoint::Presets => String::from_str("/json/presets"),
            Endpoint::PresetsFile => String::from_str("/presets.json"),
            Endpoint::Config => String::from_str("/json/cfg"),
        }
    }
}

// ── Classifying outcomes ─────────────────────────────────────────────────────

/// Whether an HTTP status is a success (2xx).
pub open spec fn spec_is_success_status(status: u16) -> bool {
    200 <= status <= 299
}

/// Whether an HTTP status is a success (2xx).
pub fn is_success_status(status: u16) -> (r: bool)
    ensures
        r == spec_is_success_status(status),
{
    200 <= status && status <= 299
}

/// The error for a non-success HTTP response.
pub fn api_error(device: &str, status: u16, message: String) -> (e: WledError)
    ensures
        e matches WledError::Api { device: d, status: s, message: m } && d@ == device@ && s
            == status && m@ == message@,
{
    WledError::Api { device: device.to_owned(), status, message }
}

/// The error for a failed exchange: `Timeout` if it timed out, else `Network`
/// carrying the transport's description.
pub fn transport_error(device: &str, timed_out: bool, description: String) -> (e: WledError)
    ensures
        timed_out ==> e is Timeout,
        !timed_out ==> (e matches WledError::Network { device: d, source: s } && d@ == device@
            && s@ == description@),
{
    if timed_out {
        WledError::Timeout
    } else {
        WledError::Network { device: device.to_owned(), source: description }
    }
}

/// The error for a response body that could not be decoded.
pub fn decode_error(device: &str, description: String) -> (e: WledError)
    ensures
        e matches WledError::Network { device: d, source: s } && d@ == device@ && s@
            == description@,
{
    WledError::Network { device: device.to_owned(), source: description }
}

/// Whether an error is transient and worth one retry: network failures,
/// timeouts, and 5xx responses.
pub open spec fn spec_is_retriable(err: WledError) -> bool {
    match err {
        WledError::Network { .. } => true,
        WledError::Timeout => true,
        WledError::Api { status, .. } => 500 <= status < 600,
        _ => false,
    }
}

/// Whether an error is transient and worth one retry.
pub fn is_retriable(err: &WledError) -> (r: bool)
    ensures
        r == spec_is_retriable(*err),
{
    match err {
        WledError::Network { .. } => true,
        WledError::Timeout => true,
        WledError::Api { status, .. } => 500 <= *status && *status < 600,
        _ => false,
    }
}

/// Base delay before the retry, in milliseconds.
pub const RETRY_DELAY_MS: u64 = 500;
/// Exclusive upper bound of the random jitter added to the retry delay, in milliseconds.
pub const RETRY_JITTER_MAX_MS: u64 = 200;

/// The retry delay for a given random draw: the base delay plus `random % 200` ms.
pub fn jittered_delay_ms(random: u64) -> (d: u64)
    ensures
        d == RETRY_DELAY_MS + random % RETRY_JITTER_MAX_MS,
        RETRY_DELAY_MS <= d < RETRY_DELAY_MS + RETRY_JITTER_MAX_MS,
{
    RETRY_DELAY_MS + random % RETRY_JITTER_MAX_MS
}

/// A uniformly random `u64` (`rand::random`).
#[verifier::external_body]
fn random_u64() -> u64 {
    rand::random::<u64>()
}

/// Whether an exchange that has failed after `attempts_made` attempts with `err`
/// is tried again: exactly once, and only for transient errors.
pub open spec fn spec_should_retry(attempts_made: u32, err: WledError) -> bool {
    attempts_made == 1 && spec_is_retriable(err)
}

/// Decides whether to try a failed exchange again, and after how long.
/// Returns the delay in milliseconds (500 ms plus random jitter below 200 ms),
/// or `None` when the error is to be surfaced.
pub fn retry_after(attempts_made: u32, err: &WledError) -> (r: Option<u64>)
    ensures
        r is Some <==> spec_should_retry(attempts_made, *err),
        r matches Some(d) ==> RETRY_DELAY_MS <= d < RETRY_DELAY_MS + RETRY_JITTER_MAX_MS,
{
    if attempts_made == 1 && is_retriable(err) {
        Some(jittered_delay_ms(random_u64()))
    } else {
        None
    }
}

/// The answer to a ping, from the outcome of a state request: reachable on
/// success, unreachable on timeout or network failure, any other error passed on.
pub fn ping_outcome<T>(r: Result<T, WledError>) -> (p: Result<bool, WledError>)
    ensures
        r is Ok ==> p == Ok::<bool, WledError>(true),
        r matches Err(e) ==> (if e is Timeout || e is Network {
            p == Ok::<bool, WledError>(false)
        } else {
            p == Err::<bool, WledError>(e)
        }),
{
    match r {
        Ok(_) => Ok(true),
        Err(WledError::Timeout) => Ok(false),
        Err(WledError::Network { .. }) => Ok(false),
        Err(e) => Err(e),
    }
}

/// Whether a failed preset listing is retried on the presets file:
/// firmware without `/json/presets` answers HTTP 501.
pub fn presets_fallback(err: &WledError) -> (r: bool)
    ensures
        r == (err matches WledError::Api { status, .. } && status == 501),
{
    match err {
        WledError::Api { status, .. } => *status == 501,
        _ => false,
    }
}

// ── Presets ──────────────────────────────────────────────────────────────────

/// Some slot whose preset has the given name, if there is one.
pub fn find_preset_slot(presets: &HashMap<i32, PresetInfo>, name: &str) -> (r: Option<i32>)
    ensures
        r matches Some(id) ==> presets@.contains_key(id) && presets@[id].name@ == name@,
        r is None ==> forall|id: i32| #[trigger] presets@.contains_key(id) ==> presets@[id].name@
            != name@,
{
    let target = name.to_owned();
    for entry in it: presets.iter()
        invariant
            target@ == name@,
            forall|j: int|
                0 <= j < it.index() ==> (#[trigger] it.seq()[j]).1.name@ != name@,
    {
        let (id, p) = entry;
        if p.name == target {
            return Some(*id);
        }
    }
    None
}

/// The slot of the preset with the given name, or `PresetNotFound(name)`.
pub fn resolve_preset(presets: &HashMap<i32, PresetInfo>, name: &str) -> (r: Result<i32, WledError>)
    ensures
        r matches Ok(id) ==> presets@.contains_key(id) && presets@[id].name@ == name@,
        r is Err <==> forall|id: i32| #[trigger] presets@.contains_key(id) ==> presets@[id].name@
            != name@,
        r matches Err(e) ==> e matches WledError::PresetNotFound(n) && n@ == name@,
{
    match find_preset_slot(presets, name) {
        Some(id) => Ok(id),
        None => Err(WledError::PresetNotFound(name.to_owned())),
    }
}


// ── Raw requests ─────────────────────────────────────────────────────────────

/// The HTTP methods accepted by raw requests.
#[derive(Debug, Clone, Copy, PartialEq, Eq)]
pub enum RawMethod {
    Get,
    Post,
}

/// The upper-case form of a string, as `str::to_uppercase` computes it.
pub uninterp spec fn uppercase(s: Seq<char>) -> Seq<char>;

/// `str::to_uppercase`.
#[verifier::external_body]
fn to_uppercase(s: &str) -> (r: String)
    ensures
        r@ == uppercase(s@),
{
    s.to_uppercase()
}

/// The method of a raw request, given by name in any case: `GET` or `POST`.
pub open spec fn spec_raw_method(upper: Seq<char>) -> Option<RawMethod> {
    if upper == "GET"@ {
        Some(RawMethod::Get)
    } else if upper == "POST"@ {
        Some(RawMethod::Post)
    } else {
        None
    }
}

/// Exactly two methods are recognised: `GET` as a GET and `POST` as a POST;
/// every other (upper-cased) name is refused.
pub proof fn lemma_only_get_and_post(upper: Seq<char>)
    ensures
        spec_raw_method(upper) == Some(RawMethod::Get) <==> upper == "GET"@,
        spec_raw_method(upper) == Some(RawMethod::Post) <==> upper == "POST"@,
        spec_raw_method(upper) is None <==> (upper != "GET"@ && upper != "POST"@),
{
    reveal_strlit("GET");
    reveal_strlit("POST");
    assert("GET"@ != "POST"@) by {
        assert("GET"@[0] != "POST"@[0]);
    }
}

/// Recognises the method of a raw request from its upper-cased name, or returns
/// `ConfigError("Unsupported method: <METHOD>")`.
pub fn method_from_upper(upper: String) -> (r: Result<RawMethod, WledError>)
    ensures
        r == Ok::<RawMethod, WledError>(RawMethod::Get) <==> upper@ == "GET"@,
        r == Ok::<RawMethod, WledError>(RawMethod::Post) <==> upper@ == "POST"@,
        r is Err <==> (upper@ != "GET"@ && upper@ != "POST"@),
        spec_raw_method(upper@) matches Some(m) ==> r == Ok::<RawMethod, WledError>(m),
        spec_raw_method(upper@) is None ==> (r matches Err(WledError::ConfigError(msg)) && msg@
            == "Unsupported method: "@ + upper@),
{
    proof {
        lemma_only_get_and_post(upper@);
    }
    let get = String::from_str("GET");
    let post = String::from_str("POST");
    if upper == get {
        Ok(RawMethod::Get)
    } else if upper == post {
        Ok(RawMethod::Post)
    } else {
        let mut msg = String::from_str("Unsupported method: ");
        msg.append(upper.as_str());
        Err(WledError::ConfigError(msg))
    }
}

/// Recognises the method of a raw request, in any case.
pub fn parse_raw_method(method: &str) -> (r: Result<RawMethod, WledError>)
    ensures
        spec_raw_method(uppercase(method@)) matches Some(m) ==> r == Ok::<RawMethod, WledError>(m),
        spec_raw_method(uppercase(method@)) is None ==> (r matches Err(WledError::ConfigError(msg))
            && msg@ == "Unsupported method: "@ + uppercase(method@)),
        r == Ok::<RawMethod, WledError>(RawMethod::Get) <==> uppercase(method@) == "GET"@,
        r == Ok::<RawMethod, WledError>(RawMethod::Post) <==> uppercase(method@) == "POST"@,
        r is Err <==> (uppercase(method@) != "GET"@ && uppercase(method@) != "POST"@),
{
    method_from_upper(to_uppercase(method))
}

// ── Client and builder ───────────────────────────────────────────────────────

#[verifier::external_type_specification]
#[verifier::external_body]
pub struct ExHttpClient(reqwest::Client);

#[verifier::external_type_specification]
#[verifier::external_body]
pub struct ExHttpError(reqwest::Error);

#[verifier::external_type_specification]
#[verifier::external_body]
#[verifier::reject_recursive_types(T)]
pub struct ExRwLock<T: ?Sized>(RwLock<T>);

/// `reqwest::Client::clone`: another handle on the same connection pool.
pub assume_specification[ <reqwest::Client as Clone>::clone ](c: &reqwest::Client) -> reqwest::Client;

/// The request timeout an HTTP connection pool was built with
/// (`reqwest::ClientBuilder::timeout`: the limit on each whole request).
pub uninterp spec fn request_timeout(c: reqwest::Client) -> Duration;

/// Builds the HTTP connection pool with the given request timeout
/// (`reqwest::Client::builder().timeout(..).build()`): a pool it builds applies
/// that timeout to every request. Whether it succeeds depends on the platform's
/// TLS backend, so nothing is stated of when it fails.
#[verifier::external_body]
fn build_http_client(timeout: Duration) -> (r: Result<reqwest::Client, reqwest::Error>)
    ensures
        r matches Ok(c) ==> request_timeout(c) == timeout,
{
    reqwest::Client::builder().timeout(timeout).build()
}

/// The text of an HTTP-layer error, as its `Display` shows it.
pub uninterp spec fn http_error_description(e: reqwest::Error) -> Seq<char>;

/// The text of an HTTP-layer error (`reqwest::Error` as `Display` shows it).
#[verifier::external_body]
fn http_error_text(e: &reqwest::Error) -> (r: String)
    ensures
        r@ == http_error_description(*e),
{
    e.to_string()
}

/// Whether an HTTP-layer error is a timeout, as `reqwest::Error::is_timeout` tells.
pub uninterp spec fn is_timeout_error(e: reqwest::Error) -> bool;

/// Whether an HTTP-layer error is a timeout (`reqwest::Error::is_timeout`).
#[verifier::external_body]
fn http_error_is_timeout(e: &reqwest::Error) -> (r: bool)
    ensures
        r == is_timeout_error(*e),
{
    e.is_timeout()
}

/// The duration of `secs` whole seconds, as `Duration::from_secs` gives it.
pub uninterp spec fn duration_of_secs(secs: u64) -> Duration;

/// `Duration::from_secs`.
#[verifier::external_body]
fn duration_from_secs(secs: u64) -> (d: Duration)
    ensures
        d == duration_of_secs(secs),
{
    Duration::from_secs(secs)
}

/// An empty cache cell (`RwLock::new(None)`).
#[verifier::external_body]
fn empty_cache_lock() -> RwLock<Option<CachedList>> {
    RwLock::new(None)
}

/// Default request timeout, in seconds.
pub const DEFAULT_TIMEOUT_SECS: u64 = 5;

/// Whether `p` is a prefix of `s`.
pub open spec fn has_prefix(s: Seq<char>, p: Seq<char>) -> bool {
    p.len() <= s.len() && s.subrange(0, p.len() as int) == p
}

/// Whether `p` is a prefix of `s` (`str::starts_with` for a string pattern).
pub fn starts_with(s: &str, p: &str) -> (r: bool)
    ensures
        r == has_prefix(s@, p@),
{
    let n = p.unicode_len();
    let m = s.unicode_len();
    if n > m {
        return false;
    }
    let mut i: usize = 0;
    while i < n
        invariant
            n == p@.len(),
            m == s@.len(),
            n <= m,
            i <= n,
            forall|j: int| 0 <= j < i ==> s@[j] == p@[j],
        decreases n - i,
    {
        if s.get_char(i) != p.get_char(i) {
            assert(s@.subrange(0, n as int)[i as int] != p@[i as int]);
            return false;
        }
        i = i + 1;
    }
    assert(s@.subrange(0, n as int) =~= p@);
    true
}

/// The base URL of a device: the address itself if it already names a scheme,
/// else the address behind `http://`.
pub open spec fn base_url_for(address: Seq<char>) -> Seq<char> {
    if has_prefix(address, "http://"@) || has_prefix(address, "https://"@) {
        address
    } else {
        "http://"@ + address
    }
}

/// What the library knows of a client: where the device is, what it is called,
/// and the timeout its requests run under.
pub struct ClientView {
    pub base_url: Seq<char>,
    pub device_name: Seq<char>,
    pub timeout: Duration,
}

/// HTTP client settings and state for a single WLED device.
///
/// Cheaply cloneable: clones share the connection pool and the cached lists.
#[derive(Clone)]
pub struct WledClient {
    http: reqwest::Client,
    base_url: String,
    device_name: String,
    effects_cache: Arc<RwLock<Option<CachedList>>>,
    palettes_cache: Arc<RwLock<Option<CachedList>>>,
}

impl View for WledClient {
    type V = ClientView;

    closed spec fn view(&self) -> ClientView {
        ClientView {
            base_url: self.base_url@,
            device_name: self.device_name@,
            timeout: request_timeout(self.http),
        }
    }
}

/// Builder for a [`WledClient`].
pub struct WledClientBuilder {
    address: String,
    timeout: Duration,
    device_name: Option<String>,
}

/// What the library knows of a builder: the address, the device name and the
/// request timeout given so far.
pub struct BuilderView {
    pub address: Seq<char>,
    pub device_name: Option<Seq<char>>,
    pub timeout: Duration,
}

impl View for WledClientBuilder {
    type V = BuilderView;

    closed spec fn view(&self) -> BuilderView {
        BuilderView {
            address: self.address@,
            device_name: match self.device_name {
                Some(n) => Some(n@),
                None => None,
            },
            timeout: self.timeout,
        }
    }
}

impl WledClientBuilder {
    /// Sets the request timeout (default: 5 s).
    pub fn timeout(self, timeout: Duration) -> (b: WledClientBuilder)
        ensures
            b@ == (BuilderView { timeout, ..self@ }),
    {
        WledClientBuilder { timeout, ..self }
    }

    /// Sets the human-readable device name used in error messages (default: the address).
    pub fn device_name(self, name: &str) -> (b: WledClientBuilder)
        ensures
            b@ == (BuilderView { device_name: Some(name@), ..self@ }),
    {
        WledClientBuilder { device_name: Some(name.to_owned()), ..self }
    }

    /// Builds the client. The device name defaults to the address; `http://` is put
    /// in front of an address that names no scheme; requests run under the
    /// builder's timeout. Fails with `ConfigError` only
    /// if the HTTP connection pool cannot be set up.
    pub fn build(self) -> (r: Result<WledClient, WledError>)
        ensures
            r matches Ok(c) ==> c@ == (ClientView {
                base_url: base_url_for(self@.address),
                device_name: match self@.device_name {
                    Some(n) => n,
                    None => self@.address,
                },
                timeout: self@.timeout,
            }),
            r matches Err(e) ==> e is ConfigError,
    {
        let http = match build_http_client(self.timeout) {
            Ok(h) => h,
            Err(e) => return Err(WledError::ConfigError(http_error_text(&e))),
        };
        let device_name = match self.device_name {
            Some(n) => n,
            None => self.address.clone(),
        };
        let base_url = if starts_with(self.address.as_str(), "http://") || starts_with(
            self.address.as_str(),
            "https://",
        ) {
            self.address
        } else {
            let mut u = String::from_str("http://");
            u.append(self.address.as_str());
            u
        };
        Ok(WledClient {
            http,
            base_url,
            device_name,
            effects_cache: Arc::new(empty_cache_lock()),
            palettes_cache: Arc::new(empty_cache_lock()),
        })
    }
}

impl WledClient {
    /// The HTTP connection pool this client sends its requests through.
    pub closed spec fn http_pool(&self) -> reqwest::Client {
        self.http
    }

    /// The cell holding this client's cached effect names.
    pub closed spec fn effects_cell(&self) -> Arc<RwLock<Option<CachedList>>> {
        self.effects_cache
    }

    /// The cell holding this client's cached palette names.
    pub closed spec fn palettes_cell(&self) -> Arc<RwLock<Option<CachedList>>> {
        self.palettes_cache
    }

    /// Connects to a device at `address` (IP or hostname; `http://` is added if absent).
    pub fn new(address: &str) -> (r: Result<WledClient, WledError>)
        ensures
            r matches Ok(c) ==> c@ == (ClientView {
                base_url: base_url_for(address@),
                device_name: address@,
                timeout: duration_of_secs(DEFAULT_TIMEOUT_SECS),
            }),
            r matches Err(e) ==> e is ConfigError,
    {
        WledClient::builder(address).build()
    }

    /// A builder for advanced configuration (timeout, device name).
    pub fn builder(address: &str) -> (b: WledClientBuilder)
        ensures
            b@ == (BuilderView {
                address: address@,
                device_name: None,
                timeout: duration_of_secs(DEFAULT_TIMEOUT_SECS),
            }),
    {
        WledClientBuilder {
            address: address.to_owned(),
            timeout: duration_from_secs(DEFAULT_TIMEOUT_SECS),
            device_name: None,
        }
    }

    /// The human-readable device name used in error messages.
    pub fn device_name(&self) -> (r: &str)
        ensures
            r@ == self@.device_name,
    {
        self.device_name.as_str()
    }

    /// The base URL requests are sent to.
    pub fn base_url(&self) -> (r: &str)
        ensures
            r@ == self@.base_url,
    {
        self.base_url.as_str()
    }

    /// The URL of an endpoint of this device.
    pub fn url(&self, endpoint: Endpoint) -> (r: String)
        ensures
            r@ == self@.base_url + endpoint_path(endpoint),
    {
        self.url_for_path(endpoint.path().as_str())
    }

    /// The URL of an arbitrary path on this device.
    pub fn url_for_path(&self, path: &str) -> (r: String)
        ensures
            r@ == self@.base_url + path@,
    {
        let mut u = self.base_url.clone();
        u.append(path);
        u
    }

    /// The error for an exchange with this device that failed in the HTTP layer:
    /// `Timeout` if it timed out, else `Network` naming this device and carrying
    /// the error's text.
    pub fn map_err(&self, e: &reqwest::Error) -> (r: WledError)
        ensures
            is_timeout_error(*e) ==> r is Timeout,
            !is_timeout_error(*e) ==> (r matches WledError::Network { device: d, source: s } && d@
                == self@.device_name && s@ == http_error_description(*e)),
    {
        let timed_out = http_error_is_timeout(e);
        transport_error(self.device_name.as_str(), timed_out, http_error_text(e))
    }

    /// The HTTP connection pool of this client.
    pub fn http(&self) -> (r: &reqwest::Client)
        ensures
            *r == self.http_pool(),
    {
        &self.http
    }

    /// The cached effect names (shared between clones).
    pub fn effects_cache(&self) -> (r: &Arc<RwLock<Option<CachedList>>>)
        ensures
            *r == self.effects_cell(),
    {
        &self.effects_cache
    }

    /// The cached palette names (shared between clones).
    pub fn palettes_cache(&self) -> (r: &Arc<RwLock<Option<CachedList>>>)
        ensures
            *r == self.palettes_cell(),
    {
        &self.palettes_cache
    }
}


// ── Laws ─────────────────────────────────────────────────────────────────────

/// An exchange is tried at most twice: no retry is granted after the second attempt.
pub proof fn lemma_at_most_one_retry(attempts_made: u32, err: WledError)
    ensures
        spec_should_retry(attempts_made, err) ==> attempts_made == 1,
        attempts_made >= 2 ==> !spec_should_retry(attempts_made, err),
{
}

/// Every base URL names a scheme, and deriving the base URL again changes nothing.
pub proof fn lemma_base_url_has_scheme(address: Seq<char>)
    ensures
        has_prefix(base_url_for(address), "http://"@) || has_prefix(base_url_for(address), "https://"@),
        base_url_for(base_url_for(address)) == base_url_for(address),
{
    let u = base_url_for(address);
    if !(has_prefix(address, "http://"@) || has_prefix(address, "https://"@)) {
        assert(u.subrange(0, "http://"@.len() as int) =~= "http://"@);
    }
}

/// A list is valid when just fetched, stays valid for the whole TTL, and expires after it.
pub proof fn lemma_cache_lifetime(fetched_at: u64, now: u64)
    ensures
        elapsed_ms(fetched_at, fetched_at) < CACHE_TTL_MS,
        now >= fetched_at ==> (elapsed_ms(fetched_at, now) < CACHE_TTL_MS <==> now - fetched_at < CACHE_TTL_MS),
{
}

} // verus!
