//! Inter-platform communication: its errors and configuration, and the
//! message-transport (MTP) errors, status, configuration, delivery results
//! and statistics.
use vstd::prelude::*;
use crate::address::{address_error_text, AddressError};
use crate::clock::unix_time_secs;
use crate::strmap::StrMap;
use crate::keyed::{find_key, key_index, keyed_map, keyed_put, keys_of, lemma_key_index};
use crate::text::{concat, contains_seq, contains_str, find_char, occurs_at, owned, push_char, starts_with, str_eq};

verus! {

/// Message-transport errors.
#[derive(Debug)]
pub enum MtpError {
    ConnectionFailed(String),
    SendFailed(String),
    ReceiveFailed(String),
    InvalidAddress(String),
    ProtocolNotSupported(String),
    NotActive,
    Timeout,
    Io(String),
    Serialization(String),
}

/// The human-readable text of a transport error.
pub open spec fn mtp_error_text(e: MtpError) -> Seq<char> {
    match e {
        MtpError::ConnectionFailed(m) => "Connection failed: "@ + m@,
        MtpError::SendFailed(m) => "Send failed: "@ + m@,
        MtpError::ReceiveFailed(m) => "Receive failed: "@ + m@,
        MtpError::InvalidAddress(m) => "Invalid address: "@ + m@,
        MtpError::ProtocolNotSupported(m) => "Protocol not supported: "@ + m@,
        MtpError::NotActive => "MTP not active"@,
        MtpError::Timeout => "Timeout"@,
        MtpError::Io(m) => "IO error: "@ + m@,
        MtpError::Serialization(m) => "Serialization error: "@ + m@,
    }
}

impl MtpError {
    /// The error as text.
    pub fn message(&self) -> (r: String)
        ensures
            r@ == mtp_error_text(*self),
    {
        match self {
            MtpError::ConnectionFailed(m) => concat("Connection failed: ", m.as_str()),
            MtpError::SendFailed(m) => concat("Send failed: ", m.as_str()),
            MtpError::ReceiveFailed(m) => concat("Receive failed: ", m.as_str()),
            MtpError::InvalidAddress(m) => concat("Invalid address: ", m.as_str()),
            MtpError::ProtocolNotSupported(m) => concat("Protocol not supported: ", m.as_str()),
            MtpError::NotActive => owned("MTP not active"),
            MtpError::Timeout => owned("Timeout"),
            MtpError::Io(m) => concat("IO error: ", m.as_str()),
            MtpError::Serialization(m) => concat("Serialization error: ", m.as_str()),
        }
    }
}

/// Inter-platform communication errors.
#[derive(Debug)]
pub enum InterplatformError {
    Mtp(MtpError),
    Address(AddressError),
    NoSuitableMtp(String),
    PlatformUnreachable(String),
    DeliveryFailed(String),
    Timeout,
}

/// The human-readable text of an inter-platform error.
pub open spec fn interplatform_error_text(e: InterplatformError) -> Seq<char> {
    match e {
        InterplatformError::Mtp(m) => "MTP error: "@ + mtp_error_text(m),
        InterplatformError::Address(a) => "Address error: "@ + address_error_text(a),
        InterplatformError::NoSuitableMtp(a) => "No suitable MTP found for address: "@ + a@,
        InterplatformError::PlatformUnreachable(p) => "Platform unreachable: "@ + p@,
        InterplatformError::DeliveryFailed(m) => "Message delivery failed: "@ + m@,
        InterplatformError::Timeout => "Timeout"@,
    }
}

impl InterplatformError {
    /// The error as text.
    pub fn message(&self) -> (r: String)
        ensures
            r@ == interplatform_error_text(*self),
    {
        match self {
            InterplatformError::Mtp(m) => concat("MTP error: ", m.message().as_str()),
            InterplatformError::Address(a) => concat("Address error: ", a.message().as_str()),
            InterplatformError::NoSuitableMtp(a) => concat("No suitable MTP found for address: ", a.as_str()),
            InterplatformError::PlatformUnreachable(p) => concat("Platform unreachable: ", p.as_str()),
            InterplatformError::DeliveryFailed(m) => concat("Message delivery failed: ", m.as_str()),
            InterplatformError::Timeout => owned("Timeout"),
        }
    }
}

impl From<MtpError> for InterplatformError {
    fn from(e: MtpError) -> (r: Self)
        ensures
            r == InterplatformError::Mtp(e),
    {
        InterplatformError::Mtp(e)
    }
}

impl vstd::std_specs::convert::FromSpecImpl<MtpError> for InterplatformError {
    open spec fn obeys_from_spec() -> bool {
        true
    }

    open spec fn from_spec(e: MtpError) -> Self {
        InterplatformError::Mtp(e)
    }
}

impl From<AddressError> for InterplatformError {
    fn from(e: AddressError) -> (r: Self)
        ensures
            r == InterplatformError::Address(e),
    {
        InterplatformError::Address(e)
    }
}

impl vstd::std_specs::convert::FromSpecImpl<AddressError> for InterplatformError {
    open spec fn obeys_from_spec() -> bool {
        true
    }

    open spec fn from_spec(e: AddressError) -> Self {
        InterplatformError::Address(e)
    }
}

/// Inter-platform communication settings.
#[derive(Debug)]
pub struct InterplatformConfig {
    /// Local platform name.
    pub platform_name: String,
    /// Local listen addresses.
    pub listen_addresses: Vec<String>,
    pub enable_http_mtp: bool,
    pub http_port: u16,
    pub connection_timeout_secs: u64,
    pub message_timeout_secs: u64,
    /// Retries for failed deliveries.
    pub max_retries: u32,
    pub retry_delay_ms: u64,
    pub enable_buffering: bool,
    pub max_buffer_size: usize,
}

impl Default for InterplatformConfig {
    /// Platform `fipa-platform` listening on `0.0.0.0:8080` with HTTP on
    /// port 8080, 30 s connect and 60 s message timeouts, 3 retries 1000 ms
    /// apart, buffering up to 1000 messages.
    fn default() -> (c: Self)
        ensures
            c.platform_name@ == "fipa-platform"@,
            c.listen_addresses@.len() == 1,
            c.listen_addresses@[0]@ == "0.0.0.0:8080"@,
            c.enable_http_mtp,
            c.http_port == 8080,
            c.connection_timeout_secs == 30,
            c.message_timeout_secs == 60,
            c.max_retries == 3,
            c.retry_delay_ms == 1000,
            c.enable_buffering,
            c.max_buffer_size == 1000,
    {
        let mut listen_addresses: Vec<String> = Vec::new();
        listen_addresses.push(owned("0.0.0.0:8080"));
        InterplatformConfig {
            platform_name: owned("fipa-platform"),
            listen_addresses,
            enable_http_mtp: true,
            http_port: 8080,
            connection_timeout_secs: 30,
            message_timeout_secs: 60,
            max_retries: 3,
            retry_delay_ms: 1000,
            enable_buffering: true,
            max_buffer_size: 1000,
        }
    }
}

/// Where a transport stands.
#[derive(Debug, PartialEq)]
pub enum MtpStatus {
    Inactive,
    Starting,
    Active,
    Stopping,
    Error(String),
}

/// Transport settings.
#[derive(Debug)]
pub struct MtpConfig {
    pub enabled: bool,
    /// Listen address for incoming messages.
    pub listen_address: Option<String>,
    pub connection_timeout_secs: u64,
    pub read_timeout_secs: u64,
    pub write_timeout_secs: u64,
    /// Largest message, in bytes.
    pub max_message_size: usize,
    /// Protocol-specific settings.
    pub extra: StrMap,
}

impl Default for MtpConfig {
    /// Enabled, no listen address, 30 s connect and 60 s read and write
    /// timeouts, messages up to 10 MiB, no extra settings.
    fn default() -> (c: Self)
        ensures
            c.enabled,
            c.listen_address is None,
            c.connection_timeout_secs == 30,
            c.read_timeout_secs == 60,
            c.write_timeout_secs == 60,
            c.max_message_size == 10 * 1024 * 1024,
            c.extra@ == Map::<Seq<char>, Seq<char>>::empty(),
    {
        MtpConfig {
            enabled: true,
            listen_address: None,
            connection_timeout_secs: 30,
            read_timeout_secs: 60,
            write_timeout_secs: 60,
            max_message_size: 10 * 1024 * 1024,
            extra: StrMap::new(),
        }
    }
}

/// The outcome of one delivery.
#[derive(Debug)]
pub struct DeliveryResult {
    pub success: bool,
    pub message_id: String,
    /// Delivery time, in seconds since the epoch (0 when it failed).
    pub delivered_at: u64,
    /// Why it failed.
    pub error: Option<String>,
}

impl DeliveryResult {
    /// A delivery that succeeded now.
    pub fn success(message_id: String) -> (r: Self)
        ensures
            r.success,
            r.message_id@ == message_id@,
            r.error is None,
    {
        Self::success_at(message_id, unix_time_secs())
    }

    /// A delivery that succeeded at `delivered_at`.
    pub fn success_at(message_id: String, delivered_at: u64) -> (r: Self)
        ensures
            r.success,
            r.message_id@ == message_id@,
            r.delivered_at == delivered_at,
            r.error is None,
    {
        DeliveryResult { success: true, message_id, delivered_at, error: None }
    }

    /// A delivery that failed with this error.
    pub fn failed(message_id: String, error: String) -> (r: Self)
        ensures
            !r.success,
            r.message_id@ == message_id@,
            r.delivered_at == 0,
            r.error matches Some(e) && e@ == error@,
    {
        DeliveryResult { success: false, message_id, delivered_at: 0, error: Some(error) }
    }
}

/// Transport counters.
#[derive(Debug)]
pub struct MtpStats {
    pub messages_sent: u64,
    pub messages_received: u64,
    pub send_failures: u64,
    pub receive_failures: u64,
    pub bytes_sent: u64,
    pub bytes_received: u64,
    pub active_connections: usize,
}

impl Default for MtpStats {
    /// All counters zero.
    fn default() -> (s: Self)
        ensures
            s.messages_sent == 0 && s.messages_received == 0,
            s.send_failures == 0 && s.receive_failures == 0,
            s.bytes_sent == 0 && s.bytes_received == 0,
            s.active_connections == 0,
    {
        MtpStats {
            messages_sent: 0,
            messages_received: 0,
            send_failures: 0,
            receive_failures: 0,
            bytes_sent: 0,
            bytes_received: 0,
            active_connections: 0,
        }
    }
}

/// Whether `a` starts with `http://` or `https://`.
pub open spec fn is_http_url(a: Seq<char>) -> bool {
    ||| ("http://"@.len() <= a.len() && a.take("http://"@.len() as int) == "http://"@)
    ||| ("https://"@.len() <= a.len() && a.take("https://"@.len() as int) == "https://"@)
}

/// `s` with every trailing `c` removed.
pub open spec fn strip_trailing(s: Seq<char>, c: char) -> Seq<char>
    decreases s.len(),
{
    if s.len() > 0 && s.last() == c {
        strip_trailing(s.drop_last(), c)
    } else {
        s
    }
}

/// The endpoint for a URL: the URL itself when it names `/acc`, else the URL
/// without trailing slashes followed by `/acc`.
pub open spec fn acc_endpoint(u: Seq<char>) -> Seq<char> {
    if contains_seq(u, "/acc"@) {
        u
    } else {
        strip_trailing(u, '/') + "/acc"@
    }
}

/// The HTTP endpoint that an address names: an `http(s)://` URL, or an
/// `agent@` followed by one (after the first `@`); `None` otherwise.
pub open spec fn http_destination_spec(a: Seq<char>) -> Option<Seq<char>> {
    if is_http_url(a) {
        Some(acc_endpoint(a))
    } else if exists|p: int| 0 <= p < a.len() && a[p] == '@' {
        let p = choose|p: int| 0 <= p < a.len() && a[p] == '@' && forall|j: int| 0 <= j < p ==> a[j] != '@';
        let rest = a.skip(p + 1);
        if is_http_url(rest) {
            Some(acc_endpoint(rest))
        } else {
            None
        }
    } else {
        None
    }
}

/// The characters of `s` from index `from` on.
fn chars_from(s: &str, from: usize) -> (r: String)
    requires
        from <= s@.len(),
    ensures
        r@ == s@.skip(from as int),
{
    let n = s.unicode_len();
    let mut r = String::new();
    let mut i: usize = from;
    while i < n
        invariant
            n == s@.len(),
            from <= i <= n,
            r@ == s@.subrange(from as int, i as int),
        decreases n - i,
    {
        push_char(&mut r, s.get_char(i));
        assert(s@.subrange(from as int, i + 1) =~= s@.subrange(from as int, i as int).push(s@[i as int]));
        i = i + 1;
    }
    assert(s@.subrange(from as int, n as int) =~= s@.skip(from as int));
    r
}

/// Whether `a` is an HTTP(S) URL.
fn http_url(a: &str) -> (r: bool)
    ensures
        r == is_http_url(a@),
{
    starts_with(a, "http://") || starts_with(a, "https://")
}

/// The `/acc` endpoint of URL `u`.
fn acc_endpoint_of(u: &str) -> (r: String)
    ensures
        r@ == acc_endpoint(u@),
{
    if contains_str(u, "/acc") {
        return owned(u);
    }
    let n = u.unicode_len();
    let mut e: usize = n;
    assert(u@.take(n as int) =~= u@);
    while e > 0 && u.get_char(e - 1) == '/'
        invariant
            n == u@.len(),
            e <= n,
            strip_trailing(u@, '/') == strip_trailing(u@.take(e as int), '/'),
        decreases e,
    {
        assert(u@.take(e as int).drop_last() =~= u@.take(e - 1));
        e = e - 1;
    }
    let mut r = String::new();
    let mut i: usize = 0;
    while i < e
        invariant
            n == u@.len(),
            e <= n,
            i <= e,
            r@ == u@.take(i as int),
        decreases e - i,
    {
        push_char(&mut r, u.get_char(i));
        assert(u@.take(i + 1) =~= u@.take(i as int).push(u@[i as int]));
        i = i + 1;
    }
    proof {
        assert(strip_trailing(u@.take(e as int), '/') == u@.take(e as int));
    }
    let mut out = r;
    out.append("/acc");
    out
}

/// The HTTP endpoint for an address: `http(s)://host[:port][/path]`, or
/// `agent@` followed by such a URL; an address that names no `/acc` gets it
/// appended. Any other address is invalid.
pub fn http_destination(address: &str) -> (r: Result<String, MtpError>)
    ensures
        match http_destination_spec(address@) {
            Some(u) => r matches Ok(v) && v@ == u,
            None => r matches Err(MtpError::InvalidAddress(m))
                && m@ == "Cannot parse HTTP address from: "@ + address@,
        },
{
    if http_url(address) {
        return Ok(acc_endpoint_of(address));
    }
    let n = address.unicode_len();
    match find_char(address, '@') {
        Some(p) => {
            assert(p < n);
            let rest = chars_from(address, p + 1);
            proof {
                let a = address@;
                assert(exists|q: int| 0 <= q < a.len() && a[q] == '@');
                let q = choose|q: int| 0 <= q < a.len() && a[q] == '@' && forall|j: int| 0 <= j < q ==> a[j] != '@';
                assert(0 <= p < a.len() && a[p as int] == '@' && forall|j: int| 0 <= j < p ==> a[j] != '@');
                if q < p {
                    assert(a[q] != '@');
                }
                if p < q {
                    assert(a[p as int] != '@');
                }
            }
            if http_url(rest.as_str()) {
                return Ok(acc_endpoint_of(rest.as_str()));
            }
        },
        None => {},
    }
    Err(MtpError::InvalidAddress(concat("Cannot parse HTTP address from: ", address)))
}

/// Whether a transport with URL schemes `schemes` handles `address`: the
/// address starts with one of them followed by `://`.
pub open spec fn handles_spec(schemes: Seq<String>, address: Seq<char>) -> bool {
    exists|i: int| 0 <= i < schemes.len() && #[trigger] has_scheme(address, schemes[i]@)
}

/// Whether `address` starts with `scheme` followed by `://`.
pub open spec fn has_scheme(address: Seq<char>, scheme: Seq<char>) -> bool {
    let p = scheme + "://"@;
    p.len() <= address.len() && address.take(p.len() as int) == p
}

/// Whether a transport with URL schemes `schemes` handles `address`.
pub fn can_handle(schemes: &Vec<String>, address: &str) -> (r: bool)
    ensures
        r == handles_spec(schemes@, address@),
{
    let mut i: usize = 0;
    while i < schemes.len()
        invariant
            i <= schemes@.len(),
            forall|j: int| 0 <= j < i ==> !#[trigger] has_scheme(address@, schemes@[j]@),
        decreases schemes@.len() - i,
    {
        let prefix = concat(schemes[i].as_str(), "://");
        if starts_with(address, prefix.as_str()) {
            assert(has_scheme(address@, schemes@[i as int]@));
            return true;
        }
        i = i + 1;
    }
    false
}

/// The name the HTTP transport registers under.
pub const HTTP_MTP_NAME: &'static str = "http";

/// The URL schemes the HTTP transport handles: `http` and `https`.
pub fn http_mtp_schemes() -> (v: Vec<String>)
    ensures
        v@.len() == 2,
        v@[0]@ == "http"@,
        v@[1]@ == "https"@,
{
    let mut v: Vec<String> = Vec::new();
    v.push(owned("http"));
    v.push(owned("https"));
    v
}

/// The first index where `needle` occurs in `s`, if any.
pub open spec fn first_occurrence(s: Seq<char>, needle: Seq<char>) -> Option<int> {
    if contains_seq(s, needle) {
        Some(choose|i: int| occurs_at(s, needle, i) && forall|j: int| 0 <= j < i ==> !occurs_at(s, needle, j))
    } else {
        None
    }
}

proof fn lemma_first_occurrence_from(s: Seq<char>, needle: Seq<char>, w: int)
    requires
        occurs_at(s, needle, w),
    ensures
        exists|i: int| occurs_at(s, needle, i) && forall|j: int| 0 <= j < i ==> !occurs_at(s, needle, j),
    decreases w,
{
    if exists|j: int| 0 <= j < w && occurs_at(s, needle, j) {
        let j = choose|j: int| 0 <= j < w && occurs_at(s, needle, j);
        lemma_first_occurrence_from(s, needle, j);
    }
}

/// The scheme of an address: what comes before the first `://`, or the
/// whole address when there is none.
pub open spec fn scheme_of(a: Seq<char>) -> Seq<char> {
    match first_occurrence(a, "://"@) {
        Some(i) => a.take(i),
        None => a,
    }
}

/// The scheme of `address`.
fn scheme(address: &str) -> (r: String)
    ensures
        r@ == scheme_of(address@),
{
    let n = address.unicode_len();
    let sep = "://";
    let mut i: usize = 0;
    let mut r = String::new();
    proof {
        reveal_strlit("://");
    }
    while i < n
        invariant
            n == address@.len(),
            sep@ == "://"@,
            sep@.len() == 3,
            i <= n,
            r@ == address@.take(i as int),
            forall|j: int| 0 <= j < i ==> !occurs_at(address@, "://"@, j),
        decreases n - i,
    {
        if n - i >= 3 && address.get_char(i) == ':' && address.get_char(i + 1) == '/' && address.get_char(i + 2) == '/' {
            proof {
                reveal_strlit("://");
                assert(address@.subrange(i as int, i + 3) =~= "://"@);
                assert(occurs_at(address@, "://"@, i as int));
                lemma_first_occurrence_from(address@, "://"@, i as int);
                let k = choose|k: int| occurs_at(address@, "://"@, k) && forall|j: int| 0 <= j < k ==> !occurs_at(address@, "://"@, j);
                if k < i {
                    assert(!occurs_at(address@, "://"@, k));
                }
                if i < k {
                    assert(!occurs_at(address@, "://"@, i as int));
                }
            }
            return r;
        }
        proof {
            reveal_strlit("://");
            if occurs_at(address@, "://"@, i as int) {
                assert(address@.subrange(i as int, i + 3)[0] == address@[i as int]);
                assert(address@.subrange(i as int, i + 3)[1] == address@[i + 1]);
                assert(address@.subrange(i as int, i + 3)[2] == address@[i + 2]);
            }
        }
        push_char(&mut r, address.get_char(i));
        assert(address@.take(i + 1) =~= address@.take(i as int).push(address@[i as int]));
        i = i + 1;
    }
    proof {
        assert(address@.take(n as int) =~= address@);
        assert forall|j: int| !occurs_at(address@, "://"@, j) by {
            if occurs_at(address@, "://"@, j) && j >= n {
            }
        }
    }
    r
}

/// Whether an MTP name matches a scheme: either contains the other.
pub open spec fn name_matches(name: Seq<char>, scheme: Seq<char>) -> bool {
    contains_seq(name, scheme) || contains_seq(scheme, name)
}

/// A registry of message transports as plain values: the transports by
/// name, and the default's name.
pub struct MtpRegistryView<M> {
    pub mtps: Map<Seq<char>, M>,
    pub default_mtp: Option<Seq<char>>,
}

/// The transport that the default name names, if any.
pub open spec fn default_of<M>(v: MtpRegistryView<M>) -> Option<M> {
    match v.default_mtp {
        Some(d) => if v.mtps.contains_key(d) { Some(v.mtps[d]) } else { None },
        None => None,
    }
}

/// Whether some registered name matches the scheme.
pub open spec fn some_name_matches<M>(v: MtpRegistryView<M>, scheme: Seq<char>) -> bool {
    exists|n: Seq<char>| v.mtps.contains_key(n) && name_matches(n, scheme)
}

/// The registered message transports; the first registered is the default
/// until another is chosen.
#[derive(Debug)]
pub struct MtpRegistry<M> {
    mtps: Vec<(String, M)>,
    default_mtp: Option<String>,
}

impl<M> View for MtpRegistry<M> {
    type V = MtpRegistryView<M>;

    closed spec fn view(&self) -> MtpRegistryView<M> {
        MtpRegistryView {
            mtps: keyed_map(self.mtps@),
            default_mtp: match self.default_mtp {
                Some(d) => Some(d@),
                None => None,
            },
        }
    }
}

impl<M> MtpRegistry<M> {
    #[verifier::type_invariant]
    closed spec fn names_distinct(self) -> bool {
        keys_of(self.mtps@).no_duplicates()
    }

    /// No transports.
    pub fn new() -> (r: Self)
        ensures
            r@.mtps == Map::<Seq<char>, M>::empty(),
            r@.default_mtp is None,
    {
        let r = MtpRegistry { mtps: Vec::new(), default_mtp: None };
        assert(keys_of(r.mtps@) =~= Seq::<Seq<char>>::empty());
        assert(r@.mtps =~= Map::<Seq<char>, M>::empty());
        r
    }

    /// Register `mtp` under `name` (replacing one of that name); the first
    /// registered becomes the default.
    pub fn register(&mut self, name: &str, mtp: M)
        ensures
            final(self)@.mtps == old(self)@.mtps.insert(name@, mtp),
            final(self)@.default_mtp == (match old(self)@.default_mtp {
                Some(d) => Some(d),
                None => Some(name@),
            }),
    {
        proof {
            use_type_invariant(&*self);
        }
        if self.default_mtp.is_none() {
            self.default_mtp = Some(owned(name));
        }
        let mut v: Vec<(String, M)> = Vec::new();
        std::mem::swap(&mut v, &mut self.mtps);
        keyed_put(&mut v, name, mtp);
        std::mem::swap(&mut v, &mut self.mtps);
    }

    /// The transport registered under `name`.
    pub fn get(&self, name: &str) -> (r: Option<&M>)
        ensures
            match r {
                Some(m) => self@.mtps.contains_key(name@) && *m == self@.mtps[name@],
                None => !self@.mtps.contains_key(name@),
            },
    {
        proof {
            use_type_invariant(self);
        }
        match find_key(&self.mtps, name) {
            Some(i) => Some(&self.mtps[i].1),
            None => None,
        }
    }

    /// The default transport.
    pub fn default_mtp(&self) -> (r: Option<&M>)
        ensures
            match r {
                Some(m) => default_of(self@) == Some(*m),
                None => default_of(self@) is None,
            },
    {
        match &self.default_mtp {
            Some(d) => self.get(d.as_str()),
            None => None,
        }
    }

    /// A transport for `address`: one whose name contains the address's
    /// scheme or is contained in it; otherwise the default.
    pub fn find_for_address(&self, address: &str) -> (r: Option<&M>)
        ensures
            some_name_matches(self@, scheme_of(address@)) ==> (r matches Some(m) && exists|n: Seq<char>|
                self@.mtps.contains_key(n) && name_matches(n, scheme_of(address@)) && *m == self@.mtps[n]),
            !some_name_matches(self@, scheme_of(address@)) ==> match r {
                Some(m) => default_of(self@) == Some(*m),
                None => default_of(self@) is None,
            },
    {
        proof {
            use_type_invariant(self);
        }
        let sc = scheme(address);
        let mut i: usize = 0;
        while i < self.mtps.len()
            invariant
                i <= self.mtps@.len(),
                keys_of(self.mtps@).no_duplicates(),
                sc@ == scheme_of(address@),
                forall|j: int| 0 <= j < i ==> !name_matches(#[trigger] self.mtps@[j].0@, sc@),
            decreases self.mtps@.len() - i,
        {
            let name = self.mtps[i].0.as_str();
            if contains_str(name, sc.as_str()) || contains_str(sc.as_str(), name) {
                proof {
                    lemma_key_index(self.mtps@, i as int);
                    let n = self.mtps@[i as int].0@;
                    assert(keys_of(self.mtps@)[i as int] == n);
                    assert(self@.mtps.contains_key(n));
                    assert(self@.mtps[n] == self.mtps@[i as int].1);
                    assert(name_matches(n, sc@));
                    assert(some_name_matches(self@, scheme_of(address@)));
                }
                return Some(&self.mtps[i].1);
            }
            i = i + 1;
        }
        proof {
            if some_name_matches(self@, sc@) {
                let n = choose|n: Seq<char>| self@.mtps.contains_key(n) && name_matches(n, sc@);
                let j = key_index(self.mtps@, n);
                assert(self.mtps@[j].0@ == n);
            }
        }
        self.default_mtp()
    }

    /// The registered names.
    pub fn list(&self) -> (r: Vec<String>)
        ensures
            forall|i: int| 0 <= i < r@.len() ==> self@.mtps.contains_key(#[trigger] r@[i]@),
            forall|n: Seq<char>| #[trigger] self@.mtps.contains_key(n) ==> exists|i: int| 0 <= i < r@.len() && r@[i]@ == n,
    {
        let mut r: Vec<String> = Vec::new();
        let mut i: usize = 0;
        while i < self.mtps.len()
            invariant
                i <= self.mtps@.len(),
                r@.len() == i,
                forall|j: int| 0 <= j < i ==> (#[trigger] r@[j])@ == self.mtps@[j].0@,
            decreases self.mtps@.len() - i,
        {
            r.push(self.mtps[i].0.clone());
            i = i + 1;
        }
        proof {
            assert forall|j: int| 0 <= j < r@.len() implies self@.mtps.contains_key(#[trigger] r@[j]@) by {
                assert(keys_of(self.mtps@)[j] == self.mtps@[j].0@);
            }
            assert forall|n: Seq<char>| #[trigger] self@.mtps.contains_key(n) implies exists|j: int| 0 <= j < r@.len() && r@[j]@ == n by {
                let k = choose|k: int| 0 <= k < keys_of(self.mtps@).len() && keys_of(self.mtps@)[k] == n;
                assert(r@[k]@ == n);
            }
        }
        r
    }

    /// Make `name` the default, if it is registered.
    pub fn set_default(&mut self, name: &str) -> (ok: bool)
        ensures
            ok == old(self)@.mtps.contains_key(name@),
            final(self)@.mtps == old(self)@.mtps,
            final(self)@.default_mtp == (if ok { Some(name@) } else { old(self)@.default_mtp }),
    {
        proof {
            use_type_invariant(&*self);
        }
        if self.get(name).is_some() {
            self.default_mtp = Some(owned(name));
            true
        } else {
            false
        }
    }
}

} // verus!
