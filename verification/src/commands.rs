//! The logic behind the desktop commands: status counts, peer listings,
//! configuration checks, history views, and the small text helpers they use.
use vstd::prelude::*;
use crate::addr::{ipv4_text, push_ipv4, socket_text, IpAddress};
use crate::app::config::{opt_chars, Config};
use crate::app::history::{HistoryEntry, HistoryPayload, HistorySource, HistoryStore};
use crate::peer::{approve_peers, PeerRegistry, PeerState, TrustState};
use crate::peer::sanitize::{
    device_name_spec, sanitize_device_name, trim_end_by, trim_whitespace, trim_ws, unnamed_label,
};
use crate::text::{decimal_spec, push_char, push_decimal, push_str_chars, str_chars, string_from_chars};

verus! {

#[verifier::external_type_specification]
#[verifier::external_body]
pub struct ExSystemTimeError(std::time::SystemTimeError);

/// Calls `std::time::UNIX_EPOCH.elapsed()`: the wall-clock time since the Unix
/// epoch, or an error if the clock is set before it. It depends on the clock,
/// so nothing is claimed of it.
#[verifier::external_body]
fn unix_epoch_elapsed() -> Result<core::time::Duration, std::time::SystemTimeError> {
    std::time::UNIX_EPOCH.elapsed()
}

/// Calls `Duration::as_millis`. Nothing is claimed of the count: the
/// duration is opaque here.
#[verifier::external_body]
pub(crate) fn duration_as_millis(d: &core::time::Duration) -> u128 {
    d.as_millis()
}

/// Milliseconds since the Unix epoch as a `u64` (the low 64 bits), given
/// the clock's reading in milliseconds, or 0 when there is none (the clock is
/// set before the epoch).
pub fn epoch_ms_or_zero(elapsed_ms: Option<u128>) -> (r: u64)
    ensures
        r == match elapsed_ms {
            Some(m) => m as u64,
            None => 0u64,
        },
{
    match elapsed_ms {
        Some(m) => m as u64,
        None => 0,
    }
}

/// Milliseconds since the Unix epoch (truncated to 64 bits), or 0 when the
/// clock is set before the epoch. The value is the clock's: nothing is
/// claimed of it.
pub fn now_ms() -> u64 {
    let elapsed = match unix_epoch_elapsed() {
        Ok(d) => Some(duration_as_millis(&d)),
        Err(_) => None,
    };
    epoch_ms_or_zero(elapsed)
}


// ---------------------------------------------------------------------------
// Errors at the command boundary
// ---------------------------------------------------------------------------

/// Why a desktop command failed. The front end only ever sees the generic
/// body of the error, never its details.
#[derive(Clone, Copy, Debug, PartialEq, Eq, Structural)]
pub enum CommandError {
    /// The input was rejected.
    InvalidInput,
    /// No such peer or history entry.
    NotFound,
    /// The peer refused.
    Forbidden,
    /// Something failed inside.
    InternalError,
}

/// The body the front end receives for an error.
pub open spec fn command_error_body(e: CommandError) -> Seq<char> {
    match e {
        CommandError::InvalidInput => "invalid_input"@,
        CommandError::NotFound => "not_found"@,
        CommandError::Forbidden => "forbidden"@,
        CommandError::InternalError => "internal_error"@,
    }
}

impl CommandError {
    /// The generic body of the error: `invalid_input`, `not_found`,
    /// `forbidden` or `internal_error`.
    pub fn body(&self) -> (r: &'static str)
        ensures
            r@ == command_error_body(*self),
    {
        match self {
            CommandError::InvalidInput => "invalid_input",
            CommandError::NotFound => "not_found",
            CommandError::Forbidden => "forbidden",
            CommandError::InternalError => "internal_error",
        }
    }
}

// ---------------------------------------------------------------------------
// Relative times
// ---------------------------------------------------------------------------

/// "just now".
pub open spec fn just_now_text() -> Seq<char> {
    seq!['刚', '刚']
}

/// " minutes ago".
pub open spec fn minutes_ago_text() -> Seq<char> {
    seq![' ', '分', '钟', '前']
}

/// " hours ago".
pub open spec fn hours_ago_text() -> Seq<char> {
    seq![' ', '小', '时', '前']
}

/// " days ago".
pub open spec fn days_ago_text() -> Seq<char> {
    seq![' ', '天', '前']
}

/// How long ago, in words: under a minute "just now", then whole minutes,
/// whole hours and whole days.
pub open spec fn relative_time_spec(secs: nat) -> Seq<char> {
    if secs < 60 {
        just_now_text()
    } else if secs < 3600 {
        decimal_spec(secs / 60) + minutes_ago_text()
    } else if secs < 86400 {
        decimal_spec(secs / 3600) + hours_ago_text()
    } else {
        decimal_spec(secs / 86400) + days_ago_text()
    }
}

/// The words for a time `elapsed_secs` seconds ago.
pub fn relative_time_str(elapsed_secs: u64) -> (r: String)
    ensures
        r@ == relative_time_spec(elapsed_secs as nat),
{
    let mut out = String::new();
    if elapsed_secs < 60 {
        push_char(&mut out, '刚');
        push_char(&mut out, '刚');
        assert(out@ =~= just_now_text());
        return out;
    }
    if elapsed_secs < 3600 {
        push_decimal(&mut out, elapsed_secs / 60);
        push_char(&mut out, ' ');
        push_char(&mut out, '分');
        push_char(&mut out, '钟');
        push_char(&mut out, '前');
    } else if elapsed_secs < 86400 {
        push_decimal(&mut out, elapsed_secs / 3600);
        push_char(&mut out, ' ');
        push_char(&mut out, '小');
        push_char(&mut out, '时');
        push_char(&mut out, '前');
    } else {
        push_decimal(&mut out, elapsed_secs / 86400);
        push_char(&mut out, ' ');
        push_char(&mut out, '天');
        push_char(&mut out, '前');
    }
    assert(out@ =~= relative_time_spec(elapsed_secs as nat));
    out
}

/// Whole seconds from `since_ms` to `now_ms` (0 if `since_ms` is later).
pub open spec fn elapsed_secs(since_ms: u64, now_ms: u64) -> nat {
    if since_ms <= now_ms {
        ((now_ms - since_ms) / 1000) as nat
    } else {
        0
    }
}

/// The view of an optional relative time.
pub open spec fn last_sync_spec(last: Option<u64>, now_ms: u64) -> Option<Seq<char>> {
    match last {
        Some(t) => Some(relative_time_spec(elapsed_secs(t, now_ms))),
        None => None,
    }
}

/// The last successful sync of a peer in words, `None` if it never synced.
/// Times are milliseconds since the Unix epoch.
pub fn format_last_sync(last: Option<u64>, now_ms: u64) -> (r: Option<String>)
    ensures
        opt_chars(r) == last_sync_spec(last, now_ms),
{
    match last {
        Some(t) => Some(relative_time_str(now_ms.saturating_sub(t) / 1000)),
        None => None,
    }
}

// ---------------------------------------------------------------------------
// Join address
// ---------------------------------------------------------------------------

/// `s` without the prefix `p`, if it starts with it.
pub open spec fn strip_prefix_spec(s: Seq<char>, p: Seq<char>) -> Seq<char> {
    if p.len() <= s.len() && s.take(p.len() as int) == p {
        s.skip(p.len() as int)
    } else {
        s
    }
}

/// `http://`.
pub open spec fn http_scheme() -> Seq<char> {
    seq!['h', 't', 't', 'p', ':', '/', '/']
}

/// `https://`.
pub open spec fn https_scheme() -> Seq<char> {
    seq!['h', 't', 't', 'p', 's', ':', '/', '/']
}

/// Is this a `/`?
pub open spec fn is_slash(c: char) -> bool {
    c == '/'
}

/// A typed join address made plain: surrounding whitespace trimmed, an
/// `http://` and then an `https://` prefix removed, trailing `/` removed and
/// whitespace trimmed again.
pub open spec fn normalize_addr_spec(s: Seq<char>) -> Seq<char> {
    trim_ws(trim_end_by(strip_prefix_spec(strip_prefix_spec(trim_ws(s), http_scheme()), https_scheme()), |c: char| is_slash(c)))
}

/// `v` from position `k` on.
fn chars_from(v: &[char], k: usize) -> (r: Vec<char>)
    requires
        k <= v@.len(),
    ensures
        r@ == v@.skip(k as int),
{
    let n = v.len();
    let mut out: Vec<char> = Vec::new();
    let mut i: usize = k;
    while i < n
        invariant
            n == v@.len(),
            k <= i <= n,
            out@ == v@.subrange(k as int, i as int),
        decreases n - i,
    {
        out.push(v[i]);
        i = i + 1;
        assert(out@ =~= v@.subrange(k as int, i as int));
    }
    assert(v@.subrange(k as int, n as int) =~= v@.skip(k as int));
    out
}

/// `v` without the prefix `p`, if it starts with it.
fn strip_prefix_chars(v: &[char], p: &[char]) -> (r: Vec<char>)
    ensures
        r@ == strip_prefix_spec(v@, p@),
{
    if p.len() > v.len() {
        return chars_from(v, 0);
    }
    let mut i: usize = 0;
    while i < p.len()
        invariant
            p@.len() <= v@.len(),
            i <= p@.len(),
            forall|j: int| 0 <= j < i ==> v@[j] == p@[j],
        decreases p@.len() - i,
    {
        if v[i] != p[i] {
            proof {
                assert(v@.take(p@.len() as int)[i as int] != p@[i as int]);
            }
            return chars_from(v, 0);
        }
        i = i + 1;
    }
    assert(v@.take(p@.len() as int) =~= p@);
    chars_from(v, p.len())
}

/// `v` without its trailing `/`.
fn trim_end_slashes(v: &[char]) -> (r: Vec<char>)
    ensures
        r@ == trim_end_by(v@, |c: char| is_slash(c)),
{
    let ghost p: spec_fn(char) -> bool = |c: char| is_slash(c);
    let n = v.len();
    let mut j: usize = n;
    assert(v@.take(n as int) =~= v@);
    while j > 0 && v[j - 1] == '/'
        invariant
            n == v@.len(),
            j <= n,
            p == (|c: char| is_slash(c)),
            trim_end_by(v@, p) == trim_end_by(v@.take(j as int), p),
        decreases j,
    {
        assert(v@.take(j as int).drop_last() =~= v@.take(j - 1));
        j = j - 1;
    }
    let mut out: Vec<char> = Vec::new();
    let mut i: usize = 0;
    while i < j
        invariant
            j <= n == v@.len(),
            i <= j,
            out@ == v@.take(i as int),
        decreases j - i,
    {
        out.push(v[i]);
        i = i + 1;
        assert(out@ =~= v@.take(i as int));
    }
    out
}

/// Makes a typed join address plain: trims it, removes an `http://` and
/// then an `https://` prefix and any trailing `/`, and trims again.
pub fn normalize_addr(addr: &str) -> (r: String)
    ensures
        r@ == normalize_addr_spec(addr@),
{
    let v = str_chars(addr);
    let t = trim_whitespace(v.as_slice());
    let http: Vec<char> = vec!['h', 't', 't', 'p', ':', '/', '/'];
    let https: Vec<char> = vec!['h', 't', 't', 'p', 's', ':', '/', '/'];
    assert(http@ =~= http_scheme());
    assert(https@ =~= https_scheme());
    let a = strip_prefix_chars(t.as_slice(), http.as_slice());
    let b = strip_prefix_chars(a.as_slice(), https.as_slice());
    let c = trim_end_slashes(b.as_slice());
    let d = trim_whitespace(c.as_slice());
    string_from_chars(d.as_slice())
}

// ---------------------------------------------------------------------------
// Status
// ---------------------------------------------------------------------------

/// Is this a loopback IPv4 address (127.0.0.0/8)?
pub open spec fn ipv4_loopback(a: u32) -> bool {
    a / 0x100_0000 == 127
}

/// The first non-loopback IPv4 address of the list.
pub open spec fn first_lan_ipv4(addrs: Seq<IpAddress>) -> Option<u32>
    decreases addrs.len(),
{
    if addrs.len() == 0 {
        None
    } else {
        match addrs[0] {
            IpAddress::V4(a) => if !ipv4_loopback(a) {
                Some(a)
            } else {
                first_lan_ipv4(addrs.drop_first())
            },
            IpAddress::V6(_) => first_lan_ipv4(addrs.drop_first()),
        }
    }
}

/// 127.0.0.1.
pub const LOCALHOST_V4: u32 = 0x7f00_0001;

/// The address shown as this device's listen address: the first
/// non-loopback IPv4 address of its interfaces (else 127.0.0.1), then `:` and
/// the port.
pub open spec fn listen_addr_spec(addrs: Seq<IpAddress>, port: u16) -> Seq<char> {
    let ip = match first_lan_ipv4(addrs) {
        Some(a) => a,
        None => LOCALHOST_V4,
    };
    ipv4_text(ip) + seq![':'] + decimal_spec(port as nat)
}

/// The first non-loopback IPv4 address of the list.
fn first_lan(addrs: &[IpAddress]) -> (r: Option<u32>)
    ensures
        r == first_lan_ipv4(addrs@),
{
    let n = addrs.len();
    let mut i: usize = 0;
    assert(addrs@.skip(0) =~= addrs@);
    while i < n
        invariant
            n == addrs@.len(),
            i <= n,
            first_lan_ipv4(addrs@) == first_lan_ipv4(addrs@.skip(i as int)),
        decreases n - i,
    {
        let ghost rest = addrs@.skip(i as int);
        assert(rest.drop_first() =~= addrs@.skip(i + 1));
        assert(rest[0] == addrs@[i as int]);
        assert(rest.len() > 0);
        match addrs[i] {
            IpAddress::V4(a) => {
                if a / 0x100_0000 != 127 {
                    assert(first_lan_ipv4(rest) == Some(a));
                    return Some(a);
                }
            },
            IpAddress::V6(_) => {},
        }
        i = i + 1;
    }
    assert(addrs@.skip(n as int) =~= Seq::<IpAddress>::empty());
    None
}

/// The listen address shown in the status bar, from the addresses of this
/// device's network interfaces, in the order the system lists them.
pub fn listen_addr_text(addrs: &[IpAddress], port: u16) -> (r: String)
    ensures
        r@ == listen_addr_spec(addrs@, port),
{
    let ip = match first_lan(addrs) {
        Some(a) => a,
        None => LOCALHOST_V4,
    };
    let mut out = String::new();
    push_ipv4(&mut out, ip);
    push_char(&mut out, ':');
    push_decimal(&mut out, port as u64);
    assert(out@ =~= listen_addr_spec(addrs@, port));
    out
}

/// The status bar's data.
#[derive(Debug, Clone)]
pub struct StatusInfo {
    /// This device's id.
    pub my_device_id: String,
    /// `ip:port` this device listens on.
    pub listen_addr: String,
    /// Peers registered.
    pub peer_count: usize,
    /// Approved peers.
    pub approved_count: usize,
    /// Banned peers.
    pub banned_count: usize,
}

/// The peers of a list with the given trust.
pub open spec fn with_trust(peers: Seq<PeerState>, t: TrustState) -> Seq<PeerState> {
    peers.filter(|p: PeerState| p.trust_state == t)
}

/// The number of peers of the list with the given trust.
fn count_trust(peers: &[PeerState], t: TrustState) -> (r: usize)
    ensures
        r == with_trust(peers@, t).len(),
{
    let ghost pred: spec_fn(PeerState) -> bool = |p: PeerState| p.trust_state == t;
    let n = peers.len();
    let mut c: usize = 0;
    let mut i: usize = 0;
    assert(peers@.take(0).filter(pred) =~= Seq::<PeerState>::empty()) by {
        reveal(Seq::filter);
    }
    while i < n
        invariant
            n == peers@.len(),
            i <= n,
            pred == (|p: PeerState| p.trust_state == t),
            c == peers@.take(i as int).filter(pred).len(),
            c <= i,
        decreases n - i,
    {
        proof {
            reveal(Seq::filter);
            assert(peers@.take(i + 1).drop_last() =~= peers@.take(i as int));
        }
        if peers[i].trust_state == t {
            c = c + 1;
        }
        i = i + 1;
    }
    assert(peers@.take(n as int) =~= peers@);
    c
}

/// The status bar's data: this device's id and listen address, and the
/// number of peers in all, approved and banned, counted over a snapshot of
/// the registry.
pub fn status_info(my_device_id: String, listen_addr: String, peers: &[PeerState]) -> (r: StatusInfo)
    ensures
        r.my_device_id == my_device_id,
        r.listen_addr == listen_addr,
        r.peer_count == peers@.len(),
        r.approved_count == with_trust(peers@, TrustState::Approved).len(),
        r.banned_count == with_trust(peers@, TrustState::Banned).len(),
{
    StatusInfo {
        my_device_id,
        listen_addr,
        peer_count: peers.len(),
        approved_count: count_trust(peers, TrustState::Approved),
        banned_count: count_trust(peers, TrustState::Banned),
    }
}

// ---------------------------------------------------------------------------
// Peers
// ---------------------------------------------------------------------------

/// A peer as the front end lists it; keys are never included.
#[derive(Debug, Clone)]
pub struct PeerInfo {
    pub device_id: String,
    /// `ip:port`.
    pub addr: String,
    pub device_name: String,
    /// `approved`, `banned` or `pending`.
    pub trust_state: String,
    /// The last successful sync in words; `None` if it never synced.
    pub last_successful_sync_at: Option<String>,
}

/// The label of a trust state.
pub open spec fn trust_label_spec(t: TrustState) -> Seq<char> {
    match t {
        TrustState::Approved => "approved"@,
        TrustState::Banned => "banned"@,
        TrustState::Pending => "pending"@,
    }
}

/// The label of a trust state: `approved`, `banned` or `pending`.
pub fn trust_label(t: TrustState) -> (r: String)
    ensures
        r@ == trust_label_spec(t),
{
    match t {
        TrustState::Approved => "approved".to_owned(),
        TrustState::Banned => "banned".to_owned(),
        TrustState::Pending => "pending".to_owned(),
    }
}

/// `i` lists peer `p` at time `now_ms`.
pub open spec fn lists_peer(i: PeerInfo, p: PeerState, now_ms: u64) -> bool {
    &&& i.device_id@ == p.device_id@
    &&& i.addr@ == socket_text(p.addr)
    &&& i.device_name@ == p.device_name@
    &&& i.trust_state@ == trust_label_spec(p.trust_state)
    &&& opt_chars(i.last_successful_sync_at) == last_sync_spec(p.last_successful_sync_at, now_ms)
}

/// How the front end lists a peer at time `now_ms` (ms since the Unix epoch).
pub fn peer_info(p: &PeerState, now_ms: u64) -> (r: PeerInfo)
    ensures
        lists_peer(r, *p, now_ms),
{
    PeerInfo {
        device_id: p.device_id.clone(),
        addr: p.addr.to_text(),
        device_name: p.device_name.clone(),
        trust_state: trust_label(p.trust_state),
        last_successful_sync_at: format_last_sync(p.last_successful_sync_at, now_ms),
    }
}

/// The peer list, in the order of the snapshot.
pub fn peer_infos(peers: &[PeerState], now_ms: u64) -> (r: Vec<PeerInfo>)
    ensures
        r@.len() == peers@.len(),
        forall|i: int| 0 <= i < peers@.len() ==> lists_peer(#[trigger] r@[i], peers@[i], now_ms),
{
    let n = peers.len();
    let mut out: Vec<PeerInfo> = Vec::new();
    let mut i: usize = 0;
    while i < n
        invariant
            n == peers@.len(),
            i <= n,
            out@.len() == i,
            forall|j: int| 0 <= j < i ==> lists_peer(#[trigger] out@[j], peers@[j], now_ms),
        decreases n - i,
    {
        out.push(peer_info(&peers[i], now_ms));
        i = i + 1;
    }
    out
}

/// Approves a registered peer; an unknown id is `NotFound` and changes nothing.
pub fn approve_peer(registry: &mut PeerRegistry, device_id: &str) -> (r: Result<(), CommandError>)
    requires
        old(registry).wf(),
    ensures
        final(registry).wf(),
        r is Err <==> !old(registry).peers().contains_key(device_id@),
        r matches Err(e) ==> e == CommandError::NotFound && *final(registry) == *old(registry),
        r is Ok ==> {
            &&& final(registry).approved_ids() == old(registry).approved_ids().insert(device_id@)
            &&& final(registry).banned_ids() == old(registry).banned_ids().remove(device_id@)
            &&& final(registry).peers() == approve_peers(old(registry).peers(), device_id@)
        },
{
    if !registry.is_known(device_id) {
        return Err(CommandError::NotFound);
    }
    registry.approve(device_id);
    Ok(())
}

/// Rejects a peer by banning its id, registered or not.
pub fn reject_peer(registry: &mut PeerRegistry, device_id: &str)
    requires
        old(registry).wf(),
    ensures
        final(registry).wf(),
        final(registry).approved_ids() == old(registry).approved_ids().remove(device_id@),
        final(registry).banned_ids() == old(registry).banned_ids().insert(device_id@),
        final(registry).peers() == old(registry).peers().remove(device_id@),
{
    registry.ban(device_id);
}

// ---------------------------------------------------------------------------
// Settings
// ---------------------------------------------------------------------------

/// The settings as the settings panel shows them.
#[derive(Debug, Clone)]
pub struct ConfigInfo {
    pub device_name: String,
    pub listen_port: u16,
    /// The last address joined.
    pub peer_hint: Option<String>,
}

/// A change of settings; `None` leaves a setting as it is.
#[derive(Debug, Clone)]
pub struct ConfigPayload {
    /// A new device name; blank is refused.
    pub device_name: Option<String>,
    /// A new port; 0 is refused.
    pub listen_port: Option<u16>,
}

/// The settings as the settings panel shows them.
pub fn get_config(cfg: &Config) -> (r: ConfigInfo)
    ensures
        r.device_name@ == cfg.device_name@,
        r.listen_port == cfg.listen_port,
        opt_chars(r.peer_hint) == opt_chars(cfg.peer_hint),
{
    let c = cfg.duplicate();
    ConfigInfo { device_name: c.device_name, listen_port: c.listen_port, peer_hint: c.peer_hint }
}

/// Is a typed device name refused: blank once trimmed, or nothing left once
/// sanitised?
pub open spec fn device_name_refused(name: Seq<char>) -> bool {
    trim_ws(name).len() == 0 || device_name_spec(trim_ws(name)) == unnamed_label()
}

/// Does the change hold an input that is refused?
pub open spec fn config_payload_refused(p: ConfigPayload) -> bool {
    ||| (p.device_name matches Some(n) && device_name_refused(n@))
    ||| p.listen_port == Some(0u16)
}

/// Applies a change of settings to the current ones. A name is trimmed and
/// sanitised; a blank name, a name of which nothing survives, or port 0 is
/// `InvalidInput`. The hint is kept. Saving is the caller's.
pub fn apply_config_payload(current: &Config, payload: ConfigPayload) -> (r: Result<Config, CommandError>)
    ensures
        r is Err <==> config_payload_refused(payload),
        r matches Err(e) ==> e == CommandError::InvalidInput,
        r matches Ok(c) ==> {
            &&& c.device_name@ == match payload.device_name {
                Some(n) => device_name_spec(trim_ws(n@)),
                None => current.device_name@,
            }
            &&& c.listen_port == match payload.listen_port {
                Some(p) => p,
                None => current.listen_port,
            }
            &&& opt_chars(c.peer_hint) == opt_chars(current.peer_hint)
        },
{
    let mut next = current.duplicate();
    match payload.device_name {
        Some(name) => {
            let v = str_chars(name.as_str());
            let t = trim_whitespace(v.as_slice());
            if t.len() == 0 {
                return Err(CommandError::InvalidInput);
            }
            let trimmed = string_from_chars(t.as_slice());
            let safe = sanitize_device_name(trimmed.as_str());
            let unnamed = "<unnamed>".to_owned();
            proof {
                reveal_strlit("<unnamed>");
                assert(unnamed@ =~= unnamed_label());
            }
            if safe == unnamed {
                return Err(CommandError::InvalidInput);
            }
            next.device_name = safe;
        },
        None => {},
    }
    match payload.listen_port {
        Some(port) => {
            if port == 0 {
                return Err(CommandError::InvalidInput);
            }
            next.listen_port = port;
        },
        None => {},
    }
    Ok(next)
}

// ---------------------------------------------------------------------------
// History
// ---------------------------------------------------------------------------

/// A history entry's content as the front end shows it.
#[derive(Debug, Clone)]
pub enum HistoryItemPayload {
    Text { text: String },
    /// The image as a `data:image/png;base64,...` URL.
    Image { width: u32, height: u32, data_url: String },
    File {
        filename: String,
        size: u64,
        saved_path: Option<String>,
        file_status: String,
        error: Option<String>,
    },
}

/// A history entry as the front end lists it.
#[derive(Debug, Clone)]
pub struct HistoryItem {
    pub id: String,
    pub timestamp_ms: u64,
    pub source: HistorySource,
    pub content_hash: Option<String>,
    pub payload: HistoryItemPayload,
}

/// `data:image/png;base64,`.
pub open spec fn png_data_url_prefix() -> Seq<char> {
    "data:image/png;base64,"@
}

/// `i` shows payload `p`.
pub open spec fn shows_payload(i: HistoryItemPayload, p: HistoryPayload) -> bool {
    match (i, p) {
        (HistoryItemPayload::Text { text: a }, HistoryPayload::Text { text: b }) => a@ == b@,
        (
            HistoryItemPayload::Image { width: w1, height: h1, data_url },
            HistoryPayload::Image { width: w2, height: h2, data_b64 },
        ) => w1 == w2 && h1 == h2 && data_url@ == png_data_url_prefix() + data_b64@,
        (
            HistoryItemPayload::File { filename: f1, size: s1, saved_path: p1, file_status: t1, error: e1 },
            HistoryPayload::File { filename: f2, size: s2, saved_path: p2, file_status: t2, error: e2 },
        ) => f1@ == f2@ && s1 == s2 && opt_chars(p1) == opt_chars(p2) && t1@ == t2@ && opt_chars(e1)
            == opt_chars(e2),
        _ => false,
    }
}

/// `i` lists entry `e`.
pub open spec fn lists_entry(i: HistoryItem, e: HistoryEntry) -> bool {
    &&& i.id@ == e.id@
    &&& i.timestamp_ms == e.timestamp_ms
    &&& i.source == e.source
    &&& opt_chars(i.content_hash) == opt_chars(e.content_hash)
    &&& shows_payload(i.payload, e.payload)
}

/// How the front end lists a history entry: the same fields, an image as a
/// PNG data URL.
pub fn entry_to_item(entry: &HistoryEntry) -> (r: HistoryItem)
    ensures
        lists_entry(r, *entry),
{
    let e = entry.duplicate();
    let payload = match e.payload {
        HistoryPayload::Text { text } => HistoryItemPayload::Text { text },
        HistoryPayload::Image { width, height, data_b64 } => {
            let mut url = String::new();
            push_str_chars(&mut url, "data:image/png;base64,");
            push_str_chars(&mut url, data_b64.as_str());
            HistoryItemPayload::Image { width, height, data_url: url }
        },
        HistoryPayload::File { filename, size, saved_path, file_status, error } => HistoryItemPayload::File {
            filename,
            size,
            saved_path,
            file_status,
            error,
        },
    };
    HistoryItem { id: e.id, timestamp_ms: e.timestamp_ms, source: e.source, content_hash: e.content_hash, payload }
}

/// The history list, newest first.
pub fn get_history(store: &HistoryStore) -> (r: Vec<HistoryItem>)
    ensures
        r@.len() == store.entries().len(),
        forall|i: int| 0 <= i < r@.len() ==> lists_entry(#[trigger] r@[i], store.entries()[i]),
{
    let entries = store.snapshot();
    let n = entries.len();
    let mut out: Vec<HistoryItem> = Vec::new();
    let mut i: usize = 0;
    while i < n
        invariant
            n == entries@.len(),
            entries@ == store.entries(),
            i <= n,
            out@.len() == i,
            forall|j: int| 0 <= j < i ==> lists_entry(#[trigger] out@[j], entries@[j]),
        decreases n - i,
    {
        out.push(entry_to_item(&entries[i]));
        i = i + 1;
    }
    out
}

/// Deletes the history entries with this id; none is `NotFound`.
pub fn delete_history_item(store: &mut HistoryStore, id: &str) -> (r: Result<(), CommandError>)
    requires
        old(store).wf(),
    ensures
        final(store).wf(),
        r is Err <==> forall|i: int| 0 <= i < old(store).entries().len() ==> #[trigger] old(store).entries()[i].id@ != id@,
        r matches Err(e) ==> e == CommandError::NotFound,
        final(store).entries() == old(store).entries().filter(|e: HistoryEntry| e.id@ != id@),
{
    if store.remove(id) {
        Ok(())
    } else {
        Err(CommandError::NotFound)
    }
}

/// Clears the history.
pub fn clear_history(store: &mut HistoryStore)
    ensures
        final(store).wf(),
        final(store).entries() == Seq::<HistoryEntry>::empty(),
{
    store.clear();
}

/// The text to put back on the clipboard for a history entry: its text, or
/// `NotFound` for an unknown id, or `InvalidInput` for an image or a file.
pub fn recopy_history_item(store: &HistoryStore, id: &str) -> (r: Result<String, CommandError>)
    ensures
        r matches Err(CommandError::NotFound) <==> forall|i: int|
            0 <= i < store.entries().len() ==> #[trigger] store.entries()[i].id@ != id@,
        r matches Err(e) ==> e == CommandError::NotFound || e == CommandError::InvalidInput,
        r matches Ok(t) ==> exists|i: int|
            0 <= i < store.entries().len() && #[trigger] store.entries()[i].id@ == id@
                && store.entries()[i].payload == (HistoryPayload::Text { text: t }) && forall|j: int|
                0 <= j < i ==> #[trigger] store.entries()[j].id@ != id@,
        r matches Err(CommandError::InvalidInput) ==> exists|i: int|
            0 <= i < store.entries().len() && #[trigger] store.entries()[i].id@ == id@
                && !(store.entries()[i].payload is Text) && forall|j: int|
                0 <= j < i ==> #[trigger] store.entries()[j].id@ != id@,
{
    match store.get(id) {
        None => Err(CommandError::NotFound),
        Some(e) => match e.payload {
            HistoryPayload::Text { text } => Ok(text),
            _ => Err(CommandError::InvalidInput),
        },
    }
}

/// A join request waiting for approval, as the approval dialog shows it.
#[derive(Debug, Clone)]
pub struct PeerPendingPayload {
    pub request_id: String,
    pub subject_device_id: String,
    pub subject_device_name: String,
    pub subject_ip: String,
    pub timestamp_ms: u64,
}

} // verus!
