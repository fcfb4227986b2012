//! Remote connections: the operations every FTP or SFTP client offers, the
//! entries a directory listing yields, and the pool of open connections
//! keyed by host id, with its idle timeout.

use vstd::prelude::*;
use vstd::string::*;
use crate::host::{Host, Protocol};
use std::collections::hash_map::Entry;
use std::collections::HashMap;
use vstd::std_specs::iter::IteratorSpec;
use crate::path::opt_view;
use crate::text::{i64_text, int_text, nat_text, u64_text};

verus! {

/// One entry of a remote directory listing.
#[derive(Debug, Clone)]
pub struct FileEntry {
    pub name: String,
    pub path: String,
    pub is_dir: bool,
    pub size: u64,
    pub modified: Option<String>,
}

pub ghost struct FileEntryView {
    pub name: Seq<char>,
    pub path: Seq<char>,
    pub is_dir: bool,
    pub size: u64,
    pub modified: Option<Seq<char>>,
}

impl View for FileEntry {
    type V = FileEntryView;

    open spec fn view(&self) -> FileEntryView {
        FileEntryView {
            name: self.name@,
            path: self.path@,
            is_dir: self.is_dir,
            size: self.size,
            modified: match self.modified {
                Some(m) => Some(m@),
                None => None,
            },
        }
    }
}

pub open spec fn entries_view(s: Seq<FileEntry>) -> Seq<FileEntryView> {
    s.map_values(|e: FileEntry| e@)
}

/// Receives transfer progress: `transferred` is the absolute byte position
/// reached in the file, `total` the file's size.
pub trait ProgressCallback {
    fn report(&self, transferred: u64, total: u64);
}

/// Answers whether the transfer in progress has been cancelled.
pub trait CancelCheck {
    fn is_cancelled(&self) -> bool;
}

/// A call made on a client, with its arguments and what it returned.
pub ghost enum ClientCall {
    Connect { result: Result<(), Seq<char>> },
    Disconnect { result: Result<(), Seq<char>> },
    ListDir { path: Seq<char>, result: Result<Seq<FileEntryView>, Seq<char>> },
    Upload { local: Seq<char>, remote: Seq<char>, offset: u64, result: Result<u64, Seq<char>> },
    Download { remote: Seq<char>, local: Seq<char>, offset: u64, result: Result<u64, Seq<char>> },
}

pub open spec fn unit_res_view(r: Result<(), String>) -> Result<(), Seq<char>> {
    match r {
        Ok(()) => Ok(()),
        Err(e) => Err(e@),
    }
}

pub open spec fn listing_res_view(r: Result<Vec<FileEntry>, String>) -> Result<Seq<FileEntryView>, Seq<char>> {
    match r {
        Ok(v) => Ok(entries_view(v@)),
        Err(e) => Err(e@),
    }
}

pub open spec fn count_res_view(r: Result<u64, String>) -> Result<u64, Seq<char>> {
    match r {
        Ok(n) => Ok(n),
        Err(e) => Err(e@),
    }
}

/// What every remote client offers. The transfer methods report progress
/// through `progress(transferred, total)`, where `transferred` is the
/// absolute byte position in the file (the resume offset included), and
/// stop early when `is_cancelled` answers `true`; they return the number of
/// bytes moved in this call.
///
/// A client may keep a record of the calls made on it (`calls`); one that
/// does not keeps none, which is the default. In a record, connecting,
/// disconnecting, listing, uploading and downloading each add one entry,
/// with their arguments and what they returned.
pub trait ConnectionTrait {
    open spec fn calls(&self) -> Option<Seq<ClientCall>> {
        None
    }

    fn connect(&mut self) -> (r: Result<(), String>)
        ensures
            old(self).calls() matches Some(log) ==> final(self).calls() == Some(
                log.push(ClientCall::Connect { result: unit_res_view(r) }),
            ),
    ;

    fn disconnect(&mut self) -> (r: Result<(), String>)
        ensures
            old(self).calls() matches Some(log) ==> final(self).calls() == Some(
                log.push(ClientCall::Disconnect { result: unit_res_view(r) }),
            ),
    ;

    fn is_connected(&self) -> bool;

    fn list_dir(&mut self, path: &str) -> (r: Result<Vec<FileEntry>, String>)
        ensures
            old(self).calls() matches Some(log) ==> final(self).calls() == Some(
                log.push(ClientCall::ListDir { path: path@, result: listing_res_view(r) }),
            ),
    ;

    fn file_size(&mut self, path: &str) -> Result<u64, String>;

    fn file_exists(&mut self, path: &str) -> Result<bool, String>;

    fn upload(
        &mut self,
        local_path: &str,
        remote_path: &str,
        offset: u64,
        progress: Option<&dyn ProgressCallback>,
        is_cancelled: Option<&dyn CancelCheck>,
    ) -> (r: Result<u64, String>)
        ensures
            old(self).calls() matches Some(log) ==> final(self).calls() == Some(
                log.push(
                    ClientCall::Upload {
                        local: local_path@,
                        remote: remote_path@,
                        offset: offset,
                        result: count_res_view(r),
                    },
                ),
            ),
    ;

    fn download(
        &mut self,
        remote_path: &str,
        local_path: &str,
        offset: u64,
        progress: Option<&dyn ProgressCallback>,
        is_cancelled: Option<&dyn CancelCheck>,
    ) -> (r: Result<u64, String>)
        ensures
            old(self).calls() matches Some(log) ==> final(self).calls() == Some(
                log.push(
                    ClientCall::Download {
                        remote: remote_path@,
                        local: local_path@,
                        offset: offset,
                        result: count_res_view(r),
                    },
                ),
            ),
    ;

    fn mkdir(&mut self, path: &str) -> Result<(), String>;

    fn remove_file(&mut self, path: &str) -> Result<(), String>;

    fn remove_dir(&mut self, path: &str) -> Result<(), String>;

    fn rename(&mut self, from: &str, to: &str) -> Result<(), String>;
}

/// What a client is built from.
#[derive(Debug)]
pub enum ClientConfig {
    /// An FTP client; a host without a password logs in with an empty one.
    Ftp { host: String, port: u16, username: String, password: String },
    /// An SFTP client, with the password and key path as saved.
    Sftp {
        host: String,
        port: u16,
        username: String,
        password: Option<String>,
        key_path: Option<String>,
    },
}

/// The client a host calls for, by its protocol.
pub fn client_config(host: &Host) -> (c: ClientConfig)
    ensures
        host.protocol == Protocol::Ftp ==> (c matches ClientConfig::Ftp { host: h, port, username, password }
            && h@ == host.host@ && port == host.port && username@ == host.username@ && password@ == (
        match host.password {
            Some(p) => p@,
            None => Seq::<char>::empty(),
        })),
        host.protocol == Protocol::Sftp ==> (c matches ClientConfig::Sftp {
            host: h,
            port,
            username,
            password,
            key_path,
        } && h@ == host.host@ && port == host.port && username@ == host.username@ && opt_view(password)
            == opt_view(host.password) && opt_view(key_path) == opt_view(host.key_path)),
{
    match host.protocol {
        Protocol::Ftp => ClientConfig::Ftp {
            host: host.host.clone(),
            port: host.port,
            username: host.username.clone(),
            password: match &host.password {
                Some(p) => p.clone(),
                None => String::new(),
            },
        },
        Protocol::Sftp => ClientConfig::Sftp {
            host: host.host.clone(),
            port: host.port,
            username: host.username.clone(),
            password: match &host.password {
                Some(p) => Some(p.clone()),
                None => None,
            },
            key_path: match &host.key_path {
                Some(k) => Some(k.clone()),
                None => None,
            },
        },
    }
}

/// Makes a client, not yet connected, for a host.
pub trait ClientFactory<C> {
    fn create_client(&self, host: &Host) -> C;
}

/// Idle timeout, in seconds, of a new pool.
pub const DEFAULT_IDLE_TIMEOUT_SECS: u64 = 300;

/// Bytes per chunk of a streamed transfer.
pub const CHUNK_SIZE: usize = 32768;

/// `std::time::Instant`, carried as an opaque value: when a connection was
/// last used.
#[verifier::external_type_specification]
#[verifier::external_body]
pub struct ExInstant(std::time::Instant);

/// `Instant::now`: the current instant of the monotonic clock. Nothing is
/// promised of the value.
#[verifier::external_body]
fn instant_now() -> (r: std::time::Instant) {
    std::time::Instant::now()
}

/// `Instant::elapsed().as_secs()`: whole seconds since `since`. Nothing is
/// promised of the value: it depends on the clock.
#[verifier::external_body]
fn secs_since(since: &std::time::Instant) -> (r: u64) {
    since.elapsed().as_secs()
}

struct ConnectionEntry<C> {
    client: C,
    last_activity: std::time::Instant,
}

/// Access to the client of one pooled connection.
pub struct ConnectionGuard<'a, C> {
    host_id: i64,
    client: &'a mut C,
}

impl<'a, C> ConnectionGuard<'a, C> {
    pub closed spec fn host_id(&self) -> i64 {
        self.host_id
    }

    /// The client lent out.
    pub closed spec fn current(&self) -> C {
        *self.client
    }

    /// The host this connection belongs to.
    pub fn host(&self) -> (r: i64)
        ensures
            r == self.host_id(),
    {
        self.host_id
    }

    /// The client, for running operations on the connection.
    pub fn client(&mut self) -> (r: &mut C)
        ensures
            *r == old(self).current(),
            final(self).current() == *final(r),
            final(self).host_id() == old(self).host_id(),
    {
        self.client
    }
}

pub open spec fn msg_no_host_id() -> Seq<char> {
    "Host has no ID"@
}

pub open spec fn msg_no_connection(host_id: i64) -> Seq<char> {
    "No active connection for host "@ + int_text(host_id as int)
}

pub open spec fn msg_idle_timeout(secs: u64) -> Seq<char> {
    "Connection closed due to idle timeout ("@ + nat_text(secs as nat) + " seconds)"@
}

/// Whether a connection idle for `idle_secs` has expired under `timeout_secs`;
/// a timeout of zero never expires.
pub open spec fn expired(timeout_secs: u64, idle_secs: u64) -> bool {
    timeout_secs > 0 && idle_secs >= timeout_secs
}

/// The pool of open connections, at most one per host id. A connection
/// left unused for `idle_timeout_secs` seconds or more (when that is not
/// zero) is closed the next time it is asked for.
pub struct ConnectionManager<C> {
    entries: HashMap<i64, ConnectionEntry<C>>,
    idle_timeout_secs: u64,
}

impl ConnectionManager<Box<dyn ConnectionTrait>> {
    /// An empty pool with the default idle timeout.
    pub fn new() -> (m: Self)
        ensures
            m.wf(),
            m.ids() == Set::<i64>::empty(),
            m.clients() == Map::<i64, Box<dyn ConnectionTrait>>::empty(),
            m.timeout() == DEFAULT_IDLE_TIMEOUT_SECS,
    {
        Self::with_idle_timeout(DEFAULT_IDLE_TIMEOUT_SECS)
    }
}

/// The last-used times once host `host` has been used at `now`: that
/// host's time becomes `now` when it has a connection; no other time moves.
pub open spec fn used_at(
    last_used: Map<i64, std::time::Instant>,
    host: i64,
    now: std::time::Instant,
) -> Map<i64, std::time::Instant> {
    if last_used.contains_key(host) {
        last_used.insert(host, now)
    } else {
        last_used
    }
}

/// Using a connection refreshes its last-used time and only its own: after
/// a use at `now` the host's time is `now`, so the idle time measured next
/// counts from that use; the hosts with a connection are the same, and
/// every other host keeps its time.
pub proof fn use_refreshes_last_used(
    last_used: Map<i64, std::time::Instant>,
    host: i64,
    now: std::time::Instant,
    other: i64,
)
    ensures
        last_used.contains_key(host) ==> used_at(last_used, host, now)[host] == now,
        used_at(last_used, host, now).dom() == last_used.dom(),
        other != host && last_used.contains_key(other) ==> used_at(last_used, host, now)[other]
            == last_used[other],
{
    if last_used.contains_key(host) {
        assert(last_used.insert(host, now).dom() =~= last_used.dom());
    }
}

impl<C> ConnectionManager<C> {
    /// The client held for each host with an open connection.
    pub closed spec fn clients(&self) -> Map<i64, C> {
        self.entries@.map_values(|e: ConnectionEntry<C>| e.client)
    }

    /// When each host's connection was last used.
    pub closed spec fn last_used(&self) -> Map<i64, std::time::Instant> {
        self.entries@.map_values(|e: ConnectionEntry<C>| e.last_activity)
    }

    /// The hosts with a client are the hosts with an open connection.
    pub proof fn lemma_clients_dom(&self)
        ensures
            self.clients().dom() == self.ids(),
    {
        assert(self.clients().dom() =~= self.ids());
    }

    /// The host ids with an open connection.
    pub closed spec fn ids(&self) -> Set<i64> {
        self.entries@.dom()
    }

    pub closed spec fn timeout(&self) -> u64 {
        self.idle_timeout_secs
    }

    /// The pool holds finitely many connections.
    pub closed spec fn wf(&self) -> bool {
        self.entries@.dom().finite()
    }

    /// An empty pool with the given idle timeout (zero disables it).
    pub fn with_idle_timeout(idle_timeout_secs: u64) -> (m: Self)
        ensures
            m.wf(),
            m.ids() == Set::<i64>::empty(),
            m.clients() == Map::<i64, C>::empty(),
            m.timeout() == idle_timeout_secs,
    {
        let m = ConnectionManager { entries: HashMap::new(), idle_timeout_secs };
        assert(m.ids() =~= Set::<i64>::empty());
        assert(m.clients() =~= Map::<i64, C>::empty());
        m
    }

    pub fn set_idle_timeout(&mut self, secs: u64)
        ensures
            final(self).timeout() == secs,
            final(self).ids() == old(self).ids(),
            final(self).clients() == old(self).clients(),
            final(self).wf() == old(self).wf(),
    {
        self.idle_timeout_secs = secs;
    }

    pub fn idle_timeout_secs(&self) -> (r: u64)
        ensures
            r == self.timeout(),
    {
        self.idle_timeout_secs
    }

    /// Records that a host's connection was used at `now`, as a finished
    /// operation does when it hands the connection back; other hosts and
    /// hosts without a connection are untouched.
    pub fn touch_at(&mut self, host_id: i64, now: std::time::Instant)
        requires
            old(self).wf(),
        ensures
            final(self).wf(),
            final(self).ids() == old(self).ids(),
            final(self).clients() == old(self).clients(),
            final(self).timeout() == old(self).timeout(),
            final(self).last_used() == used_at(old(self).last_used(), host_id, now),
    {
        match self.entries.remove(&host_id) {
            Some(e) => {
                let e2 = ConnectionEntry { client: e.client, last_activity: now };
                self.entries.insert(host_id, e2);
                assert(self.ids() =~= old(self).ids());
                assert(self.clients() =~= old(self).clients());
                assert(self.last_used() =~= used_at(old(self).last_used(), host_id, now));
            },
            None => {
                assert(self.last_used() =~= used_at(old(self).last_used(), host_id, now));
            },
        }
    }

    /// Records that a host's connection was just used (at the clock's
    /// current reading), as `touch_at` does; other hosts and hosts without
    /// a connection are untouched.
    pub fn touch(&mut self, host_id: i64)
        requires
            old(self).wf(),
        ensures
            final(self).wf(),
            final(self).ids() == old(self).ids(),
            final(self).clients() == old(self).clients(),
            final(self).timeout() == old(self).timeout(),
            final(self).last_used().dom() == old(self).last_used().dom(),
            final(self).last_used().remove(host_id) == old(self).last_used().remove(host_id),
            exists|now: std::time::Instant|
                final(self).last_used() == used_at(old(self).last_used(), host_id, now),
    {
        let now = instant_now();
        self.touch_at(host_id, now);
        assert(self.last_used().dom() =~= old(self).last_used().dom());
        assert(self.last_used().remove(host_id) =~= old(self).last_used().remove(host_id));
    }

    /// Whether the host has an open connection.
    pub fn is_connected(&self, host_id: i64) -> (r: bool)
        ensures
            r == self.ids().contains(host_id),
    {
        self.entries.contains_key(&host_id)
    }

    /// The host ids with an open connection, each once.
    pub fn active_connections(&self) -> (r: Result<Vec<i64>, String>)
        requires
            self.wf(),
        ensures
            r is Ok,
            r matches Ok(v) ==> v@.to_set() == self.ids() && v@.no_duplicates(),
    {
        let mut v: Vec<i64> = Vec::new();
        let ghost keys = self.entries.keys().remaining();
        for k in it: self.entries.keys()
            invariant
                it.seq() == keys,
                v@ == keys.take(it.index() as int).map_values(|r: &i64| *r),
        {
            v.push(*k);
            assert(v@ =~= keys.take(it.index() as int + 1).map_values(|r: &i64| *r));
        }
        assert(keys.take(keys.len() as int) =~= keys);
        assert(v@ =~= keys.unref());
        Ok(v)
    }

    /// Adds a ready client for a host, replacing any connection it had.
    pub fn insert_mock_connection(&mut self, host_id: i64, client: C) -> (r: Result<(), String>)
        requires
            old(self).wf(),
        ensures
            r is Ok,
            final(self).wf(),
            final(self).ids() == old(self).ids().insert(host_id),
            final(self).clients() == old(self).clients().insert(host_id, client),
            final(self).timeout() == old(self).timeout(),
    {
        let e = ConnectionEntry { client, last_activity: instant_now() };
        self.entries.insert(host_id, e);
        assert(self.ids() =~= old(self).ids().insert(host_id));
        assert(self.clients() =~= old(self).clients().insert(host_id, client));
        Ok(())
    }
}

impl<C> ConnectionManager<C> {
    /// Takes a host's pooled client out of the pool; `None` when the host
    /// has no connection, and then nothing changes.
    pub fn take_connection(&mut self, host_id: i64) -> (r: Option<C>)
        requires
            old(self).wf(),
        ensures
            final(self).wf(),
            final(self).ids() == old(self).ids().remove(host_id),
            final(self).clients() == old(self).clients().remove(host_id),
            final(self).timeout() == old(self).timeout(),
            r == (if old(self).ids().contains(host_id) {
                Some(old(self).clients()[host_id])
            } else {
                None::<C>
            }),
    {
        let r = match self.entries.remove(&host_id) {
            Some(e) => Some(e.client),
            None => None,
        };
        assert(self.ids() =~= old(self).ids().remove(host_id));
        assert(self.clients() =~= old(self).clients().remove(host_id));
        r
    }
}

impl<C: ConnectionTrait> ConnectionManager<C> {
    /// Opens a connection to a host unless one is open already. A host
    /// without an id is refused; a client that fails to connect is dropped
    /// and its error returned.
    pub fn connect<F: ClientFactory<C>>(&mut self, host: &Host, factory: &F) -> (r: Result<
        (),
        String,
    >)
        requires
            old(self).wf(),
        ensures
            final(self).wf(),
            final(self).timeout() == old(self).timeout(),
            host.id is None ==> (r matches Err(e) && e@ == msg_no_host_id()),
            host.id is None ==> final(self).ids() == old(self).ids(),
            host.id is Some && old(self).ids().contains(host.id->0) ==> r is Ok,
            host.id is Some && old(self).ids().contains(host.id->0) ==> final(self).ids() == old(self).ids(),
            host.id is Some && !old(self).ids().contains(host.id->0) ==> (r is Ok && final(self).ids()
                == old(self).ids().insert(host.id->0)) || (r is Err && final(self).ids() == old(self).ids()),
            r is Err || final(self).ids() == old(self).ids() ==> final(self).clients() == old(self).clients(),
            r is Ok && !old(self).ids().contains(host.id->0) ==> exists|c: C|
                final(self).clients() == old(self).clients().insert(host.id->0, c),
    {
        let host_id = match host.id {
            Some(id) => id,
            None => {
                return Err(String::from_str("Host has no ID"));
            },
        };
        if self.entries.contains_key(&host_id) {
            return Ok(());
        }
        let mut client = factory.create_client(host);
        let connected = client.connect();
        let r = self.settle_new_client(host_id, client, connected);
        proof {
            if r is Ok {
                assert(self.ids().contains(host_id));
                assert(!(self.ids() == old(self).ids()));
            }
        }
        r
    }

    /// Settles a new client once its `connect` has answered `connected`:
    /// a connected client is pooled for the host, replacing any client the
    /// host had; a failed one is dropped. The answer is handed back as it is.
    pub fn settle_new_client(&mut self, host_id: i64, client: C, connected: Result<(), String>) -> (r: Result<(), String>)
        requires
            old(self).wf(),
        ensures
            r == connected,
            final(self).wf(),
            final(self).timeout() == old(self).timeout(),
            connected is Ok ==> final(self).ids() == old(self).ids().insert(host_id),
            connected is Ok ==> final(self).clients() == old(self).clients().insert(host_id, client),
            connected is Err ==> final(self).ids() == old(self).ids(),
            connected is Err ==> final(self).clients() == old(self).clients(),
    {
        if connected.is_ok() {
            let _ = self.insert_mock_connection(host_id, client);
        }
        connected
    }

    /// Closes and forgets a host's connection: the pooled client (the one
    /// `take_connection` hands out) is disconnected and its answer returned
    /// (a client that keeps a record of calls ends it with this disconnect
    /// and that answer); closing a host without one succeeds and changes
    /// nothing.
    pub fn disconnect(&mut self, host_id: i64) -> (r: Result<(), String>)
        requires
            old(self).wf(),
        ensures
            final(self).wf(),
            final(self).ids() == old(self).ids().remove(host_id),
            final(self).clients() == old(self).clients().remove(host_id),
            final(self).timeout() == old(self).timeout(),
            !old(self).ids().contains(host_id) ==> r is Ok,
            old(self).ids().contains(host_id) ==> (old(self).clients()[host_id].calls() matches Some(log)
                ==> exists|closed: C|
                closed.calls() == Some(log.push(ClientCall::Disconnect { result: unit_res_view(r) }))),
    {
        match self.take_connection(host_id) {
            None => Ok(()),
            Some(mut client) => client.disconnect(),
        }
    }

    /// Hands out a host's connection at the instant `now`, when it has been
    /// idle for `idle_secs`: an expired connection is closed and forgotten
    /// instead. A connection handed out counts as used at `now`, so the
    /// next idle time is measured from then.
    pub fn get_connection_at(&mut self, host_id: i64, idle_secs: u64, now: std::time::Instant) -> (r: Result<
        ConnectionGuard<'_, C>,
        String,
    >)
        requires
            old(self).wf(),
        ensures
            final(self).wf(),
            final(self).timeout() == old(self).timeout(),
            !old(self).ids().contains(host_id) ==> (r matches Err(e) && e@ == msg_no_connection(host_id)),
            !old(self).ids().contains(host_id) ==> final(self).ids() == old(self).ids(),
            old(self).ids().contains(host_id) && expired(old(self).timeout(), idle_secs) ==> (r matches Err(
                e,
            ) && e@ == msg_idle_timeout(old(self).timeout())),
            old(self).ids().contains(host_id) && expired(old(self).timeout(), idle_secs) ==> final(self).ids()
                == old(self).ids().remove(host_id),
            old(self).ids().contains(host_id) && !expired(old(self).timeout(), idle_secs) ==> (r matches Ok(
                g,
            ) && g.host_id() == host_id),
            old(self).ids().contains(host_id) && !expired(old(self).timeout(), idle_secs) ==> final(self).ids()
                == old(self).ids(),
            !old(self).ids().contains(host_id) ==> final(self).clients() == old(self).clients(),
            old(self).ids().contains(host_id) && expired(old(self).timeout(), idle_secs) ==> final(self).clients()
                == old(self).clients().remove(host_id),
            old(self).ids().contains(host_id) && !expired(old(self).timeout(), idle_secs) ==> (r matches Ok(
                g,
            ) && g.current() == old(self).clients()[host_id]),
            old(self).ids().contains(host_id) && !expired(old(self).timeout(), idle_secs) ==> final(self).clients().remove(
                host_id,
            ) == old(self).clients().remove(host_id),
            !old(self).ids().contains(host_id) ==> final(self).last_used() == old(self).last_used(),
            old(self).ids().contains(host_id) && expired(old(self).timeout(), idle_secs) ==> final(self).last_used()
                == old(self).last_used().remove(host_id),
            old(self).ids().contains(host_id) && !expired(old(self).timeout(), idle_secs) ==> final(self).last_used()
                == used_at(old(self).last_used(), host_id, now),
    {
        let timeout_secs = self.idle_timeout_secs;
        if !self.entries.contains_key(&host_id) {
            let mut msg = String::from_str("No active connection for host ");
            msg.append(i64_text(host_id).as_str());
            return Err(msg);
        }
        if timeout_secs > 0 && idle_secs >= timeout_secs {
            match self.entries.remove(&host_id) {
                Some(mut e) => {
                    let _ = e.client.disconnect();
                },
                None => {},
            }
            assert(self.ids() =~= old(self).ids().remove(host_id));
            assert(self.clients() =~= old(self).clients().remove(host_id));
            let mut msg = String::from_str("Connection closed due to idle timeout (");
            msg.append(u64_text(timeout_secs).as_str());
            msg.append(" seconds)");
            return Err(msg);
        }
        match self.entries.entry(host_id) {
            Entry::Occupied(o) => {
                let e = o.into_mut();
                e.last_activity = now;
                let client = &mut e.client;
                Ok(ConnectionGuard { host_id, client })
            },
            Entry::Vacant(_) => {
                let mut msg = String::from_str("No active connection for host ");
                msg.append(i64_text(host_id).as_str());
                Err(msg)
            },
        }
    }

    /// Hands out a host's connection when it has been idle for
    /// `idle_secs`: an expired connection is closed and forgotten instead.
    pub fn get_connection_with_idle(&mut self, host_id: i64, idle_secs: u64) -> (r: Result<
        ConnectionGuard<'_, C>,
        String,
    >)
        requires
            old(self).wf(),
        ensures
            final(self).wf(),
            final(self).timeout() == old(self).timeout(),
            !old(self).ids().contains(host_id) ==> (r matches Err(e) && e@ == msg_no_connection(host_id)),
            !old(self).ids().contains(host_id) ==> final(self).ids() == old(self).ids(),
            old(self).ids().contains(host_id) && expired(old(self).timeout(), idle_secs) ==> (r matches Err(
                e,
            ) && e@ == msg_idle_timeout(old(self).timeout())),
            old(self).ids().contains(host_id) && expired(old(self).timeout(), idle_secs) ==> final(self).ids()
                == old(self).ids().remove(host_id),
            old(self).ids().contains(host_id) && !expired(old(self).timeout(), idle_secs) ==> (r matches Ok(
                g,
            ) && g.host_id() == host_id),
            old(self).ids().contains(host_id) && !expired(old(self).timeout(), idle_secs) ==> final(self).ids()
                == old(self).ids(),
            !old(self).ids().contains(host_id) ==> final(self).clients() == old(self).clients(),
            old(self).ids().contains(host_id) && expired(old(self).timeout(), idle_secs) ==> final(self).clients()
                == old(self).clients().remove(host_id),
            old(self).ids().contains(host_id) && !expired(old(self).timeout(), idle_secs) ==> (r matches Ok(
                g,
            ) && g.current() == old(self).clients()[host_id]),
            old(self).ids().contains(host_id) && !expired(old(self).timeout(), idle_secs) ==> final(self).clients().remove(
                host_id,
            ) == old(self).clients().remove(host_id),
            !old(self).ids().contains(host_id) ==> final(self).last_used() == old(self).last_used(),
            old(self).ids().contains(host_id) && expired(old(self).timeout(), idle_secs) ==> final(self).last_used()
                == old(self).last_used().remove(host_id),
            old(self).ids().contains(host_id) && !expired(old(self).timeout(), idle_secs) ==> exists|
                now: std::time::Instant,
            | final(self).last_used() == used_at(old(self).last_used(), host_id, now),
    {
        let now = instant_now();
        self.get_connection_at(host_id, idle_secs, now)
    }

    /// Hands out a host's connection, closing it instead when it has been
    /// idle at least as long as the (non-zero) idle timeout. How long it has
    /// been idle is read from the clock.
    pub fn get_connection(&mut self, host_id: i64) -> (r: Result<ConnectionGuard<'_, C>, String>)
        requires
            old(self).wf(),
        ensures
            final(self).wf(),
            final(self).timeout() == old(self).timeout(),
            !old(self).ids().contains(host_id) ==> (r matches Err(e) && e@ == msg_no_connection(host_id)),
            !old(self).ids().contains(host_id) ==> final(self).ids() == old(self).ids(),
            old(self).ids().contains(host_id) ==> (r matches Ok(g) && g.host_id() == host_id && final(self).ids()
                == old(self).ids()) || (r matches Err(e) && old(self).timeout() > 0 && e@
                == msg_idle_timeout(old(self).timeout()) && final(self).ids() == old(self).ids().remove(host_id)),
            !old(self).ids().contains(host_id) ==> final(self).clients() == old(self).clients(),
            old(self).ids().contains(host_id) && r is Ok ==> (r matches Ok(g) && g.current() == old(self).clients()[host_id]),
            old(self).ids().contains(host_id) && r is Ok ==> final(self).clients().remove(host_id) == old(self).clients().remove(host_id),
            old(self).ids().contains(host_id) && r is Err ==> final(self).clients() == old(self).clients().remove(
                host_id,
            ),
    {
        let idle_secs = match self.entries.get(&host_id) {
            Some(e) => secs_since(&e.last_activity),
            None => 0,
        };
        self.get_connection_with_idle(host_id, idle_secs)
    }

    /// Closes every connection, ignoring their errors, and empties the pool.
    pub fn disconnect_all(&mut self) -> (r: Result<(), String>)
        requires
            old(self).wf(),
        ensures
            r is Ok,
            final(self).wf(),
            final(self).ids() == Set::<i64>::empty(),
            final(self).clients() == Map::<i64, C>::empty(),
            final(self).timeout() == old(self).timeout(),
    {
        let ids = match self.active_connections() {
            Ok(v) => v,
            Err(_) => Vec::new(),
        };
        let mut i: usize = 0;
        while i < ids.len()
            invariant
                i <= ids@.len(),
                ids@.to_set() == old(self).ids(),
                self.wf(),
                self.timeout() == old(self).timeout(),
                self.ids() == old(self).ids().difference(ids@.take(i as int).to_set()),
            decreases ids.len() - i,
        {
            let id = ids[i];
            match self.take_connection(id) {
                Some(mut client) => {
                    let _ = client.disconnect();
                },
                None => {},
            }
            proof {
                assert(ids@.take(i + 1) =~= ids@.take(i as int).push(id));
                ids@.take(i as int).lemma_push_to_set_commute(id);
                assert(ids@.take(i + 1).to_set() =~= ids@.take(i as int).to_set().insert(id));
                assert(self.ids() =~= old(self).ids().difference(ids@.take(i + 1).to_set()));
            }
            i += 1;
        }
        proof {
            assert(ids@.take(ids@.len() as int) =~= ids@);
            assert(self.ids() =~= Set::<i64>::empty());
            self.lemma_clients_dom();
            assert(self.clients() =~= Map::<i64, C>::empty());
        }
        Ok(())
    }

    /// Connects a fresh client for the host and closes it again.
    pub fn test_connection<F: ClientFactory<C>>(host: &Host, factory: &F) -> (r: Result<(), String>) {
        let mut client = factory.create_client(host);
        client.connect()?;
        client.disconnect()?;
        Ok(())
    }
}

/// A boxed client is a client.
impl<T: ConnectionTrait + ?Sized> ConnectionTrait for Box<T> {
    open spec fn calls(&self) -> Option<Seq<ClientCall>> {
        (**self).calls()
    }

    fn connect(&mut self) -> Result<(), String> {
        (**self).connect()
    }

    fn disconnect(&mut self) -> Result<(), String> {
        (**self).disconnect()
    }

    fn is_connected(&self) -> bool {
        (**self).is_connected()
    }

    fn list_dir(&mut self, path: &str) -> Result<Vec<FileEntry>, String> {
        (**self).list_dir(path)
    }

    fn file_size(&mut self, path: &str) -> Result<u64, String> {
        (**self).file_size(path)
    }

    fn file_exists(&mut self, path: &str) -> Result<bool, String> {
        (**self).file_exists(path)
    }

    fn upload(
        &mut self,
        local_path: &str,
        remote_path: &str,
        offset: u64,
        progress: Option<&dyn ProgressCallback>,
        is_cancelled: Option<&dyn CancelCheck>,
    ) -> Result<u64, String> {
        (**self).upload(local_path, remote_path, offset, progress, is_cancelled)
    }

    fn download(
        &mut self,
        remote_path: &str,
        local_path: &str,
        offset: u64,
        progress: Option<&dyn ProgressCallback>,
        is_cancelled: Option<&dyn CancelCheck>,
    ) -> Result<u64, String> {
        (**self).download(remote_path, local_path, offset, progress, is_cancelled)
    }

    fn mkdir(&mut self, path: &str) -> Result<(), String> {
        (**self).mkdir(path)
    }

    fn remove_file(&mut self, path: &str) -> Result<(), String> {
        (**self).remove_file(path)
    }

    fn remove_dir(&mut self, path: &str) -> Result<(), String> {
        (**self).remove_dir(path)
    }

    fn rename(&mut self, from: &str, to: &str) -> Result<(), String> {
        (**self).rename(from, to)
    }
}

} // verus!
