use ftx::connection::{
    client_config, CancelCheck, ClientConfig, ClientFactory, ConnectionManager, ConnectionTrait,
    FileEntry, ProgressCallback,
};
use ftx::host::{Host, Protocol};

struct MockClient {
    connected: bool,
    fail_connect: bool,
}

impl MockClient {
    fn new(fail_connect: bool) -> Self {
        Self { connected: false, fail_connect }
    }
}

impl ConnectionTrait for MockClient {
    fn connect(&mut self) -> Result<(), String> {
        if self.fail_connect {
            return Err("Connection refused".to_string());
        }
        self.connected = true;
        Ok(())
    }

    fn disconnect(&mut self) -> Result<(), String> {
        self.connected = false;
        Ok(())
    }

    fn is_connected(&self) -> bool {
        self.connected
    }

    fn list_dir(&mut self, _path: &str) -> Result<Vec<FileEntry>, String> {
        if !self.connected {
            return Err("Not connected".to_string());
        }
        Ok(vec![FileEntry {
            name: "test.txt".to_string(),
            path: "/test.txt".to_string(),
            is_dir: false,
            size: 100,
            modified: None,
        }])
    }

    fn file_size(&mut self, _path: &str) -> Result<u64, String> {
        Ok(100)
    }

    fn file_exists(&mut self, _path: &str) -> Result<bool, String> {
        Ok(true)
    }

    fn upload(
        &mut self,
        _local_path: &str,
        _remote_path: &str,
        _offset: u64,
        _progress: Option<&dyn ProgressCallback>,
        _is_cancelled: Option<&dyn CancelCheck>,
    ) -> Result<u64, String> {
        Ok(100)
    }

    fn download(
        &mut self,
        _remote_path: &str,
        _local_path: &str,
        _offset: u64,
        _progress: Option<&dyn ProgressCallback>,
        _is_cancelled: Option<&dyn CancelCheck>,
    ) -> Result<u64, String> {
        Ok(100)
    }

    fn mkdir(&mut self, _path: &str) -> Result<(), String> {
        Ok(())
    }

    fn remove_file(&mut self, _path: &str) -> Result<(), String> {
        Ok(())
    }

    fn remove_dir(&mut self, _path: &str) -> Result<(), String> {
        Ok(())
    }

    fn rename(&mut self, _from: &str, _to: &str) -> Result<(), String> {
        Ok(())
    }
}

struct MockFactory {
    fail_connect: bool,
}

impl ClientFactory<Box<dyn ConnectionTrait>> for MockFactory {
    fn create_client(&self, _host: &Host) -> Box<dyn ConnectionTrait> {
        Box::new(MockClient::new(self.fail_connect))
    }
}

fn host(id: Option<i64>, protocol: Protocol, port: u16) -> Host {
    Host {
        id,
        name: "test".into(),
        host: "127.0.0.1".into(),
        port,
        protocol,
        username: "user".into(),
        password: Some("pass".into()),
        key_path: None,
        created_at: None,
        updated_at: None,
    }
}

#[test]
fn test_connection_manager_new() {
    let manager = ConnectionManager::new();
    assert!(manager.active_connections().unwrap().is_empty());
    assert_eq!(manager.idle_timeout_secs(), 300);
}

#[test]
fn test_insert_and_get_connection() {
    let mut manager = ConnectionManager::new();
    let client = Box::new(MockClient::new(false));
    manager.insert_mock_connection(1, client).unwrap();

    assert!(manager.is_connected(1));
    assert!(!manager.is_connected(2));

    let conn = manager.get_connection(1);
    assert!(conn.is_ok());

    let conn = manager.get_connection(999);
    assert!(conn.is_err());
}

#[test]
fn get_connection_missing_host_message() {
    let mut manager = ConnectionManager::new();
    let err = manager.get_connection(999).err().unwrap();
    assert_eq!(err, "No active connection for host 999");
    let err = manager.get_connection(-5).err().unwrap();
    assert_eq!(err, "No active connection for host -5");
}

#[test]
fn test_disconnect() {
    let mut manager = ConnectionManager::new();
    manager.insert_mock_connection(1, Box::new(MockClient::new(false))).unwrap();

    assert!(manager.is_connected(1));
    manager.disconnect(1).unwrap();
    assert!(!manager.is_connected(1));
}

#[test]
fn settle_new_client_pools_only_connected_clients() {
    let mut manager = ConnectionManager::new();
    let r = manager.settle_new_client(3, Box::new(MockClient::new(false)), Err("refused".to_string()));
    assert_eq!(r.unwrap_err(), "refused");
    assert!(!manager.is_connected(3));
    assert!(manager.settle_new_client(3, Box::new(MockClient::new(false)), Ok(())).is_ok());
    assert!(manager.is_connected(3));
}

#[test]
fn take_connection_hands_out_the_pooled_client() {
    let mut manager = ConnectionManager::new();
    let mut c = MockClient::new(false);
    c.connect().unwrap();
    manager.insert_mock_connection(4, Box::new(c)).unwrap();
    assert!(manager.take_connection(5).is_none());
    let taken = manager.take_connection(4).unwrap();
    assert!(taken.is_connected());
    assert!(!manager.is_connected(4));
    assert!(manager.take_connection(4).is_none());
}

#[test]
fn test_disconnect_nonexistent_is_ok() {
    let mut manager = ConnectionManager::new();
    assert!(manager.disconnect(999).is_ok());
}

#[test]
fn test_connect_idempotent_when_already_connected() {
    let mut manager = ConnectionManager::new();
    manager.insert_mock_connection(1, Box::new(MockClient::new(false))).unwrap();

    let host = host(Some(1), Protocol::Ftp, 21);
    let factory = MockFactory { fail_connect: true };

    assert!(manager.connect(&host, &factory).is_ok());
    assert!(manager.is_connected(1));
}

#[test]
fn connect_new_host_and_failures() {
    let mut manager = ConnectionManager::new();
    let ok = MockFactory { fail_connect: false };
    let failing = MockFactory { fail_connect: true };

    assert_eq!(manager.connect(&host(None, Protocol::Sftp, 22), &ok).unwrap_err(), "Host has no ID");
    assert_eq!(
        manager.connect(&host(Some(7), Protocol::Sftp, 22), &failing).unwrap_err(),
        "Connection refused"
    );
    assert!(!manager.is_connected(7));
    assert!(manager.connect(&host(Some(7), Protocol::Sftp, 22), &ok).is_ok());
    assert!(manager.is_connected(7));
}

#[test]
fn test_disconnect_all() {
    let mut manager = ConnectionManager::new();
    manager.insert_mock_connection(1, Box::new(MockClient::new(false))).unwrap();
    manager.insert_mock_connection(2, Box::new(MockClient::new(false))).unwrap();

    assert_eq!(manager.active_connections().unwrap().len(), 2);
    manager.disconnect_all().unwrap();
    assert!(manager.active_connections().unwrap().is_empty());
}

#[test]
fn test_active_connections() {
    let mut manager = ConnectionManager::new();
    manager.insert_mock_connection(10, Box::new(MockClient::new(false))).unwrap();
    manager.insert_mock_connection(20, Box::new(MockClient::new(false))).unwrap();

    let mut ids = manager.active_connections().unwrap();
    ids.sort();
    assert_eq!(ids, vec![10, 20]);
}

#[test]
fn insert_mock_connection_replaces() {
    let mut manager = ConnectionManager::new();
    manager.insert_mock_connection(3, Box::new(MockClient::new(false))).unwrap();
    manager.insert_mock_connection(3, Box::new(MockClient::new(false))).unwrap();
    assert_eq!(manager.active_connections().unwrap(), vec![3]);
}

#[test]
fn test_with_connection_operations() {
    let mut manager = ConnectionManager::new();
    let mut client = MockClient::new(false);
    client.connected = true;
    manager.insert_mock_connection(1, Box::new(client)).unwrap();

    let mut conn = manager.get_connection(1).unwrap();
    let entries = conn.client().list_dir("/").unwrap();
    assert_eq!(entries.len(), 1);
    assert_eq!(entries[0].name, "test.txt");
}

#[test]
fn test_concurrent_connections_independent() {
    let mut manager = ConnectionManager::new();
    let mut c1 = MockClient::new(false);
    c1.connected = true;
    let mut c2 = MockClient::new(false);
    c2.connected = true;

    manager.insert_mock_connection(1, Box::new(c1)).unwrap();
    manager.insert_mock_connection(2, Box::new(c2)).unwrap();

    let files1 = manager.get_connection(1).unwrap().client().list_dir("/a").unwrap();
    let files2 = manager.get_connection(2).unwrap().client().list_dir("/b").unwrap();

    assert_eq!(files1.len(), 1);
    assert_eq!(files2.len(), 1);
}

#[test]
fn idle_timeout_expired_connection_is_closed() {
    let mut manager = ConnectionManager::with_idle_timeout(1);
    manager.insert_mock_connection(1, Box::new(MockClient::new(false))).unwrap();
    assert!(manager.get_connection_with_idle(1, 0).is_ok());
    let err = manager.get_connection_with_idle(1, 2).err().unwrap();
    assert!(err.contains("idle timeout"));
    assert_eq!(err, "Connection closed due to idle timeout (1 seconds)");
    assert!(!manager.is_connected(1));
}

#[test]
fn idle_timeout_zero_never_expires() {
    let mut manager = ConnectionManager::with_idle_timeout(0);
    manager.insert_mock_connection(1, Box::new(MockClient::new(false))).unwrap();
    assert!(manager.get_connection_with_idle(1, u64::MAX).is_ok());
    assert!(manager.is_connected(1));
}

#[test]
fn set_idle_timeout_takes_effect() {
    let mut manager = ConnectionManager::new();
    manager.set_idle_timeout(600);
    assert_eq!(manager.idle_timeout_secs(), 600);
    manager.insert_mock_connection(4, Box::new(MockClient::new(false))).unwrap();
    assert!(manager.get_connection_with_idle(4, 599).is_ok());
    assert!(manager.get_connection_with_idle(4, 600).is_err());
}

#[test]
fn guard_names_its_host() {
    let mut manager = ConnectionManager::new();
    manager.insert_mock_connection(8, Box::new(MockClient::new(false))).unwrap();
    let guard = manager.get_connection(8).unwrap();
    assert_eq!(guard.host(), 8);
}

#[test]
fn test_connection_connects_and_closes() {
    let ok = MockFactory { fail_connect: false };
    let failing = MockFactory { fail_connect: true };
    let h = host(Some(1), Protocol::Ftp, 21);
    assert!(ConnectionManager::<Box<dyn ConnectionTrait>>::test_connection(&h, &ok).is_ok());
    assert_eq!(
        ConnectionManager::<Box<dyn ConnectionTrait>>::test_connection(&h, &failing).unwrap_err(),
        "Connection refused"
    );
}

#[test]
fn client_config_by_protocol() {
    let mut h = host(Some(1), Protocol::Ftp, 21);
    h.password = None;
    match client_config(&h) {
        ClientConfig::Ftp { host, port, username, password } => {
            assert_eq!(host, "127.0.0.1");
            assert_eq!(port, 21);
            assert_eq!(username, "user");
            assert_eq!(password, "");
        }
        other => panic!("unexpected {:?}", other),
    }
    let mut h = host(Some(2), Protocol::Sftp, 22);
    h.key_path = Some("/k".into());
    match client_config(&h) {
        ClientConfig::Sftp { port, password, key_path, .. } => {
            assert_eq!(port, 22);
            assert_eq!(password, Some("pass".to_string()));
            assert_eq!(key_path, Some("/k".to_string()));
        }
        other => panic!("unexpected {:?}", other),
    }
}
