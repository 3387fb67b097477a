use capability_router::accounts::{
    step_outcome, AccountAuthState, AccountEntry, AccountRegistry, AuthStateSummary, HandlerState,
    Removal, Status as AccountStatus, DEFAULT_AUTH_STATE,
};
use capability_router::device_settings::{
    file_in, integer_in, integer_reply, keeps_watcher, number_reply, retained_watchers, set_reply,
    setting_file, string_reply, watch_reply, NotifyOutcome, ReadOutcome, SettingFiles,
    Status as SettingStatus,
};
use capability_router::token_error::{
    token_manager_status, AuthCacheError, AuthDbError, AuthProviderStatus, Status, TokenManagerError,
};

#[test]
fn a_new_error_is_not_fatal() {
    assert_eq!(
        TokenManagerError::new(Status::NetworkError),
        TokenManagerError { status: Status::NetworkError, fatal: false }
    );
    assert_eq!(TokenManagerError::from(Status::UserCancelled), TokenManagerError::new(Status::UserCancelled));
}

#[test]
fn store_failures_turn_into_errors() {
    let cases = [
        (AuthDbError::InvalidArguments, Status::InvalidRequest, true),
        (AuthDbError::DbInvalid, Status::InternalError, true),
        (AuthDbError::CredentialNotFound, Status::UserNotFound, false),
        (AuthDbError::SerializationError, Status::InternalError, false),
        (AuthDbError::Other, Status::UnknownError, false),
    ];
    for (failure, status, fatal) in cases {
        assert_eq!(TokenManagerError::from(failure), TokenManagerError { status, fatal });
    }
}

#[test]
fn cache_failures_turn_into_errors() {
    assert_eq!(
        TokenManagerError::from(AuthCacheError::InvalidArguments),
        TokenManagerError { status: Status::InvalidRequest, fatal: false }
    );
    assert_eq!(
        TokenManagerError::from(AuthCacheError::KeyNotFound),
        TokenManagerError { status: Status::UserNotFound, fatal: false }
    );
}

#[test]
fn provider_statuses_turn_into_errors() {
    let cases = [
        (AuthProviderStatus::BadRequest, Status::InvalidRequest),
        (AuthProviderStatus::OauthServerError, Status::AuthProviderServerError),
        (AuthProviderStatus::UserCancelled, Status::UserCancelled),
        (AuthProviderStatus::ReauthRequired, Status::ReauthRequired),
        (AuthProviderStatus::NetworkError, Status::NetworkError),
        (AuthProviderStatus::InternalError, Status::InternalError),
        (AuthProviderStatus::Other, Status::UnknownError),
    ];
    for (provider, status) in cases {
        assert_eq!(TokenManagerError::from(provider), TokenManagerError { status, fatal: false });
    }
}

#[test]
fn a_failed_result_takes_the_given_status() {
    let ok: Result<u8, String> = Ok(3);
    assert_eq!(token_manager_status(ok, Status::InternalError), Ok(3));
    let failed: Result<u8, String> = Err("boom".to_string());
    assert_eq!(
        token_manager_status(failed, Status::InternalError),
        Err(TokenManagerError { status: Status::InternalError, fatal: false })
    );
}

fn registry(ids: &[u64]) -> AccountRegistry {
    AccountRegistry::load(&ids.to_vec())
}

#[test]
fn test_initially_empty() {
    let r = AccountRegistry::new();
    assert_eq!(r.account_ids(), vec![]);
    assert_eq!(r.account_auth_states(), (AccountStatus::Okay, vec![]));
}

#[test]
fn test_remove_missing_account() {
    let mut r = registry(&[1, 2]);
    assert_eq!(r.lookup(42), HandlerState::NotFound);
    assert_eq!(r.plan_removal(42), None);
    assert!(!r.remove(42));
    assert_eq!(r.account_ids(), vec![1, 2]);
}

#[test]
fn test_remove_present_account() {
    let mut r = registry(&[1, 2]);
    assert_eq!(r.account_ids(), vec![1, 2]);
    assert_eq!(r.plan_removal(1), Some(Removal { terminate_handler: false, remaining: vec![2] }));
    assert!(r.remove(1));
    assert_eq!(r.account_ids(), vec![2]);
    assert_eq!(r.lookup(1), HandlerState::NotFound);
}

#[test]
fn accounts_are_listed_in_ascending_order() {
    let r = registry(&[30, 10, 20, 10]);
    assert_eq!(r.account_ids(), vec![10, 20, 30]);
    assert_eq!(
        r.account_auth_states(),
        (
            AccountStatus::Okay,
            vec![
                AccountAuthState { account_id: 10, auth_state: AuthStateSummary::Unknown },
                AccountAuthState { account_id: 20, auth_state: DEFAULT_AUTH_STATE },
                AccountAuthState { account_id: 30, auth_state: DEFAULT_AUTH_STATE },
            ]
        )
    );
}

#[test]
fn a_handler_is_loaded_once() {
    let mut r = registry(&[5, 7]);
    assert_eq!(r.lookup(7), HandlerState::Unconnected);
    r.mark_connected(7);
    assert_eq!(r.lookup(7), HandlerState::Connected);
    assert_eq!(r.lookup(5), HandlerState::Unconnected);
    assert_eq!(r.account_ids(), vec![5, 7]);
    assert_eq!(r.plan_removal(7), Some(Removal { terminate_handler: true, remaining: vec![5] }));
}

#[test]
fn an_account_is_added_once() {
    let mut r = registry(&[5, 7]);
    assert_eq!(r.plan_addition(7), Err(AccountStatus::UnknownError));
    assert_eq!(r.plan_addition(6), Ok(vec![5, 7, 6]));
    r.insert(AccountEntry { id: 6, connected: true });
    assert_eq!(r.account_ids(), vec![5, 6, 7]);
    assert_eq!(r.lookup(6), HandlerState::Connected);
    assert_eq!(r.plan_addition(6), Err(AccountStatus::UnknownError));
    r.insert(AccountEntry { id: 6, connected: false });
    assert_eq!(r.account_ids(), vec![5, 6, 7]);
    assert_eq!(r.lookup(6), HandlerState::Unconnected);
    r.insert(AccountEntry { id: 1, connected: false });
    r.insert(AccountEntry { id: 9, connected: false });
    assert_eq!(r.account_ids(), vec![1, 5, 6, 7, 9]);
}

#[test]
fn a_step_goes_on_only_after_success() {
    assert_eq!(step_outcome(Some(AccountStatus::Okay)), Ok(()));
    assert_eq!(step_outcome(Some(AccountStatus::NotFound)), Err(AccountStatus::NotFound));
    assert_eq!(step_outcome(Some(AccountStatus::InternalError)), Err(AccountStatus::InternalError));
    assert_eq!(step_outcome(None), Err(AccountStatus::IoError));
}

fn files(keys: &[&str]) -> SettingFiles {
    let mut s = SettingFiles::new();
    s.initialize_keys("/data/device-settings", &keys.iter().map(|k| k.to_string()).collect());
    s
}

#[test]
fn each_setting_has_a_file_named_in_lower_case() {
    assert_eq!(setting_file("/data", "DeviceName"), "/data/devicename");
    assert_eq!(setting_file("/data", "Display.Brightness"), "/data/display.brightness");
    assert_eq!(file_in("/data", "DeviceName"), "/data/DeviceName");
    let s = files(&["DeviceName", "TestSetting", "Display.Brightness", "Audio", "FactoryReset"]);
    assert_eq!(s.file_of("TestSetting"), Some(&"/data/device-settings/testsetting".to_string()));
    assert_eq!(s.file_of("Audio"), Some(&"/data/device-settings/audio".to_string()));
    assert_eq!(s.file_of("testsetting"), None);
    assert!(s.knows("FactoryReset"));
    assert!(!s.knows("Volume"));
    assert!(!SettingFiles::new().knows("Audio"));
}

#[test]
fn initializing_again_forgets_the_earlier_keys() {
    let mut s = files(&["One"]);
    s.initialize_keys("/tmp", &vec!["Two".to_string()]);
    assert!(!s.knows("One"));
    assert_eq!(s.file_of("Two"), Some(&"/tmp/two".to_string()));
}

/// A settings server over files kept in memory.
struct Server {
    files: SettingFiles,
    disk: std::collections::HashMap<String, String>,
}

impl Server {
    fn new(keys: &[&str]) -> Server {
        Server { files: files(keys), disk: std::collections::HashMap::new() }
    }

    fn read(&self, key: &str) -> Option<ReadOutcome> {
        self.files.file_of(key).map(|file| match self.disk.get(file) {
            Some(text) => ReadOutcome::Contents(text.clone()),
            None => ReadOutcome::NotFound,
        })
    }

    fn set(&mut self, key: &str, text: String) -> bool {
        let written = match self.files.file_of(key) {
            Some(file) => {
                self.disk.insert(file.clone(), text);
                Some(true)
            }
            None => None,
        };
        set_reply(written)
    }

    fn set_integer(&mut self, key: &str, val: i64) -> bool {
        self.set(key, val.to_string())
    }

    fn set_string(&mut self, key: &str, val: &str) -> bool {
        self.set(key, val.to_string())
    }

    fn get_integer(&self, key: &str) -> (i64, SettingStatus) {
        integer_reply(self.read(key))
    }

    fn get_string(&self, key: &str) -> (String, SettingStatus) {
        string_reply(self.read(key))
    }
}

#[test]
fn test_int() {
    let mut device_settings = Server::new(&["TestKey"]);
    let response = device_settings.set_integer("TestKey", 18);
    assert!(response, "set_integer failed");
    let response = device_settings.get_integer("TestKey");
    assert_eq!(response, (18, SettingStatus::Okay));
    assert_eq!(integer_in("-7"), (-7, SettingStatus::Okay));
    assert_eq!(number_reply(Some(18)), (18, SettingStatus::Okay));
}

#[test]
fn test_string() {
    let mut device_settings = Server::new(&["TestKey"]);
    let response = device_settings.set_string("TestKey", "mystring");
    assert!(response, "set_string failed");
    let response = device_settings.get_string("TestKey");
    assert_eq!(response, ("mystring".to_string(), SettingStatus::Okay));
}

#[test]
fn test_invalid_key() {
    let device_settings = Server::new(&[]);
    let response = device_settings.get_string("TestKey");
    assert_eq!(response, ("".to_string(), SettingStatus::ErrInvalidSetting));
    let response = device_settings.get_integer("TestKey");
    assert_eq!(response, (0, SettingStatus::ErrInvalidSetting));
    assert!(!set_reply(None));
    assert_eq!(watch_reply(false, true), SettingStatus::ErrInvalidSetting);
}

#[test]
fn test_incorrect_type() {
    let mut device_settings = Server::new(&["TestKey"]);
    let response = device_settings.set_string("TestKey", "mystring");
    assert!(response, "set_string failed");
    let response = device_settings.get_integer("TestKey");
    assert_eq!(response, (0, SettingStatus::ErrIncorrectType));
    assert_eq!(number_reply(None), (0, SettingStatus::ErrIncorrectType));
    assert_eq!(integer_in(""), (0, SettingStatus::ErrIncorrectType));
    assert_eq!(integer_in("9223372036854775808"), (0, SettingStatus::ErrIncorrectType));
}

#[test]
fn test_not_set_err() {
    let device_settings = Server::new(&["TestKey"]);
    let response = device_settings.get_integer("TestKey");
    assert_eq!(response, (0, SettingStatus::ErrNotSet));
    let response = device_settings.get_string("TestKey");
    assert_eq!(response, ("".to_string(), SettingStatus::ErrNotSet));
}

#[test]
fn test_multiple_keys() {
    let mut device_settings = Server::new(&["TestKey1", "TestKey2"]);
    let response = device_settings.set_integer("TestKey1", 18);
    assert!(response, "set_integer failed");
    let response = device_settings.set_string("TestKey2", "mystring");
    assert!(response, "set_string failed");
    let response = device_settings.get_integer("TestKey1");
    assert_eq!(response, (18, SettingStatus::Okay));
    let response = device_settings.get_string("TestKey2");
    assert_eq!(response, ("mystring".to_string(), SettingStatus::Okay));
}

#[test]
fn a_file_that_cannot_be_read_is_a_read_error() {
    assert_eq!(integer_reply(Some(ReadOutcome::Failed)), (0, SettingStatus::ErrRead));
    assert_eq!(string_reply(Some(ReadOutcome::Failed)), (String::new(), SettingStatus::ErrRead));
    assert!(!set_reply(Some(false)));
}

#[test]
fn a_watcher_needs_a_known_setting_and_a_usable_channel() {
    assert_eq!(watch_reply(true, true), SettingStatus::Okay);
    assert_eq!(watch_reply(true, false), SettingStatus::ErrUnknown);
    assert_eq!(watch_reply(false, false), SettingStatus::ErrInvalidSetting);
}

#[test]
fn watchers_that_closed_their_channel_go() {
    assert!(keeps_watcher(NotifyOutcome::Delivered));
    assert!(keeps_watcher(NotifyOutcome::Failed));
    assert!(!keeps_watcher(NotifyOutcome::PeerClosed));
    let outcomes = vec![
        NotifyOutcome::Delivered,
        NotifyOutcome::PeerClosed,
        NotifyOutcome::Failed,
        NotifyOutcome::PeerClosed,
        NotifyOutcome::Delivered,
    ];
    assert_eq!(retained_watchers(&outcomes), vec![0, 2, 4]);
    assert_eq!(retained_watchers(&vec![]), vec![]);
}
