use std::path::PathBuf;

use passepartout::dispatcher::Dispatch;
use passepartout::error::{Error, ExtractionError};
use passepartout::operations::decrypt;
use passepartout::password_info::{label, minutes_since_epoch, Metadata, PasswordInfo};
use passepartout::password_store::PasswordStore;
use passepartout::store_dir::{join_under, resolve, strip_component};

fn by_std(home: &str, configured: Option<&str>) -> String {
    let home = PathBuf::from(home);
    if let Some(store_path) = configured {
        let path = PathBuf::from(store_path);
        if path.is_absolute() {
            return path.to_string_lossy().into();
        } else if let Ok(relative_to_home) =
            path.strip_prefix("$HOME").or_else(|_| path.strip_prefix("~"))
        {
            return home.join(relative_to_home).to_string_lossy().into();
        };
    }
    home.join(".password-store").to_string_lossy().into()
}

#[test]
fn the_store_lies_under_home_by_default() {
    assert_eq!(PasswordStore::get_store_dir("/home/alice", None), "/home/alice/.password-store");
    assert_eq!(PasswordStore::get_store_dir("/home/alice/", None), "/home/alice/.password-store");
    assert_eq!(PasswordStore::get_store_dir("", None), ".password-store");
}

#[test]
fn an_absolute_path_is_taken_as_it_is() {
    assert_eq!(PasswordStore::get_store_dir("/home/alice", Some("/srv/store")), "/srv/store");
    assert_eq!(PasswordStore::get_store_dir("/home/alice", Some("/")), "/");
    assert_eq!(PasswordStore::get_store_dir("/home/alice", Some("//srv/./x/")), "//srv/./x/");
}

#[test]
fn home_may_be_named_in_the_path() {
    assert_eq!(PasswordStore::get_store_dir("/home/alice", Some("$HOME/pw")), "/home/alice/pw");
    assert_eq!(PasswordStore::get_store_dir("/home/alice", Some("~/pw/store")), "/home/alice/pw/store");
    assert_eq!(PasswordStore::get_store_dir("/home/alice", Some("~")), "/home/alice/");
    assert_eq!(PasswordStore::get_store_dir("/home/alice", Some("$HOME//./pw")), "/home/alice/pw");
    assert_eq!(PasswordStore::get_store_dir("/home/alice", Some("~/.pw")), "/home/alice/.pw");
    assert_eq!(PasswordStore::get_store_dir("/home/alice", Some("~/../bob")), "/home/alice/../bob");
}

#[test]
fn any_other_path_gives_the_default() {
    for configured in ["", "store", "./store", "$HOMEx/pw", "~alice/pw", "a/$HOME", "$home/pw"] {
        assert_eq!(
            PasswordStore::get_store_dir("/home/alice", Some(configured)),
            "/home/alice/.password-store",
            "{configured:?}"
        );
    }
}

#[test]
fn the_store_lies_where_std_paths_put_it() {
    let homes = ["/home/alice", "/home/alice/", "/", "", "home"];
    let configured = [
        "", "/", "/srv/store", "store", "./store", "$HOME", "$HOME/", "$HOME/pw", "$HOME//pw",
        "$HOME/./pw", "$HOME/./", "$HOME/.", "$HOME/..", "$HOME/.pw", "$HOME/pw/", "$HOME/a/./b",
        "$HOMEx", "~", "~/", "~/pw", "~//././/pw", "~alice", "~/.", "~/./.", "~/.../x", "~/.x/.",
        "a/~", "$HOME/~/x", "~/$HOME", "~/a.", "~/a/..", "~/a/./b/./", "~/./a/.//", "~/..", "~/...",
        "~/a//b//", "$HOME/.password-store/",
    ];
    for home in homes {
        assert_eq!(resolve(home, None), by_std(home, None), "{home:?}");
        for path in configured {
            assert_eq!(resolve(home, Some(path)), by_std(home, Some(path)), "{home:?} {path:?}");
        }
    }
}

#[test]
fn a_component_is_stripped_whole() {
    assert_eq!(strip_component("~/a", "~"), Some("a"));
    assert_eq!(strip_component("~", "~"), Some(""));
    assert_eq!(strip_component("~///a/b", "~"), Some("a/b"));
    assert_eq!(strip_component("~/./a", "~"), Some("a"));
    assert_eq!(strip_component("~/.a", "~"), Some(".a"));
    assert_eq!(strip_component("~/../a", "~"), Some("../a"));
    assert_eq!(strip_component("~a", "~"), None);
    assert_eq!(strip_component("a/~", "~"), None);
    assert_eq!(strip_component("", "~"), None);
    assert_eq!(strip_component("~/a/", "~"), Some("a"));
    assert_eq!(strip_component("~/a/./", "~"), Some("a"));
    assert_eq!(strip_component("~/a/./b/.", "~"), Some("a/./b"));
    assert_eq!(strip_component("~/a/..", "~"), Some("a/.."));
    assert_eq!(strip_component("~/a.", "~"), Some("a."));
    assert_eq!(strip_component("$HOME/x", "$HOME"), Some("x"));
    assert_eq!(strip_component("$HOM", "$HOME"), None);
}

#[test]
fn a_path_goes_under_its_base() {
    assert_eq!(join_under("/home/alice", "pw"), "/home/alice/pw");
    assert_eq!(join_under("/home/alice/", "pw"), "/home/alice/pw");
    assert_eq!(join_under("/", "pw"), "/pw");
    assert_eq!(join_under("", "pw"), "pw");
    assert_eq!(join_under("/home/alice", ""), "/home/alice/");
}

#[test]
fn requests_go_through_the_store() {
    let mut store = PasswordStore::new("/store".to_string(), Ok(vec![])).unwrap();
    assert_eq!(store.spawned(), 0);
    assert_eq!(store.copy_password("web/example".to_string()), Dispatch::Spawn { task: 0 });
    assert_eq!(store.copy_password("web/example".to_string()), Dispatch::Suppressed);
    assert_eq!(store.copy_login("web/example".to_string()), Dispatch::Spawn { task: 1 });
    assert_eq!(store.copy_otp("web/example".to_string()), Dispatch::Spawn { task: 2 });
    assert_eq!(store.fetch_otp("web/example".to_string()), Dispatch::Spawn { task: 3 });
    assert_eq!(store.fetch_entry("web/example".to_string()), Dispatch::Spawn { task: 4 });
    assert_eq!(store.fetch_entry("web/example".to_string()), Dispatch::Suppressed);
    assert_eq!(store.fetch_entry("web/other".to_string()), Dispatch::Spawn { task: 5 });
    store.task_finished(0);
    assert_eq!(store.copy_login("web/example".to_string()), Dispatch::Suppressed);
    assert_eq!(store.copy_password("web/example".to_string()), Dispatch::Spawn { task: 6 });
    assert_eq!(store.spawned(), 7);
}

#[test]
fn minutes_are_taken_as_the_formatter_takes_them() {
    assert_eq!(minutes_since_epoch(0), 0);
    assert_eq!(minutes_since_epoch(59), 0);
    assert_eq!(minutes_since_epoch(60), 1);
    assert_eq!(minutes_since_epoch(1_700_000_000), 28_333_333);
    assert_eq!(minutes_since_epoch(2_147_483_647), 35_791_394);
    assert_eq!(minutes_since_epoch(2_147_483_648), -35_791_394);
    assert_eq!(minutes_since_epoch(4_294_967_295), 0);
    assert_eq!(minutes_since_epoch(4_294_967_236), -1);
    assert_eq!(minutes_since_epoch(4_294_967_296 + 120), 2);
    for seconds in [0u64, 1, 61, 1 << 31, (1 << 31) + 59, (1 << 32) - 1, 1 << 40, u64::MAX] {
        assert_eq!(minutes_since_epoch(seconds), seconds as i32 / 60, "{seconds}");
    }
}

#[test]
fn an_unknown_time_is_said_so() {
    let info = PasswordInfo::new("a".to_string(), Metadata { modified: None, size: 3 });
    assert_eq!(info.last_modified(), "Unknown");
    assert_eq!(label(None), "Unknown");
    assert_eq!(label(Some("Jan 1, 1970".to_string())), "Jan 1, 1970");
}

#[test]
fn a_known_time_is_written_in_english() {
    let at = |seconds: u64| {
        PasswordInfo::new("a".to_string(), Metadata { modified: Some(seconds), size: 3 })
            .last_modified()
            .replace('\u{202f}', " ")
    };
    assert_eq!(at(0), "Jan 1, 1970, 12:00 AM");
    assert_eq!(at(59), "Jan 1, 1970, 12:00 AM");
    assert_eq!(at(1_700_000_000), "Nov 14, 2023, 10:13 PM");
    assert_eq!(at(951_782_400 + 13 * 3600 + 5 * 60), "Feb 29, 2000, 1:05 PM");
}

#[test]
fn an_info_holds_what_it_was_made_of() {
    let metadata = Metadata { modified: Some(5), size: 7 };
    let info = PasswordInfo::new("web/example".to_string(), metadata);
    assert_eq!(info.id, "web/example");
    assert_eq!(info.metadata, metadata);
}

#[test]
fn decrypted_bytes_are_read_as_utf8() {
    assert_eq!(decrypt(Ok(b"hunter2\nalice\n".to_vec())), Ok("hunter2\nalice\n".to_string()));
    assert_eq!(decrypt(Ok("pässwörd€𝄞".as_bytes().to_vec())), Ok("pässwörd€𝄞".to_string()));
    assert_eq!(decrypt(Ok(vec![])), Ok(String::new()));
}

#[test]
fn other_bytes_are_refused() {
    assert_eq!(decrypt(Ok(vec![0xff, 0xfe])), Err(Error::InvalidUtf8));
    assert_eq!(decrypt(Ok(vec![b'a', 0xc3])), Err(Error::InvalidUtf8));
    assert_eq!(decrypt(Ok(vec![0xed, 0xa0, 0x80])), Err(Error::InvalidUtf8));
}

#[test]
fn a_failed_decryption_is_reported() {
    assert_eq!(
        decrypt(Err("no secret key".to_string())),
        Err(Error::Decrypt("no secret key".to_string()))
    );
}

#[test]
fn errors_have_a_line_for_the_user() {
    assert_eq!(Error::Pass("exit status: 1".to_string()).message(), "pass error: exit status: 1");
    assert_eq!(Error::Decrypt("no key".to_string()).message(), "decryption error: no key");
    assert_eq!(Error::InvalidUtf8.message(), "InvalidUtf8 error: entry is not UTF-8 text");
    assert_eq!(Error::Clipboard("busy".to_string()).message(), "Clipboard error: busy");
    assert_eq!(Error::ClipboardUnavailable.message(), "Clipboard error: clipboard unavailable");
    assert_eq!(Error::Io("denied".to_string()).message(), "IO error: denied");
    assert_eq!(
        Error::Extraction(ExtractionError::NoPassword).message(),
        "pass error: no password found"
    );
    assert_eq!(Error::Extraction(ExtractionError::NoLogin).message(), "pass error: no login found");
    assert_eq!(
        Error::Extraction(ExtractionError::NoOtpUrl).message(),
        "pass error: no OTP URL found"
    );
    assert_eq!(
        Error::Extraction(ExtractionError::InvalidOtpUrl).message(),
        "pass error: invalid OTP URL"
    );
    assert_eq!(ExtractionError::NoLogin.message(), "no login found");
}
