use csfm::config::Bookmark;
use csfm::config::Config;
use csfm::navigator::Action;
use csfm::navigator::Browser;
use csfm::navigator::Intent;
use csfm::notice::Notice;

#[test]
fn new_browser_starts_on_the_given_path() {
    let b = Browser::new(Config::fallback(), "/start".to_string());
    assert_eq!(b.current_path, "/start");
    assert_eq!(b.pending_path, "/start");
    assert!(b.listing.is_empty());
    assert!(b.sidebar_open);
}

#[test]
fn typed_path_is_pending_only() {
    let mut b = Browser::new(Config::fallback(), "/start".to_string());
    let a = b.update(Intent::PathTyped("/typed".to_string()));
    assert!(a.is_none());
    assert_eq!(b.pending_path, "/typed");
    assert_eq!(b.current_path, "/start");
}

#[test]
fn submitted_path_is_read() {
    let mut b = Browser::new(Config::fallback(), "/start".to_string());
    b.update(Intent::PathTyped("/tmp".to_string()));
    let a = b.update(Intent::PathSubmitted);
    match a {
        Some(Action::Read(t)) => assert_eq!(t, "/tmp"),
        _ => panic!("expected a read"),
    }
    assert_eq!(b.current_path, "/start");
}

#[test]
fn successful_read_commits_path_and_listing() {
    let mut b = Browser::new(Config::fallback(), "/d".to_string());
    let n = b.apply_read("/d".to_string(), Some(vec![("/d/x".to_string(), false)]));
    assert!(n.is_none());
    assert_eq!(b.current_path, "/d");
    assert_eq!(b.listing.len(), 1);
    assert_eq!(b.listing[0].name, "x");
}

#[test]
fn empty_read_replaces_listing() {
    let mut b = Browser::new(Config::fallback(), "/d".to_string());
    b.apply_read("/d".to_string(), Some(vec![("/d/x".to_string(), false)]));
    assert_eq!(b.listing.len(), 1);
    b.update(Intent::PathTyped("/empty".to_string()));
    let n = b.apply_read("/empty".to_string(), Some(vec![]));
    assert!(n.is_none());
    assert_eq!(b.current_path, "/empty");
    assert!(b.listing.is_empty());
}

#[test]
fn failed_read_keeps_state_and_notifies_once() {
    let mut b = Browser::new(Config::fallback(), "/d".to_string());
    b.apply_read("/d".to_string(), Some(vec![("/d/x".to_string(), false)]));
    b.update(Intent::PathTyped("/locked".to_string()));
    let n = b.apply_read("/locked".to_string(), None);
    assert!(matches!(n, Some(Notice::ReadFailed(p)) if p == "/locked"));
    assert_eq!(b.current_path, "/d");
    assert_eq!(b.listing.len(), 1);
}

#[test]
fn stale_read_is_dropped_silently() {
    let mut b = Browser::new(Config::fallback(), "/d".to_string());
    b.update(Intent::PathTyped("/new".to_string()));
    let n = b.apply_read("/old".to_string(), Some(vec![("/old/x".to_string(), false)]));
    assert!(n.is_none());
    assert_eq!(b.current_path, "/d");
    assert!(b.listing.is_empty());
}

#[test]
fn read_honours_hidden_file_setting() {
    let cfg = Config {
        theme: String::new(),
        show_hidden_files: true,
        bookmarks: Vec::new(),
    };
    let mut b = Browser::new(cfg, "/d".to_string());
    b.apply_read(
        "/d".to_string(),
        Some(vec![("/d/.hidden".to_string(), false), ("/d/a".to_string(), false)]),
    );
    assert_eq!(b.listing.len(), 2);
    assert_eq!(b.listing[0].name, ".hidden");
}

#[test]
fn up_reads_parent_of_current() {
    let mut b = Browser::new(Config::fallback(), "/a/b".to_string());
    let a = b.update(Intent::Up);
    match a {
        Some(Action::Read(t)) => assert_eq!(t, "/a"),
        _ => panic!("expected a read"),
    }
    assert_eq!(b.pending_path, "/a");
    assert_eq!(b.current_path, "/a/b");
}

#[test]
fn up_at_root_stays_at_root() {
    let mut b = Browser::new(Config::fallback(), "/".to_string());
    let a = b.up();
    match a {
        Action::Read(t) => assert_eq!(t, "/"),
        _ => panic!("expected a read"),
    }
    b.apply_read("/".to_string(), Some(vec![]));
    let again = b.up();
    match again {
        Action::Read(t) => assert_eq!(t, "/"),
        _ => panic!("expected a read"),
    }
    assert_eq!(b.pending_path, "/");
}

#[test]
fn entering_a_directory_reads_it() {
    let mut b = Browser::new(Config::fallback(), "/d".to_string());
    let a = b.update(Intent::Enter("/d/sub".to_string()));
    match a {
        Some(Action::Read(t)) => assert_eq!(t, "/d/sub"),
        _ => panic!("expected a read"),
    }
    assert_eq!(b.pending_path, "/d/sub");
}

#[test]
fn bookmark_jump_commits_target() {
    let bm = Bookmark { title: "Home".to_string(), path: "/home/user".to_string() };
    let mut b = Browser::new(Config::fallback(), "/".to_string());
    let a = b.update(Intent::Jump(bm));
    let target = match a {
        Some(Action::Read(t)) => t,
        _ => panic!("expected a read"),
    };
    assert_eq!(target, "/home/user");
    let n = b.apply_read(target, Some(vec![("/home/user/notes.txt".to_string(), false)]));
    assert!(n.is_none());
    assert_eq!(b.current_path, "/home/user");
    assert_eq!(b.listing.len(), 1);
    assert_eq!(b.listing[0].name, "notes.txt");
}

#[test]
fn delete_file_asks_for_confirmation_first() {
    let mut b = Browser::new(Config::fallback(), "/d".to_string());
    let a = b.update(Intent::DeleteFile("/d/f.txt".to_string()));
    match a {
        Some(Action::ConfirmDelete(p, name, recursive)) => {
            assert_eq!(p, "/d/f.txt");
            assert_eq!(name, "f.txt");
            assert!(!recursive);
        },
        _ => panic!("expected a confirmation request"),
    }
}

#[test]
fn delete_dir_asks_for_recursive_confirmation() {
    let mut b = Browser::new(Config::fallback(), "/d".to_string());
    let a = b.update(Intent::DeleteDir("/d/sub".to_string()));
    match a {
        Some(Action::ConfirmDelete(p, name, recursive)) => {
            assert_eq!(p, "/d/sub");
            assert_eq!(name, "sub");
            assert!(recursive);
        },
        _ => panic!("expected a confirmation request"),
    }
}

#[test]
fn declined_confirmation_requests_no_removal() {
    let mut b = Browser::new(Config::fallback(), "/d".to_string());
    let (n, a) = b.decide_confirmation("/d/f.txt".to_string(), false, Some(false));
    assert!(n.is_none());
    match a {
        Action::Read(t) => assert_eq!(t, "/d"),
        _ => panic!("a declined confirmation must only re-list"),
    }
}

#[test]
fn affirmed_confirmation_requests_removal() {
    let mut b = Browser::new(Config::fallback(), "/d".to_string());
    let (n, a) = b.decide_confirmation("/d/sub".to_string(), true, Some(true));
    assert!(n.is_none());
    match a {
        Action::Delete(p, recursive) => {
            assert_eq!(p, "/d/sub");
            assert!(recursive);
        },
        _ => panic!("expected a removal"),
    }
}

#[test]
fn failed_dialog_counts_as_declined() {
    let mut b = Browser::new(Config::fallback(), "/d".to_string());
    let (n, a) = b.decide_confirmation("/d/f.txt".to_string(), false, None);
    assert!(matches!(n, Some(Notice::ConfirmUnavailable(p)) if p == "/d/f.txt"));
    match a {
        Action::Read(t) => assert_eq!(t, "/d"),
        _ => panic!("a failed dialog must only re-list"),
    }
}

#[test]
fn delete_failure_is_reported_and_relists() {
    let mut b = Browser::new(Config::fallback(), "/d".to_string());
    let (n, a) = b.apply_delete_result("/d/f.txt".to_string(), false);
    assert!(matches!(n, Some(Notice::DeleteFailed(p)) if p == "/d/f.txt"));
    match a {
        Action::Read(t) => assert_eq!(t, "/d"),
        _ => panic!("expected a re-listing"),
    }
}

#[test]
fn delete_success_relists_without_notice() {
    let mut b = Browser::new(Config::fallback(), "/d".to_string());
    let (n, a) = b.apply_delete_result("/d/f.txt".to_string(), true);
    assert!(n.is_none());
    assert!(matches!(a, Action::Read(t) if t == "/d"));
}

#[test]
fn open_entry_launches_the_path() {
    let b = Browser::new(Config::fallback(), "/d".to_string());
    let a = b.open_entry("/d/f.txt".to_string());
    assert!(matches!(a, Action::Launch(p) if p == "/d/f.txt"));
}

#[test]
fn launch_failure_is_reported_not_fatal() {
    let b = Browser::new(Config::fallback(), "/d".to_string());
    let n = b.apply_launch_result("/d/f.txt".to_string(), false);
    assert!(matches!(n, Some(Notice::LaunchFailed(p)) if p == "/d/f.txt"));
    let ok = b.apply_launch_result("/d/f.txt".to_string(), true);
    assert!(ok.is_none());
}

#[test]
fn sidebar_toggle_flips_only_the_flag() {
    let mut b = Browser::new(Config::fallback(), "/d".to_string());
    assert!(b.sidebar_open);
    let a = b.update(Intent::ToggleSidebar);
    assert!(a.is_none());
    assert!(!b.sidebar_open);
    assert_eq!(b.current_path, "/d");
    b.update(Intent::ToggleSidebar);
    assert!(b.sidebar_open);
}
