use vesper::acme::{
    account_contact, certificate_poll_step, check_new_order, get_domain_cert_file_names,
    issued_message, order_poll_step, pick_http01, ChallengeKind, ChallengeStore, OrderStatus,
    PollStep,
};
use vesper::stream_cache::StreamBufferCache;
use vesper::tray_menus::{
    default_device_name, drop_menu_action, drop_starts_hidden, router_menu_action,
    router_shows_window_at_start, tray_action, tray_menu, MenuEntry, TrayAction, TrayMessage,
    TrayMouseEvent, WindowAction, IDM_EXIT, IDM_OPEN_CONFIG, IDM_TOGGLE_AUTOSTART,
};

#[test]
fn challenge_tokens_are_served_until_removed() {
    let mut store = ChallengeStore::new();
    assert!(store.get_token("t1").is_none());
    store.set_token("t1".to_owned(), "auth-1".to_owned());
    store.set_token("t2".to_owned(), "auth-2".to_owned());
    store.set_token("t1".to_owned(), "auth-1b".to_owned());
    assert_eq!(store.get_token("t1").unwrap(), "auth-1b");
    store.remove_token("t1");
    assert!(store.get_token("t1").is_none());
    assert_eq!(store.get_token("t2").unwrap(), "auth-2");
}

#[test]
fn issuance_decisions() {
    assert!(check_new_order(OrderStatus::Pending).is_ok());
    assert_eq!(check_new_order(OrderStatus::Valid).unwrap_err(), "예상치 못한 주문 상태: Valid");
    assert_eq!(
        pick_http01(&vec![ChallengeKind::Dns01, ChallengeKind::Http01, ChallengeKind::Http01]).unwrap(),
        1
    );
    assert_eq!(
        pick_http01(&vec![ChallengeKind::TlsAlpn01]).unwrap_err(),
        "HTTP-01 챌린지를 찾을 수 없습니다."
    );
    assert!(matches!(order_poll_step(OrderStatus::Ready, 3), PollStep::Done));
    assert!(matches!(order_poll_step(OrderStatus::Valid, 0), PollStep::Done));
    assert!(matches!(order_poll_step(OrderStatus::Pending, 0), PollStep::Again(1)));
    assert!(matches!(order_poll_step(OrderStatus::Processing, 19), PollStep::Again(20)));
    match order_poll_step(OrderStatus::Pending, 20) {
        PollStep::Fail(m) => assert_eq!(m, "ACME 인증 시간 초과 (60초 초과)"),
        _ => panic!("expected a timeout"),
    }
    match order_poll_step(OrderStatus::Invalid, 0) {
        PollStep::Fail(m) => assert!(m.starts_with("ACME 도메인 소유권 검증에 실패했습니다.")),
        _ => panic!("expected a failure"),
    }
    assert!(matches!(certificate_poll_step(true, 15), PollStep::Done));
    assert!(matches!(certificate_poll_step(false, 14), PollStep::Again(15)));
    match certificate_poll_step(false, 15) {
        PollStep::Fail(m) => assert_eq!(m, "인증서 생성 대기 시간 초과"),
        _ => panic!("expected a timeout"),
    }
}

#[test]
fn order_polling_gives_up_after_the_limit() {
    let mut retries = 0;
    let mut polls = 0;
    loop {
        polls += 1;
        match order_poll_step(OrderStatus::Pending, retries) {
            PollStep::Again(r) => retries = r,
            PollStep::Fail(_) => break,
            PollStep::Done => panic!("never ready"),
        }
    }
    assert_eq!(polls, 21);
}

#[test]
fn certificate_files_and_messages() {
    assert_eq!(account_contact("me@example.com"), "mailto:me@example.com");
    assert_eq!(
        get_domain_cert_file_names("shop.example.com"),
        ("shop.example.com.crt".to_owned(), "shop.example.com.key".to_owned())
    );
    assert_eq!(
        issued_message("a.com"),
        "도메인 'a.com'에 대한 Let's Encrypt 정식 SSL 발급이 성공하였습니다."
    );
}

#[test]
fn gateway_tray_menu_and_commands() {
    let menu = tray_menu(true);
    assert_eq!(menu.len(), 5);
    match &menu[2] {
        MenuEntry::Item { id, label } => {
            assert_eq!(*id, IDM_TOGGLE_AUTOSTART);
            assert_eq!(label, "🔄 부팅 시 자동 시작 (ON)");
        }
        _ => panic!("expected the autostart entry"),
    }
    assert!(matches!(menu[3], MenuEntry::Separator));
    match tray_action(TrayMessage::Icon(TrayMouseEvent::RightButtonUp), false) {
        TrayAction::ShowMenu(m) => match &m[2] {
            MenuEntry::Item { label, .. } => assert_eq!(label, "🔄 부팅 시 자동 시작 (OFF)"),
            _ => panic!("expected the autostart entry"),
        },
        _ => panic!("expected the menu"),
    }
    assert!(matches!(tray_action(TrayMessage::Icon(TrayMouseEvent::LeftButtonDoubleClick), false), TrayAction::OpenDashboard));
    assert!(matches!(tray_action(TrayMessage::Command(IDM_OPEN_CONFIG), false), TrayAction::OpenConfig));
    assert!(matches!(tray_action(TrayMessage::Command(IDM_TOGGLE_AUTOSTART), true), TrayAction::DisableAutostart));
    assert!(matches!(tray_action(TrayMessage::Command(IDM_TOGGLE_AUTOSTART), false), TrayAction::EnableAutostart));
    assert!(matches!(tray_action(TrayMessage::Command(IDM_EXIT), false), TrayAction::Exit));
    assert!(matches!(tray_action(TrayMessage::Command(1), false), TrayAction::Nothing));
    assert!(matches!(tray_action(TrayMessage::Destroy, false), TrayAction::Quit));
    assert!(matches!(tray_action(TrayMessage::Other, false), TrayAction::Default));
}

#[test]
fn router_and_drop_windows() {
    assert!(matches!(router_menu_action("open", false, false), WindowAction::Show));
    match router_menu_action("preset_music", true, false) {
        WindowAction::Emit { event, payload } => {
            assert_eq!(event, "load-preset");
            assert_eq!(payload, "Music");
        }
        _ => panic!("expected an event"),
    }
    assert!(matches!(router_menu_action("signal_speaker", true, false), WindowAction::Focus));
    match router_menu_action("signal_speaker", true, true) {
        WindowAction::Emit { event, payload } => {
            assert_eq!(event, "open-signal");
            assert_eq!(payload, "speaker");
        }
        _ => panic!("expected an event"),
    }
    match router_menu_action("settings", false, false) {
        WindowAction::Emit { event, payload } => {
            assert_eq!(event, "open-settings");
            assert_eq!(payload, "");
        }
        _ => panic!("expected an event"),
    }
    assert!(matches!(router_menu_action("quit", true, false), WindowAction::Exit));
    assert!(matches!(router_menu_action("other", true, false), WindowAction::Nothing));
    assert!(router_shows_window_at_start(&vec!["woofer.exe".to_owned()]));
    assert!(!router_shows_window_at_start(&vec!["woofer.exe".to_owned(), "--autostart".to_owned()]));
    assert!(matches!(drop_menu_action("open"), WindowAction::Show));
    assert!(matches!(drop_menu_action("quit"), WindowAction::Exit));
    assert!(matches!(drop_menu_action("x"), WindowAction::Nothing));
    assert!(drop_starts_hidden(&vec!["drop".to_owned(), "--background".to_owned()]));
    assert!(!drop_starts_hidden(&vec!["drop".to_owned(), "--background=1".to_owned()]));
    assert_eq!(default_device_name(Some("DESKTOP-1".to_owned())), "DESKTOP-1");
    assert_eq!(default_device_name(Some("  ".to_owned())), "Vesper Drop 기기");
    assert_eq!(default_device_name(None), "Vesper Drop 기기");
}

#[test]
fn stream_cache_serves_until_swept() {
    let mut cache = StreamBufferCache::new();
    cache.insert("http://cdn/a.ts".to_owned(), vec![1, 2, 3], 1_000);
    cache.insert("http://cdn/b.ts".to_owned(), vec![4], 20_000);
    assert_eq!(cache.get("http://cdn/a.ts"), Some(vec![1, 2, 3]));
    cache.insert("http://cdn/a.ts".to_owned(), vec![9], 2_000);
    assert_eq!(cache.get("http://cdn/a.ts"), Some(vec![9]));
    assert_eq!(cache.segments.len(), 2);
    cache.sweep(46_999);
    assert_eq!(cache.get("http://cdn/a.ts"), Some(vec![9]));
    cache.sweep(47_000);
    assert_eq!(cache.get("http://cdn/a.ts"), None);
    assert_eq!(cache.get("http://cdn/b.ts"), Some(vec![4]));
    cache.sweep(65_000);
    assert!(cache.segments.is_empty());
}
