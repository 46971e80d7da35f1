use microtip::tip::check_content;
use microtip::{
    Address, Balance, BalanceLedger, CallerAuth, ProfileAggregator, Tip, TipError, TipLog, UserProfile,
    MAX_MESSAGE_LEN,
};

fn address(key: &str) -> Address {
    Address::new(key.to_string())
}

fn valid_tip(from: &str, to: &str, amount: i128, timestamp: u64, token: &str) -> Tip {
    Tip::new(address(from), address(to), amount, "note".to_string(), timestamp, address(token))
        .expect("a valid tip")
}

#[test]
fn addresses_are_equal_when_their_keys_are() {
    let alice = address("alice");
    assert!(alice.same(&address("alice")));
    assert!(!alice.same(&address("alicE")));
    assert!(!alice.same(&address("")));
    assert_eq!(alice, address("alice"));
    assert_ne!(alice, address("bob"));
    assert_eq!(alice.clone(), alice);
    assert_eq!(alice.key(), "alice");
}

#[test]
fn authorization_holds_for_the_signer_only() {
    let auth = CallerAuth::new(address("alice"));
    assert!(auth.authorizes(&address("alice")));
    assert!(!auth.authorizes(&address("bob")));
    assert!(!auth.authorizes(&address("alice ")));
}

#[test]
fn message_limit_is_256() {
    assert_eq!(MAX_MESSAGE_LEN, 256);
}

#[test]
fn tip_keeps_its_content() {
    let tip = Tip::new(address("alice"), address("bob"), 100, "thanks".to_string(), 1_700_000_000, address("xlm"))
        .expect("a valid tip");
    assert_eq!(tip.sender(), &address("alice"));
    assert_eq!(tip.recipient(), &address("bob"));
    assert_eq!(tip.amount(), 100);
    assert_eq!(tip.message(), "thanks");
    assert_eq!(tip.timestamp(), 1_700_000_000);
    assert_eq!(tip.token(), &address("xlm"));
    assert_eq!(tip.clone(), tip);
    assert_ne!(tip, valid_tip("alice", "bob", 100, 1_700_000_000, "xlm"));
}

#[test]
fn tip_content_is_checked_in_order() {
    let long = "x".repeat(257);
    let fault = |from: &str, to: &str, amount: i128, message: &str| {
        Tip::new(address(from), address(to), amount, message.to_string(), 0, address("t")).err()
    };
    assert_eq!(fault("a", "a", 0, &long), Some(TipError::InvalidAmountError));
    assert_eq!(fault("a", "b", i128::MIN, ""), Some(TipError::InvalidAmountError));
    assert_eq!(fault("a", "a", 1, &long), Some(TipError::SelfTipError));
    assert_eq!(fault("a", "b", 1, &long), Some(TipError::MessageTooLongError));
    assert_eq!(fault("a", "b", 1, &"x".repeat(256)), None);
    assert_eq!(fault("a", "b", i128::MAX, ""), None);

    assert_eq!(check_content(&address("a"), &address("b"), 1, &"ok".to_string()), Ok(()));
    assert_eq!(
        check_content(&address("a"), &address("b"), -1, &"ok".to_string()),
        Err(TipError::InvalidAmountError)
    );
    assert_eq!(check_content(&address("a"), &address("a"), 1, &"ok".to_string()), Err(TipError::SelfTipError));
    assert_eq!(check_content(&address("a"), &address("b"), 1, &long), Err(TipError::MessageTooLongError));
}

#[test]
fn new_balance_is_zero() {
    let balance = Balance::new(address("xlm"));
    assert_eq!(balance.total_received(), 0);
    assert_eq!(balance.available(), 0);
    assert_eq!(balance.withdrawn(), 0);
    assert_eq!(balance.token(), &address("xlm"));
}

#[test]
fn balance_is_made_from_balanced_parts_only() {
    let balance = Balance::from_parts(100, 60, 40, address("xlm")).expect("balanced parts");
    assert_eq!(balance.total_received(), 100);
    assert_eq!(balance.available(), 60);
    assert_eq!(balance.withdrawn(), 40);
    assert_eq!(balance.token(), &address("xlm"));
    assert!(Balance::from_parts(0, 0, 0, address("xlm")).is_some());
    assert!(Balance::from_parts(i128::MAX, i128::MAX, 0, address("xlm")).is_some());
    assert!(Balance::from_parts(i128::MAX, 1, i128::MAX - 1, address("xlm")).is_some());

    assert!(Balance::from_parts(100, 60, 41, address("xlm")).is_none());
    assert!(Balance::from_parts(100, 61, 40, address("xlm")).is_none());
    assert!(Balance::from_parts(0, -1, 1, address("xlm")).is_none());
    assert!(Balance::from_parts(0, 1, -1, address("xlm")).is_none());
    assert!(Balance::from_parts(-2, -1, -1, address("xlm")).is_none());
    assert!(Balance::from_parts(i128::MIN, 1, i128::MAX, address("xlm")).is_none());
}

#[test]
fn deposit_adds_to_received_and_available() {
    let mut balance = Balance::from_parts(100, 60, 40, address("xlm")).expect("balanced parts");
    balance.deposit(25);
    assert_eq!(balance.total_received(), 125);
    assert_eq!(balance.available(), 85);
    assert_eq!(balance.withdrawn(), 40);
    assert_eq!(balance.token(), &address("xlm"));
}

#[test]
fn withdrawal_moves_available_to_withdrawn() {
    let mut balance = Balance::from_parts(100, 60, 40, address("xlm")).expect("balanced parts");
    assert_eq!(balance.withdraw(61), Err(TipError::InsufficientBalanceError));
    assert_eq!(balance, Balance::from_parts(100, 60, 40, address("xlm")).expect("balanced parts"));
    assert_eq!(balance.withdraw(60), Ok(()));
    assert_eq!(balance.total_received(), 100);
    assert_eq!(balance.available(), 0);
    assert_eq!(balance.withdrawn(), 100);
    assert_eq!(balance.withdraw(1), Err(TipError::InsufficientBalanceError));
}

#[test]
fn balances_are_equal_when_all_parts_are() {
    let balance = Balance::from_parts(100, 60, 40, address("xlm")).expect("balanced parts");
    assert_eq!(balance.clone(), balance);
    assert_ne!(balance, Balance::from_parts(100, 50, 50, address("xlm")).expect("balanced parts"));
    assert_ne!(balance, Balance::from_parts(100, 60, 40, address("usdc")).expect("balanced parts"));
}

#[test]
fn new_profile_is_empty_and_first_seen_now() {
    let profile = UserProfile::new(1234);
    assert_eq!(profile.tips_sent(), 0);
    assert_eq!(profile.tips_received(), 0);
    assert_eq!(profile.total_sent(), 0);
    assert_eq!(profile.total_received(), 0);
    assert_eq!(profile.first_interaction(), 1234);
}

#[test]
fn profile_is_made_from_valid_parts_only() {
    let profile = UserProfile::from_parts(3, 4, 50, 60, 7).expect("valid parts");
    assert_eq!(profile.tips_sent(), 3);
    assert_eq!(profile.tips_received(), 4);
    assert_eq!(profile.total_sent(), 50);
    assert_eq!(profile.total_received(), 60);
    assert_eq!(profile.first_interaction(), 7);
    assert!(UserProfile::from_parts(0, 0, 0, 0, 0).is_some());
    assert!(UserProfile::from_parts(0, 0, -1, 0, 0).is_none());
    assert!(UserProfile::from_parts(0, 0, 0, -1, 0).is_none());
}

#[test]
fn profile_counts_tips_sent_and_received() {
    let mut profile = UserProfile::new(10);
    profile.record_sent(5);
    profile.record_sent(7);
    profile.record_received(11);
    assert_eq!(profile, UserProfile::from_parts(2, 1, 12, 11, 10).expect("valid parts"));
}

#[test]
fn ledger_keeps_one_balance_per_participant_and_token() {
    let mut ledger = BalanceLedger::new();
    let (alice, bob, xlm, usdc) = (address("alice"), address("bob"), address("xlm"), address("usdc"));
    assert!(ledger.get(&bob, &xlm).is_none());
    assert_eq!(ledger.get_balance(&bob, &xlm), Balance::new(address("xlm")));
    assert!(ledger.get(&bob, &xlm).is_none());

    ledger.deposit(&bob, &xlm, 10);
    ledger.deposit(&bob, &usdc, 20);
    ledger.deposit(&alice, &xlm, 30);
    ledger.deposit(&bob, &xlm, 5);

    assert_eq!(ledger.get(&bob, &xlm), Some(&Balance::from_parts(15, 15, 0, address("xlm")).expect("balanced")));
    assert_eq!(ledger.get_balance(&bob, &usdc), Balance::from_parts(20, 20, 0, address("usdc")).expect("balanced"));
    assert_eq!(ledger.get_balance(&alice, &xlm), Balance::from_parts(30, 30, 0, address("xlm")).expect("balanced"));
    assert!(ledger.get(&alice, &usdc).is_none());

    assert_eq!(ledger.withdraw(&alice, &usdc, 1), Err(TipError::NoBalanceError));
    assert_eq!(ledger.withdraw(&bob, &xlm, 16), Err(TipError::InsufficientBalanceError));
    assert_eq!(ledger.withdraw(&bob, &xlm, 6), Ok(()));
    assert_eq!(ledger.get_balance(&bob, &xlm), Balance::from_parts(15, 9, 6, address("xlm")).expect("balanced"));
    assert_eq!(ledger.get_balance(&bob, &usdc), Balance::from_parts(20, 20, 0, address("usdc")).expect("balanced"));
    assert_eq!(ledger.get_balance(&alice, &xlm), Balance::from_parts(30, 30, 0, address("xlm")).expect("balanced"));
}

#[test]
fn ledger_put_replaces_the_record() {
    let mut ledger = BalanceLedger::new();
    let (bob, xlm) = (address("bob"), address("xlm"));
    ledger.put(bob.clone(), Balance::from_parts(10, 4, 6, address("xlm")).expect("balanced"));
    ledger.put(bob.clone(), Balance::from_parts(7, 7, 0, address("usdc")).expect("balanced"));
    ledger.put(bob.clone(), Balance::from_parts(20, 5, 15, address("xlm")).expect("balanced"));
    assert_eq!(ledger.get_balance(&bob, &xlm), Balance::from_parts(20, 5, 15, address("xlm")).expect("balanced"));
    assert_eq!(
        ledger.get_balance(&bob, &address("usdc")),
        Balance::from_parts(7, 7, 0, address("usdc")).expect("balanced")
    );
}

#[test]
fn aggregator_keeps_one_profile_per_participant() {
    let mut profiles = ProfileAggregator::new();
    let (alice, bob) = (address("alice"), address("bob"));
    assert!(profiles.get(&alice).is_none());
    assert_eq!(profiles.get_user_profile(&alice, 9), UserProfile::new(9));
    assert!(profiles.get(&alice).is_none());

    profiles.record_sent(&alice, 10, 100);
    profiles.record_received(&bob, 10, 100);
    profiles.record_received(&alice, 3, 200);
    profiles.record_sent(&alice, 4, 300);

    assert_eq!(profiles.get(&alice), Some(UserProfile::from_parts(2, 1, 14, 3, 100).expect("valid")));
    assert_eq!(profiles.get_user_profile(&alice, 999), UserProfile::from_parts(2, 1, 14, 3, 100).expect("valid"));
    assert_eq!(profiles.get_user_profile(&bob, 999), UserProfile::from_parts(0, 1, 0, 10, 100).expect("valid"));
    assert_eq!(profiles.get_user_profile(&address("carol"), 999), UserProfile::new(999));
}

#[test]
fn aggregator_put_replaces_the_record() {
    let mut profiles = ProfileAggregator::new();
    let alice = address("alice");
    profiles.put(alice.clone(), UserProfile::from_parts(1, 2, 3, 4, 5).expect("valid"));
    profiles.put(address("bob"), UserProfile::from_parts(9, 9, 9, 9, 9).expect("valid"));
    profiles.put(alice.clone(), UserProfile::from_parts(6, 7, 8, 9, 10).expect("valid"));
    assert_eq!(profiles.get(&alice), Some(UserProfile::from_parts(6, 7, 8, 9, 10).expect("valid")));
    assert_eq!(profiles.get(&address("bob")), Some(UserProfile::from_parts(9, 9, 9, 9, 9).expect("valid")));
}

#[test]
fn log_appends_at_the_end() {
    let mut log = TipLog::new();
    assert_eq!(log.count(), 0);
    assert!(log.tips().is_empty());
    log.append(valid_tip("a", "b", 1, 10, "t"));
    log.append(valid_tip("b", "a", 2, 20, "t"));
    log.append(valid_tip("c", "b", 3, 30, "u"));
    assert_eq!(log.count(), 3);
    assert_eq!(log.tips().iter().map(|tip| tip.amount()).collect::<Vec<i128>>(), vec![1, 2, 3]);
    assert_eq!(log.tips()[2], valid_tip("c", "b", 3, 30, "u"));
}

#[test]
fn log_finds_the_tips_of_a_recipient() {
    let mut log = TipLog::new();
    assert!(log.tips_for(&address("b")).is_empty());
    log.append(valid_tip("a", "b", 1, 10, "t"));
    log.append(valid_tip("b", "a", 2, 20, "t"));
    log.append(valid_tip("c", "b", 3, 30, "u"));
    assert_eq!(log.tips_for(&address("b")), vec![valid_tip("a", "b", 1, 10, "t"), valid_tip("c", "b", 3, 30, "u")]);
    assert_eq!(log.tips_for(&address("a")), vec![valid_tip("b", "a", 2, 20, "t")]);
    assert!(log.tips_for(&address("c")).is_empty());
    assert_eq!(log.count(), 3);
}
