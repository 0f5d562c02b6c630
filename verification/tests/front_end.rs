use bill_of_zero::backend::{Disclosure, Proof};
use bill_of_zero::frontend::{
    has_verifier_selector, short, trunc, trunc_n, Action, AppState, Checklist, Key, Msg, Profile,
    Status,
};

fn sample_proof() -> Proof {
    Proof {
        lc_id: "1001".into(),
        terms_digest: "aa".into(),
        disclosure_cmt: "bb".into(),
        journal: "e903".into(),
        seal: "73c457ba00112233445566".into(),
    }
}

fn idle() -> AppState {
    let mut s = AppState::new();
    let a = s.refresh_status();
    assert!(matches!(a, Some(Action::RefreshStatus)));
    s.on_message(Msg::Status(Ok(Status {
        released: false,
        escrow_bal: "0".into(),
        seller_bal: "0".into(),
    })));
    s
}

#[test]
fn initial_state() {
    let s = AppState::new();
    assert_eq!(s.tab, 0);
    assert_eq!(s.field_text(0), "95000");
    assert_eq!(s.field_text(1), "2024-12-31");
    assert_eq!(s.field_text(2), "150000");
    assert!(s.dev_mode);
    assert_eq!(s.log, vec!["Loaded LC terms + deployment. Press Tab to switch role.".to_string()]);
    assert!(s.busy.is_none());
    assert_eq!(s.spinner(), '\u{280b}');
}

#[test]
fn tabs_cycle() {
    let mut s = idle();
    s.on_key(Key::Tab);
    assert_eq!(s.tab, 1);
    s.on_key(Key::Tab);
    s.on_key(Key::Tab);
    assert_eq!(s.tab, 0);
    s.on_key(Key::BackTab);
    assert_eq!(s.tab, 2);
}

#[test]
fn quit_keys() {
    let mut s = idle();
    s.on_key(Key::Interrupt);
    assert!(s.should_quit);
    let mut s = idle();
    s.on_key(Key::Char('q'));
    assert!(s.should_quit);
    let mut s = idle();
    s.on_key(Key::Char('z'));
    assert!(!s.should_quit);
}

#[test]
fn only_one_worker_at_a_time() {
    let mut s = AppState::new();
    assert!(s.refresh_status().is_some());
    assert_eq!(s.busy.as_deref(), Some("status"));
    assert!(s.on_key(Key::Char('f')).is_none());
    assert_eq!(s.log.last().unwrap(), "\u{23f3} busy (status) \u{2014} wait for it to finish");
    s.on_message(Msg::Status(Err("rpc down".into())));
    assert!(s.busy.is_none());
    assert_eq!(s.log.last().unwrap(), "\u{2717} status: rpc down");
    assert!(matches!(s.on_key(Key::Char('f')), Some(Action::Fund(100_000))));
    assert_eq!(s.busy.as_deref(), Some("fund"));
}

#[test]
fn seller_edits_fields() {
    let mut s = idle();
    s.on_key(Key::Tab);
    s.on_key(Key::Backspace);
    assert_eq!(s.field_text(0), "9500");
    s.on_key(Key::Char('1'));
    s.on_key(Key::Char('-'));
    s.on_key(Key::Char('z'));
    assert_eq!(s.field_text(0), "95001");
    s.on_key(Key::Down);
    assert_eq!(s.field_idx, 1);
    s.on_key(Key::Char('-'));
    assert_eq!(s.field_text(1), "2024-12-31-");
    s.on_key(Key::Up);
    s.on_key(Key::Up);
    assert_eq!(s.field_idx, 2);
    s.on_key(Key::Char('d'));
    assert!(!s.dev_mode);
}

#[test]
fn prove_parses_documents() {
    let mut s = idle();
    s.on_key(Key::Tab);
    match s.on_key(Key::Char('p')) {
        Some(Action::Prove(i)) => {
            assert_eq!(i.amount_usdc, 95_000);
            assert_eq!(i.ship_date_unix, 1_735_603_200);
            assert_eq!(i.buyer_balance_usdc, 150_000);
        }
        other => panic!("unexpected {other:?}"),
    }
    assert_eq!(s.busy.as_deref(), Some("prove"));
}

#[test]
fn prove_reports_bad_input() {
    let mut s = idle();
    s.on_key(Key::Tab);
    s.on_key(Key::Down);
    for _ in 0..3 {
        s.on_key(Key::Backspace);
    }
    assert!(s.on_key(Key::Enter).is_none());
    assert_eq!(s.log.last().unwrap(), "\u{2717} date must be YYYY-MM-DD");
    let mut s = idle();
    s.on_key(Key::Tab);
    for _ in 0..5 {
        s.on_key(Key::Backspace);
    }
    assert!(s.on_key(Key::Enter).is_none());
    assert_eq!(s.log.last().unwrap(), "\u{2717} invoice amount must be a whole number");
}

#[test]
fn release_needs_a_proof() {
    let mut s = idle();
    s.on_key(Key::Tab);
    assert!(s.on_key(Key::Char('r')).is_none());
    assert_eq!(
        s.log.last().unwrap(),
        "\u{2717} no proof yet \u{2014} generate one on the Seller tab"
    );
    s.on_message(Msg::Proof(Ok(sample_proof())));
    assert_eq!(s.log.last().unwrap(), "\u{2713} proof (real) \u{2014} seal 73c457ba0011\u{2026}");
    match s.on_key(Key::Char('r')) {
        Some(Action::Release { seal, journal }) => {
            assert_eq!(seal, "73c457ba00112233445566");
            assert_eq!(journal, "e903");
        }
        other => panic!("unexpected {other:?}"),
    }
}

#[test]
fn finished_transaction_refreshes_status() {
    let mut s = idle();
    s.on_key(Key::Char('f'));
    let a = s.on_message(Msg::Tx { label: "fund".into(), res: Ok("ok".into()) });
    assert!(matches!(a, Some(Action::RefreshStatus)));
    assert_eq!(s.busy.as_deref(), Some("status"));
    assert_eq!(s.log.last().unwrap(), "\u{2713} fund submitted on-chain");
    s.on_message(Msg::Tx { label: "release".into(), res: Err("bad proof".into()) });
    assert_eq!(s.log.last().unwrap(), "\u{2717} release: bad proof");
}

#[test]
fn auditor_disclosure() {
    let mut s = idle();
    s.on_key(Key::BackTab);
    assert!(matches!(s.on_key(Key::Char('a')), Some(Action::Audit)));
    s.on_message(Msg::Audit(Ok(Disclosure {
        amount: "95000".into(),
        balance: "150000".into(),
        ship_date: "1".into(),
        buyer_id: "a".into(),
        seller_id: "b".into(),
        commitment: "c".into(),
    })));
    assert_eq!(s.log.last().unwrap(), "\u{2713} disclosure decrypted by auditor");
    assert_eq!(s.disclosure.as_ref().unwrap().amount, "95000");
    s.on_message(Msg::Audit(Err("no file".into())));
    assert_eq!(s.log.last().unwrap(), "\u{2717} audit: no file");
}

#[test]
fn log_keeps_last_eight() {
    let mut s = AppState::new();
    for i in 0..12 {
        s.push(format!("line {i}"));
    }
    assert_eq!(s.log.len(), 8);
    assert_eq!(s.log[0], "line 4");
    assert_eq!(s.log[7], "line 11");
}

#[test]
fn spinner_and_tick() {
    let mut s = AppState::new();
    s.tick();
    assert_eq!(s.spinner(), '\u{2819}');
    s.spin = usize::MAX;
    s.tick();
    assert_eq!(s.spin, 0);
}

#[test]
fn flow_and_checklist() {
    let mut s = idle();
    let f = s.flow_steps();
    assert!(!f.funded && !f.proved && !f.released && !f.refunded);
    s.status = Some(Status { released: false, escrow_bal: " 100000 ".into(), seller_bal: "0".into() });
    assert!(s.flow_steps().funded);
    s.status = Some(Status { released: true, escrow_bal: "0".into(), seller_bal: "95000".into() });
    let f = s.flow_steps();
    assert!(f.released && f.refunded && !f.funded);
    let c = s.seller_checklist(100_000, 1_735_689_600);
    assert_eq!(
        c,
        Checklist {
            amount_within_limit: Some(true),
            shipped_by_deadline: Some(true),
            balance_covers_limit: Some(true),
        }
    );
    let c = s.seller_checklist(90_000, 0);
    assert_eq!(c.amount_within_limit, Some(false));
    assert_eq!(c.shipped_by_deadline, Some(false));
    // the balance must cover the credit limit, not just the invoiced amount
    s.on_key(Key::Tab);
    for _ in 0..6 {
        s.on_key(Key::Backspace);
    }
    for c in "50000".chars() {
        s.on_key(Key::Char(c));
    }
    s.on_key(Key::Up);
    for _ in 0..6 {
        s.on_key(Key::Backspace);
    }
    for c in "60000".chars() {
        s.on_key(Key::Char(c));
    }
    assert_eq!(s.field_text(0), "50000");
    assert_eq!(s.field_text(2), "60000");
    let c = s.seller_checklist(100_000, 1_735_689_600);
    assert_eq!(c.amount_within_limit, Some(true));
    assert_eq!(c.balance_covers_limit, Some(false));
}

#[test]
fn help_overlay() {
    let mut s = idle();
    assert!(!s.show_help);
    assert!(s.on_key(Key::Char('?')).is_none());
    assert!(s.show_help);
    // any key closes the help and does nothing else
    assert!(s.on_key(Key::Char('f')).is_none());
    assert!(!s.show_help);
    assert!(s.busy.is_none());
    s.on_key(Key::Char('?'));
    s.on_key(Key::Esc);
    assert!(!s.show_help);
    assert!(!s.should_quit);
    s.on_key(Key::Char('?'));
    s.on_key(Key::Char('?'));
    assert!(!s.show_help);
}

#[test]
fn buyer_edits_fund_amount_and_refunds() {
    let mut s = idle();
    assert_eq!(s.fund_text(), "100000");
    s.on_key(Key::Backspace);
    s.on_key(Key::Backspace);
    s.on_key(Key::Char('5'));
    s.on_key(Key::Char('a'));
    assert_eq!(s.fund_text(), "10005");
    assert!(matches!(s.on_key(Key::Char('f')), Some(Action::Fund(10_005))));
    s.on_message(Msg::Tx { label: "fund".into(), res: Err("no key".into()) });
    for _ in 0..5 {
        s.on_key(Key::Backspace);
    }
    assert!(s.on_key(Key::Char('f')).is_none());
    assert_eq!(s.log.last().unwrap(), "\u{2717} fund amount must be a whole number");
    assert!(matches!(s.on_key(Key::Char('x')), Some(Action::Refund)));
    assert_eq!(s.busy.as_deref(), Some("refund"));
}

#[test]
fn auditor_profiles() {
    let mut s = idle();
    s.on_key(Key::BackTab);
    assert_eq!(s.profile, Profile::Full);
    s.on_key(Key::Right);
    assert_eq!(s.profile, Profile::Tax);
    assert_eq!(s.profile.name(), "tax");
    s.on_key(Key::Right);
    assert_eq!(s.profile, Profile::Regulator);
    s.on_key(Key::Left);
    s.on_key(Key::Left);
    assert_eq!(s.profile, Profile::Full);
    // arrows do nothing on the Buyer tab
    s.on_key(Key::Tab);
    s.on_key(Key::Right);
    assert_eq!(s.profile, Profile::Full);
}

#[test]
fn only_proving_reads_the_date() {
    let mut s = idle();
    assert!(!s.key_reads_date(Key::Char('p')));
    s.on_key(Key::Tab);
    assert!(s.key_reads_date(Key::Char('p')));
    assert!(s.key_reads_date(Key::Enter));
    assert!(!s.key_reads_date(Key::Char('r')));
    s.on_key(Key::Char('?'));
    assert!(!s.key_reads_date(Key::Enter));
}


#[test]
fn text_helpers() {
    assert_eq!(short("73c457ba00112233"), "73c457ba0011");
    assert_eq!(short("abc"), "abc");
    assert_eq!(trunc_n("abcdef", 3), "abc\u{2026}");
    assert_eq!(trunc_n("abc", 3), "abc");
    assert_eq!(trunc("0123456789012345678901234567"), "012345678901234567890123\u{2026}");
    assert!(has_verifier_selector("73c457ba0011"));
    assert!(!has_verifier_selector("73c457b"));
    assert!(!has_verifier_selector("0073c457ba"));
}
