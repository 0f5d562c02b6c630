use bill_of_zero::backend::{
    audit_failed, no_seal, proving_failed, call_output_of, disclosure_from_report, first_error_line, first_word_of, guest_panic_line,
    parse_kv, proof_from_report, released_from_output, tail, tail_cuts_cleanly_exec, unquote,
};

const PROOF_REPORT: &str = "\n=== Bill of Zero — proof generated ===\nlc_id          : 1001\napproved_root  : ab12\nterms_digest   : cafe\ndisclosure_cmt : beef\njournal        : e903\nseal           : 73c457ba0011\n";

#[test]
fn parse_kv_reads_key_value_lines() {
    let m = parse_kv("a : 1\nno colon here\nkey with spaces:  value : more \n:x\ny:\na: 2\n");
    assert_eq!(m.get("a"), Some("2".to_string()));
    assert_eq!(m.get("key with spaces"), Some("value : more".to_string()));
    assert_eq!(m.get("y"), None);
    assert_eq!(m.get(""), None);
    assert_eq!(m.get("no colon here"), None);
    assert_eq!(m.get_or_empty("missing"), "");
}

#[test]
fn proof_report_is_read() {
    let p = proof_from_report(PROOF_REPORT).unwrap();
    assert_eq!(p.lc_id, "1001");
    assert_eq!(p.terms_digest, "cafe");
    assert_eq!(p.disclosure_cmt, "beef");
    assert_eq!(p.journal, "e903");
    assert_eq!(p.seal, "73c457ba0011");
    assert!(proof_from_report("lc_id : 1\nseal :   \n").is_none());
}

#[test]
fn disclosure_report_is_read() {
    let d = disclosure_from_report(
        "invoice amount : 95000\nbuyer escrow balance : 150000\nshipment date (unix) : 1735603200\ninvoice buyer_id : aa\ninvoice seller_id : bb\ndisclosure_commitment : 0f0f (must equal the on-chain value)\n",
    );
    assert_eq!(d.amount, "95000");
    assert_eq!(d.balance, "150000");
    assert_eq!(d.ship_date, "1735603200");
    assert_eq!(d.buyer_id, "aa");
    assert_eq!(d.seller_id, "bb");
    assert_eq!(d.commitment, "0f0f");
    assert_eq!(disclosure_from_report("").commitment, "");
}

#[test]
fn first_word_matches_split_whitespace() {
    for s in ["  ab cd", "", "   ", "x", "a\tb"] {
        assert_eq!(first_word_of(s), s.split_whitespace().next().unwrap_or(""));
    }
}

#[test]
fn tail_cuts_bytes() {
    assert_eq!(tail("  short  ", 10), "short");
    assert_eq!(tail("abcdefghij", 4), "\u{2026}ghij");
    assert_eq!(tail("abc", 3), "abc");
    // "é" takes two bytes: a cut in its middle is not clean
    assert!(!tail_cuts_cleanly_exec("aé", 1));
    assert!(tail_cuts_cleanly_exec("aé", 2));
    assert_eq!(tail("aé", 2), "\u{2026}é");
}

#[test]
fn first_error_line_prefers_error_lines() {
    let stderr = "  simulating\n  ERROR: host function failed  \nerror again\n";
    assert_eq!(first_error_line(stderr), "ERROR: host function failed");
    assert_eq!(first_error_line("nothing\nto see"), "nothing\nto see");
    assert_eq!(first_error_line("xxErRoRxx"), "xxErRoRxx");
}

#[test]
fn guest_panic_line_is_found() {
    let stderr = "building\n  Guest panicked: invoice amount exceeds LC credit limit \ndone";
    assert_eq!(
        guest_panic_line(stderr),
        Some("Guest panicked: invoice amount exceeds LC credit limit".to_string())
    );
    assert_eq!(guest_panic_line("guest panicked: lowercase"), None);
}

#[test]
fn printed_values() {
    assert_eq!(unquote("  \"123\"\n"), "123");
    assert_eq!(unquote("\"\"\"x\"\""), "x");
    assert!(released_from_output("\"true\"\n"));
    assert!(released_from_output("true"));
    assert!(!released_from_output("false"));
    assert!(!released_from_output("\"True\""));
    assert_eq!(call_output_of("  \n".to_string(), "  tx ok  "), "tx ok");
    assert_eq!(call_output_of("\"1\"\n".to_string(), "log"), "\"1\"\n");
}

#[test]
fn failure_reports() {
    assert_eq!(proving_failed("  docker missing \n"), "proving failed:\ndocker missing");
    assert_eq!(audit_failed("no file"), "audit failed:\nno file");
    let long = "x".repeat(900);
    let r = no_seal(&long);
    assert_eq!(r, format!("proof produced no seal:\n\u{2026}{}", "x".repeat(800)));
}
