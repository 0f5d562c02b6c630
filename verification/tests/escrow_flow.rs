use bill_of_zero::escrow::{Config, EscrowContract, EscrowError};
use bill_of_zero::journal::pack_journal;

fn config() -> Config<&'static str> {
    Config {
        lc_id: 1001,
        terms_digest: [0xaa; 32],
        image_id: [0x11; 32],
        router: "ROUTER",
        token: "USDC",
        seller: "SELLER",
    }
}

fn journal(lc_id: u64, amount: u64, td: [u8; 32]) -> [u8; 80] {
    pack_journal(lc_id, amount, &td, &[0xbb; 32])
}

#[test]
fn init_only_once() {
    let mut e = EscrowContract::new();
    assert!(!e.is_released());
    assert_eq!(e.config().unwrap_err(), EscrowError::NotInitialized);
    assert_eq!(e.init(config()), Ok(()));
    assert_eq!(e.config().unwrap().lc_id, 1001);
    let mut other = config();
    other.lc_id = 7;
    assert_eq!(e.init(other), Err(EscrowError::AlreadyInitialized));
    assert_eq!(e.config().unwrap().lc_id, 1001);
}

#[test]
fn release_requires_init() {
    let mut e: EscrowContract<&str> = EscrowContract::new();
    assert_eq!(e.release_gate().unwrap_err(), EscrowError::NotInitialized);
    assert_eq!(e.settle(&journal(1001, 5, [0xaa; 32])).unwrap_err(), EscrowError::NotInitialized);
    assert!(!e.is_released());
}

#[test]
fn valid_journal_pays_seller_once() {
    let mut e = EscrowContract::new();
    e.init(config()).unwrap();
    assert!(e.release_gate().is_ok());
    let p = e.settle(&journal(1001, 95_000, [0xaa; 32])).unwrap();
    assert_eq!(p.amount, 95_000);
    assert_eq!(p.to, "SELLER");
    assert_eq!(p.token, "USDC");
    assert!(e.is_released());
    assert_eq!(e.release_gate().unwrap_err(), EscrowError::AlreadyReleased);
    assert_eq!(
        e.settle(&journal(1001, 95_000, [0xaa; 32])).unwrap_err(),
        EscrowError::AlreadyReleased
    );
}

#[test]
fn journal_for_other_lc_is_refused() {
    let mut e = EscrowContract::new();
    e.init(config()).unwrap();
    assert_eq!(
        e.settle(&journal(1002, 95_000, [0xaa; 32])).unwrap_err(),
        EscrowError::LcIdMismatch
    );
    assert!(!e.is_released());
}

#[test]
fn journal_for_other_terms_is_refused() {
    let mut e = EscrowContract::new();
    e.init(config()).unwrap();
    let mut td = [0xaa; 32];
    td[31] = 0;
    assert_eq!(
        e.settle(&journal(1001, 95_000, td)).unwrap_err(),
        EscrowError::TermsDigestMismatch
    );
    assert!(!e.is_released());
    // the genuine journal still settles afterwards
    assert_eq!(e.settle(&journal(1001, 1, [0xaa; 32])).unwrap().amount, 1);
}
