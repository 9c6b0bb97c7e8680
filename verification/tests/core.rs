use finall::auth::cookie::{build, clear, read_token, COOKIE_NAME};
use finall::auth::password::{hash_password, verify_password};
use finall::auth::token::{generate, hash_token, hex_encode, TOKEN_BYTES};
use finall::balances::{account_total, BalanceError};
use finall::date::{civil_days, months_before, Date};
use finall::assets::rates::{derive_rate, RateObservation};
use finall::decimal::Decimal;
use finall::error::AuthError;
use finall::seed::{days_before, dec, SeedError, DEMO_EMAIL};
use finall::transfers::{
    candidate_label, choose_legs, options_to_dto, CandidateRow, LegRow, LinkOptions, TransferError,
};

fn d(s: &str) -> Decimal {
    Decimal::parse(s).expect("test decimal")
}

fn day(y: i32, m: u32, dd: u32) -> Date {
    Date::from_ymd(y, m, dd).expect("test date")
}

#[test]
fn a_token_hash_is_the_hex_sha256_of_its_text() {
    assert_eq!(
        hash_token("abc"),
        "ba7816bf8f01cfea414140de5dae2223b00361a396177a9cb410ff61f20015ad"
    );
    assert_eq!(hex_encode(&[0x00, 0x0f, 0xab, 0xff]), "000fabff");
}

#[test]
fn a_generated_token_is_hex_and_stores_only_its_hash() {
    let token = generate().expect("randomness is available");
    assert_eq!(token.raw.len(), 2 * TOKEN_BYTES);
    assert!(token.raw.chars().all(|c| c.is_ascii_hexdigit() && !c.is_ascii_uppercase()));
    assert_eq!(token.hash, hash_token(&token.raw));
    assert_ne!(token.raw, generate().unwrap().raw);
}

#[test]
fn a_password_verifies_against_its_own_hash_only() {
    let hash = hash_password("correct horse").expect("hashes");
    assert!(hash.starts_with("$argon2"));
    assert_eq!(verify_password("correct horse", &hash), Ok(true));
    assert_eq!(verify_password("wrong horse", &hash), Ok(false));
    assert_eq!(verify_password("correct horse", "not a phc string"), Err(AuthError::Internal));
}

#[test]
fn the_session_cookie_is_built_cleared_and_read_back() {
    let set = build("tok123", true).expect("valid header");
    assert_eq!(
        set,
        "finall_session=tok123; Max-Age=2592000; Path=/; HttpOnly; SameSite=Lax; Secure"
    );
    let plain = build("tok123", false).expect("valid header");
    assert!(!plain.contains("Secure"));
    assert_eq!(
        clear(false),
        "finall_session=; Max-Age=0; Path=/; HttpOnly; SameSite=Lax"
    );
    assert_eq!(build("bad\ntoken", false), Err(AuthError::Internal));
    assert_eq!(COOKIE_NAME, "finall_session");
    assert_eq!(read_token("theme=dark; finall_session= abc ; x=1"), Some("abc".to_owned()));
    assert_eq!(read_token("finall_session=first; finall_session=second"), Some("first".to_owned()));
    assert_eq!(read_token("finall_sessionx=1"), None);
    assert_eq!(read_token(""), None);
}

#[test]
fn dates_step_and_print() {
    let leap = day(2024, 2, 28);
    assert_eq!(leap.succ(), Some(day(2024, 2, 29)));
    assert_eq!(day(2024, 3, 1).pred(), Some(day(2024, 2, 29)));
    assert_eq!(day(2023, 12, 31).succ(), Some(day(2024, 1, 1)));
    assert_eq!(day(2024, 1, 1).back(366), Some(day(2022, 12, 31)));
    assert_eq!(day(2024, 1, 1).iso_weekday(), 1);
    assert_eq!(day(2024, 1, 7).iso_weekday(), 7);
    assert_eq!(day(2026, 9, 14).first_of_month(), day(2026, 9, 1));
    assert_eq!(civil_days(1970, 1, 1), 0);
    assert_eq!(civil_days(2000, 3, 1), 11017);
    assert_eq!(months_before(2026, 1, 1), (2025, 12));
    assert_eq!(months_before(2026, 3, 14), (2025, 1));
    assert_eq!(day(5, 3, 9).iso_text(), "0005-03-09");
    assert_eq!(Date::parse_iso("2024-02-29"), Some(day(2024, 2, 29)));
    assert_eq!(Date::parse_iso("2023-02-29"), None);
    assert!(Date::from_ymd(2023, 2, 29).is_none());
    assert!(day(2024, 1, 1).is_before(&day(2024, 1, 2)));
}

#[test]
fn an_iso_date_round_trips_through_its_text() {
    for date in [day(2024, 2, 29), day(1, 1, 1), day(9999, 12, 31), day(1970, 1, 1)] {
        assert_eq!(Date::parse_iso(&date.iso_text()), Some(date));
    }
}

#[test]
fn decimals_add_compare_and_divide() {
    assert_eq!(d("1.10").checked_add(&d("2.9")), Some(d("4")));
    assert_eq!(d("1.5").checked_neg(), Some(d("-1.5")));
    assert!(d("0.00").is_zero());
    assert_eq!(d("1.50").to_text(), "1.50");
    assert_eq!(d("-0.5").to_text(), "-0.5");
    assert_eq!(Decimal::parse("1,5"), None);
    let obs = |rate: &str| Some(RateObservation { rate: d(rate), observed_at: 0 });
    assert_eq!(derive_rate(None, obs("8"), None, None).map(|r| r.rate), Some(d("0.125")));
    assert_eq!(derive_rate(None, None, obs("4"), obs("1")).map(|r| r.rate), Some(d("0.25")));
    assert_eq!(Decimal::zero(), d("0"));
}

#[test]
fn seed_helpers() {
    assert_eq!(days_before(day(2024, 3, 1), 1), day(2024, 2, 29));
    assert_eq!(days_before(day(2024, 3, 1), 0), day(2024, 3, 1));
    assert_eq!(dec("12.34"), Ok(d("12.34")));
    assert_eq!(dec("x"), Err(SeedError::Internal));
    assert_eq!(DEMO_EMAIL, "demo@example.test");
}

fn leg(id: u128, account: u128, amount: &str, linked: bool) -> LegRow {
    LegRow { id, account_id: account, amount: d(amount), already_linked: linked }
}

#[test]
fn a_link_takes_the_negative_leg_as_source_whatever_the_order() {
    let rows = vec![leg(1, 10, "50", false), leg(2, 20, "-50", false)];
    assert_eq!(choose_legs(1, 2, &rows), Ok((2, 1)));
    assert_eq!(choose_legs(2, 1, &rows), Ok((2, 1)));
}

#[test]
fn a_link_is_refused_for_each_reason_in_turn() {
    let ok = vec![leg(1, 10, "50", false), leg(2, 20, "-50", false)];
    assert_eq!(choose_legs(1, 1, &ok), Err(TransferError::SameTransaction));
    assert_eq!(choose_legs(1, 2, &vec![ok[0].clone()]), Err(TransferError::TransactionNotFound));
    let linked = vec![leg(1, 10, "50", true), leg(2, 20, "-50", false)];
    assert_eq!(choose_legs(1, 2, &linked), Err(TransferError::AlreadyLinked));
    let same_account = vec![leg(1, 10, "50", false), leg(2, 10, "-50", false)];
    assert_eq!(choose_legs(1, 2, &same_account), Err(TransferError::SameAccount));
    let same_sign = vec![leg(1, 10, "50", false), leg(2, 20, "5", false)];
    assert_eq!(choose_legs(1, 2, &same_sign), Err(TransferError::NotOpposite));
}

#[test]
fn a_candidate_label_shows_date_account_signed_amount_and_code() {
    assert_eq!(
        candidate_label(day(2026, 1, 5), "Savings", &d("12.50"), "EUR"),
        "2026-01-05 \u{b7} Savings \u{b7} +12.50 EUR"
    );
    assert_eq!(
        candidate_label(day(2026, 1, 5), "Cash", &d("-3"), "USD"),
        "2026-01-05 \u{b7} Cash \u{b7} -3 USD"
    );
    let options = LinkOptions {
        current_pair: Some(CandidateRow { transaction_id: 1, label: "a".to_owned() }),
        candidates: vec![CandidateRow { transaction_id: 255, label: "b".to_owned() }],
    };
    let dto = options_to_dto(options);
    assert_eq!(dto.current_pair.unwrap().transaction_id, "00000000-0000-0000-0000-000000000001");
    assert_eq!(dto.candidates[0].transaction_id, "00000000-0000-0000-0000-0000000000ff");
    assert_eq!(dto.candidates[0].label, "b");
}

#[test]
fn an_account_total_is_unavailable_while_a_conversion_is_pending() {
    assert_eq!(
        account_total(true, Some(d("1")), "EUR".to_owned()).map(|t| t.amount),
        Err(BalanceError::RateUnavailable)
    );
    let total = account_total(false, None, "EUR".to_owned()).expect("available");
    assert_eq!(total.amount, d("0"));
    assert_eq!(total.alphabetic_code, "EUR");
    assert_eq!(account_total(false, Some(d("7.5")), "USD".to_owned()).unwrap().amount, d("7.5"));
}

#[test]
fn decimals_of_any_size_add_negate_and_round_trip() {
    let big = d("170141183460469231731687303715884105727"); // i128::MAX
    let sum = big.checked_add(&big).expect("sums");
    assert_eq!(sum.to_text(), "340282366920938463463374607431768211454");
    let neg = sum.checked_neg().expect("negates");
    assert_eq!(neg.to_text(), "-340282366920938463463374607431768211454");
    assert!(neg.is_negative() && !neg.is_zero());
    let (negative, limbs, scale) = neg.to_limbs();
    let back = Decimal::from_limbs(negative, limbs, scale);
    assert_eq!(back, neg);
    assert_eq!(Decimal::from_limbs(true, vec![0, 0], 3), Decimal::zero());
    assert!(!Decimal::from_limbs(true, vec![0, 0], 3).is_negative());
    assert_eq!(d("1.50"), d("1.5"));
    assert_eq!(d("12345678901234567890123456789012345678901234567890").digits(), 50);
}
