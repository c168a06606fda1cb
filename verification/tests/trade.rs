use montrade::address::parse_address;
use montrade::amount::Uint256;
use montrade::config::{from_values, ConfigError};
use montrade::engine::{Phase, SellDecision, TradeEngine};

const TOKEN: &str = "0x1111111111111111111111111111111111111111";
const RECIPIENT: &str = "0x2222222222222222222222222222222222222222";
const SIGNER: &str = "0x3333333333333333333333333333333333333333";

fn full_config(
    amount: Option<&str>,
    recipient: Option<&str>,
    slippage: Option<&str>,
) -> Result<montrade::config::AppConfig, ConfigError> {
    from_values(
        Some("http://localhost:8545".to_string()),
        Some("0xsecret".to_string()),
        Some(TOKEN),
        amount,
        recipient,
        slippage,
        None,
        None,
    )
}

#[test]
fn config_missing_required_values() {
    let r = from_values(None, None, None, None, None, None, None, None);
    assert_eq!(r.err(), Some(ConfigError::MissingRpcUrl));
    let r = from_values(Some("u".to_string()), None, None, None, None, None, None, None);
    assert_eq!(r.err(), Some(ConfigError::MissingPrivateKey));
    let r = from_values(
        Some("u".to_string()),
        Some("k".to_string()),
        None,
        None,
        None,
        None,
        None,
        None,
    );
    assert_eq!(r.err(), Some(ConfigError::MissingTokenAddress));
}

#[test]
fn config_invalid_fields() {
    assert_eq!(full_config(Some("zero"), None, None).err(), Some(ConfigError::InvalidAmount));
    let r = from_values(
        Some("u".to_string()),
        Some("k".to_string()),
        Some("0xnot-an-address"),
        None,
        None,
        None,
        None,
        None,
    );
    assert_eq!(r.err(), Some(ConfigError::InvalidTokenAddress));
    assert_eq!(
        full_config(None, Some("12345"), None).err(),
        Some(ConfigError::InvalidRecipientAddress)
    );
    assert_eq!(
        full_config(None, None, Some("one percent")).err(),
        Some(ConfigError::InvalidSlippage)
    );
}

#[test]
fn config_defaults() {
    let cfg = full_config(None, None, None).unwrap();
    assert_eq!(cfg.amount_in, Uint256::from_u64(100_000_000_000_000_000));
    assert_eq!(cfg.slippage_bps, 100);
    assert!(cfg.recipient.is_none());
    assert_eq!(cfg.deadline_secs_from_now, 600);
    assert_eq!(cfg.settlement_wait_secs, 30);
}

#[test]
fn recipient_defaults_to_signer() {
    let cfg = full_config(None, None, None).unwrap();
    let signer = parse_address(SIGNER).unwrap();
    let engine = TradeEngine::new(&cfg, &signer, 1_000_000);
    assert_eq!(engine.recipient.bytes, signer.bytes);
    assert_eq!(engine.deadline, 1_000_600);
}

#[test]
fn recipient_kept_when_configured() {
    let cfg = full_config(None, Some(RECIPIENT), None).unwrap();
    let signer = parse_address(SIGNER).unwrap();
    let engine = TradeEngine::new(&cfg, &signer, 1_000_000);
    assert_eq!(engine.recipient.bytes, parse_address(RECIPIENT).unwrap().bytes);
}

#[test]
fn zero_balance_aborts_without_sell() {
    let cfg = full_config(None, None, None).unwrap();
    let signer = parse_address(SIGNER).unwrap();
    let mut engine = TradeEngine::new(&cfg, &signer, 0);
    let order = engine.on_quote(&Uint256::from_u64(1_000_000)).unwrap();
    assert_eq!(order.amount_out_min, Uint256::from_u64(990_000));
    engine.on_buy_submitted();
    let decision = engine.on_balance(&Uint256::from_u64(0));
    assert!(matches!(decision, SellDecision::AbortZeroBalance));
    assert_eq!(engine.phase, Phase::Aborted);
}

#[test]
fn end_to_end_buy_then_sell() {
    // AMOUNT_IN_MON=0.1, SLIPPAGE_BPS=100, a quote of 2.0 tokens.
    let cfg = full_config(Some("0.1"), None, Some("100")).unwrap();
    assert_eq!(cfg.amount_in, Uint256::from_u64(100_000_000_000_000_000));
    let signer = parse_address(SIGNER).unwrap();
    let mut engine = TradeEngine::new(&cfg, &signer, 1_700_000_000);

    let quoted = Uint256::from_u128(2_000_000_000_000_000_000);
    let order = engine.on_quote(&quoted).unwrap();
    assert_eq!(order.amount_in, Uint256::from_u64(100_000_000_000_000_000));
    assert_eq!(order.amount_out_min, Uint256::from_u128(1_980_000_000_000_000_000));
    assert_eq!(order.recipient.bytes, signer.bytes);
    assert_eq!(order.deadline, 1_700_000_600);

    let wait = engine.on_buy_submitted();
    assert_eq!(wait, 30);

    let balance = Uint256::from_u128(1_980_000_000_000_000_000);
    match engine.on_balance(&balance) {
        SellDecision::Sell(sell) => {
            assert_eq!(sell.amount_in, Uint256::from_u128(1_980_000_000_000_000_000));
            assert!(sell.amount_out_min.is_zero());
            assert_eq!(sell.recipient.bytes, signer.bytes);
            assert_eq!(sell.deadline, 1_700_000_600);
        },
        SellDecision::AbortZeroBalance => panic!("expected a sell decision"),
    }
    engine.on_sell_submitted();
    assert_eq!(engine.phase, Phase::Done);
}

#[test]
fn quote_overflow_aborts() {
    let cfg = full_config(None, None, Some("100")).unwrap();
    let signer = parse_address(SIGNER).unwrap();
    let mut engine = TradeEngine::new(&cfg, &signer, 0);
    let huge = Uint256::from_limbs(u64::MAX, u64::MAX, u64::MAX, u64::MAX);
    assert!(engine.on_quote(&huge).is_none());
    assert_eq!(engine.phase, Phase::Aborted);
}
