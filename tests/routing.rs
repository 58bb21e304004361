use router::adapter::{Capabilities, Operation};
use router::routing::{route, ConnectorAccount, PaymentContext, Predicate, RoutingError, RoutingRule};

fn caps(partial_capture: bool) -> Capabilities {
    Capabilities {
        authorize: true,
        capture: true,
        refund: true,
        void: true,
        partial_capture,
        webhooks: true,
    }
}

fn account(connector_id: u64, priority: u32, weight: u32) -> ConnectorAccount {
    ConnectorAccount {
        connector_id,
        enabled: true,
        currencies: vec![978, 840],
        payment_methods: vec![1, 2],
        capabilities: caps(false),
        priority,
        weight,
    }
}

fn ctx() -> PaymentContext {
    PaymentContext { amount: 1000, currency: 978, payment_method: 1, operation: Operation::Authorize }
}

#[test]
fn priority_orders_by_priority_then_configuration() {
    let accounts = vec![account(10, 2, 1), account(11, 1, 1), account(12, 2, 1), account(13, 0, 1)];
    assert_eq!(route(&accounts, &ctx(), &RoutingRule::Priority, 0), Ok(vec![3, 1, 0, 2]));
}

#[test]
fn ineligible_accounts_are_filtered() {
    let mut disabled = account(10, 0, 1);
    disabled.enabled = false;
    let mut other_currency = account(11, 0, 1);
    other_currency.currencies = vec![826];
    let mut other_method = account(12, 0, 1);
    other_method.payment_methods = vec![9];
    let accounts = vec![disabled, other_currency, other_method, account(13, 5, 1)];
    assert_eq!(route(&accounts, &ctx(), &RoutingRule::Priority, 0), Ok(vec![3]));
}

#[test]
fn required_capability_filters() {
    let mut with_partial = account(11, 3, 1);
    with_partial.capabilities = caps(true);
    let accounts = vec![account(10, 1, 1), with_partial];
    let mut c = ctx();
    c.operation = Operation::PartialCapture;
    assert_eq!(route(&accounts, &c, &RoutingRule::Priority, 0), Ok(vec![1]));
}

#[test]
fn no_eligible_connector() {
    let mut a = account(10, 1, 1);
    a.enabled = false;
    assert_eq!(route(&vec![a], &ctx(), &RoutingRule::Priority, 0), Err(RoutingError::NoEligibleConnector));
    assert_eq!(route(&vec![], &ctx(), &RoutingRule::VolumeSplit, 0), Err(RoutingError::NoEligibleConnector));
}

#[test]
fn volume_split_draws_by_weight() {
    let accounts = vec![account(10, 0, 7), account(11, 0, 3)];
    assert_eq!(route(&accounts, &ctx(), &RoutingRule::VolumeSplit, 7), Ok(vec![0, 1]));
    assert_eq!(route(&accounts, &ctx(), &RoutingRule::VolumeSplit, 42), Ok(vec![1, 0]));
}

#[test]
fn volume_split_with_zero_weights_keeps_configuration_order() {
    let accounts = vec![account(10, 0, 0), account(11, 0, 0), account(12, 0, 0)];
    assert_eq!(route(&accounts, &ctx(), &RoutingRule::VolumeSplit, 42), Ok(vec![0, 1, 2]));
}

#[test]
fn routing_is_deterministic_for_a_seed() {
    let accounts = vec![account(10, 3, 2), account(11, 1, 5), account(12, 2, 9), account(13, 1, 1)];
    for seed in [0u64, 1, 7, 42, u64::MAX] {
        let first = route(&accounts, &ctx(), &RoutingRule::VolumeSplit, seed);
        let second = route(&accounts, &ctx(), &RoutingRule::VolumeSplit, seed);
        assert_eq!(first, second);
        let mut order = first.unwrap();
        order.sort();
        assert_eq!(order, vec![0, 1, 2, 3]);
    }
}

fn predicate(min_amount: u64, max_amount: u64, currency: Option<u16>, accounts: Vec<usize>) -> Predicate {
    Predicate { min_amount, max_amount, currency, payment_method: None, accounts }
}

#[test]
fn rule_based_first_match_wins() {
    let accounts = vec![account(10, 0, 1), account(11, 0, 1), account(12, 0, 1)];
    let rule = RoutingRule::RuleBased(vec![
        predicate(0, 500, None, vec![0]),
        predicate(0, 5000, Some(978), vec![2, 0, 2]),
        predicate(0, u64::MAX, None, vec![1]),
    ]);
    assert_eq!(route(&accounts, &ctx(), &rule, 0), Ok(vec![2, 0]));
}

#[test]
fn rule_based_without_match_has_no_candidate() {
    let accounts = vec![account(10, 0, 1)];
    let rule = RoutingRule::RuleBased(vec![predicate(0, 10, None, vec![0])]);
    assert_eq!(route(&accounts, &ctx(), &rule, 0), Err(RoutingError::NoEligibleConnector));
}

#[test]
fn malformed_rules_are_refused() {
    let accounts = vec![account(10, 0, 1)];
    let inverted = RoutingRule::RuleBased(vec![predicate(10, 0, None, vec![0])]);
    assert_eq!(route(&accounts, &ctx(), &inverted, 0), Err(RoutingError::MalformedRule));
    let out_of_range = RoutingRule::RuleBased(vec![predicate(0, 5000, None, vec![0, 4])]);
    assert_eq!(route(&accounts, &ctx(), &out_of_range, 0), Err(RoutingError::MalformedRule));
}
