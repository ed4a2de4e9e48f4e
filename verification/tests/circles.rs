use redeemer::circles::check_params;
use redeemer::circles::interpret_response;
use redeemer::circles::quote_params;
use redeemer::circles::request_body;
use redeemer::circles::transfer_steps;
use redeemer::circles::write_request;
use redeemer::circles::FindPathParams;
use redeemer::circles::PathError;
use redeemer::circles::PathfindingResult;
use redeemer::circles::RpcError;
use redeemer::circles::Transfer;
use redeemer::flow_matrix::create_flow_matrix;
use redeemer::redeem::check_subscription;
use redeemer::redeem::plan_redemption;
use redeemer::redeem::PaymentError;
use redeemer::redeem::RedeemableSubscription;
use redeemer::redeem::Redemption;

fn params(from: &str, to: &str, target_flow: &str) -> FindPathParams {
    FindPathParams {
        from: from.to_string(),
        to: to.to_string(),
        target_flow: target_flow.to_string(),
        use_wrapped_balances: Some(true),
        from_tokens: None,
        to_tokens: None,
        exclude_from_tokens: None,
        exclude_to_tokens: None,
    }
}

fn path() -> PathfindingResult {
    PathfindingResult {
        max_flow: "9".to_string(),
        transfers: vec![
            Transfer {
                from: "0x52".to_string(),
                to: "0x60".to_string(),
                token_owner: "0x52".to_string(),
                value: "9".to_string(),
            },
            Transfer {
                from: "0x60".to_string(),
                to: "0xcf".to_string(),
                token_owner: "0x61".to_string(),
                value: "9".to_string(),
            },
        ],
    }
}

#[test]
fn request_names_the_method_and_the_parameters() {
    let body = request_body(&params(
        "0x52e14be00d5acff4424ad625662c6262b4fd1a58",
        "0xcf6dc192dc292d5f2789da2db02d6dd4f41f4214",
        "1000000000000000000",
    ));
    assert_eq!(
        body,
        "{\"id\":1,\"jsonrpc\":\"2.0\",\"method\":\"circlesV2_findPath\",\"params\":[{\"ExcludedFromTokens\":null,\"ExcludedToTokens\":null,\"FromTokens\":null,\"Sink\":\"0xcf6dc192dc292d5f2789da2db02d6dd4f41f4214\",\"Source\":\"0x52e14be00d5acff4424ad625662c6262b4fd1a58\",\"TargetFlow\":\"1000000000000000000\",\"ToTokens\":null,\"WithWrap\":true}]}"
    );
    let parsed: serde_json::Value = serde_json::from_str(&body).unwrap();
    assert_eq!(parsed["method"], "circlesV2_findPath");
    assert_eq!(parsed["jsonrpc"], "2.0");
    assert_eq!(parsed["id"], 1);
    assert_eq!(parsed["params"].as_array().unwrap().len(), 1);
    assert_eq!(parsed["params"][0]["Source"], "0x52e14be00d5acff4424ad625662c6262b4fd1a58");
    assert_eq!(parsed["params"][0]["Sink"], "0xcf6dc192dc292d5f2789da2db02d6dd4f41f4214");
    assert_eq!(parsed["params"][0]["TargetFlow"], "1000000000000000000");
    assert_eq!(parsed["params"][0]["WithWrap"], true);
    assert!(parsed["params"][0]["FromTokens"].is_null());
}

#[test]
fn request_lists_the_tokens() {
    let mut asked = params("0x52", "0xcf", "5");
    asked.use_wrapped_balances = Some(false);
    asked.from_tokens = Some(vec!["0x01".to_string(), "0x02".to_string(), "0x03".to_string()]);
    asked.to_tokens = Some(vec!["0x04".to_string()]);
    asked.exclude_from_tokens = Some(Vec::new());
    asked.exclude_to_tokens = None;
    let body = request_body(&asked);
    assert_eq!(
        body,
        "{\"id\":1,\"jsonrpc\":\"2.0\",\"method\":\"circlesV2_findPath\",\"params\":[{\"ExcludedFromTokens\":[],\"ExcludedToTokens\":null,\"FromTokens\":[\"0x01\",\"0x02\",\"0x03\"],\"Sink\":\"0xcf\",\"Source\":\"0x52\",\"TargetFlow\":\"5\",\"ToTokens\":[\"0x04\"],\"WithWrap\":false}]}"
    );
    asked.use_wrapped_balances = None;
    let parsed: serde_json::Value = serde_json::from_str(&request_body(&asked)).unwrap();
    assert!(parsed["params"][0]["WithWrap"].is_null());
    assert_eq!(parsed["params"][0]["FromTokens"].as_array().unwrap().len(), 3);
}

#[test]
fn request_escapes_what_json_asks_for() {
    let body = request_body(&params("a\"b", "c\\d", "5"));
    assert!(body.contains("\"Source\":\"a\\\"b\""));
    assert!(body.contains("\"Sink\":\"c\\\\d\""));
    let parsed: serde_json::Value = serde_json::from_str(&body).unwrap();
    assert_eq!(parsed["params"][0]["Source"], "a\"b");
    assert_eq!(parsed["params"][0]["Sink"], "c\\d");
}

#[test]
fn parameters_need_source_sink_and_a_positive_flow() {
    assert!(check_params(&params("0x52", "0xcf", "1")));
    assert!(!check_params(&params("", "0xcf", "1")));
    assert!(!check_params(&params("0x52", "", "1")));
    assert!(!check_params(&params("0x52", "0xcf", "0")));
    assert!(!check_params(&params("0x52", "0xcf", "")));
    assert!(!check_params(&params("0x52", "0xcf", "-1")));
    assert!(!check_params(&params("0x52", "0xcf", "one")));
    assert!(!check_params(&params("0x52", "0xcf", "1_0")));
    assert!(!check_params(&params("0x52", "0xcf", "1.0")));
    assert!(!check_params(&params("0x52", "0xcf", "000")));
    assert!(check_params(&params("0x52", "0xcf", "010")));
}

#[test]
fn status_without_success_is_a_transport_failure() {
    let outcome = interpret_response(500, Some(path()), None);
    assert!(matches!(outcome, Err(PathError::Transport { status: Some(500) })));
    let outcome = interpret_response(199, None, None);
    assert!(matches!(outcome, Err(PathError::Transport { status: Some(199) })));
    let outcome = interpret_response(300, None, None);
    assert!(matches!(outcome, Err(PathError::Transport { status: Some(300) })));
    assert!(interpret_response(200, Some(path()), None).is_ok());
    assert!(interpret_response(299, Some(path()), None).is_ok());
}

#[test]
fn service_error_is_an_rpc_failure() {
    let reported = RpcError { code: -32000, message: "no path".to_string() };
    match interpret_response(200, None, Some(reported)) {
        Err(PathError::Rpc { code, message }) => {
            assert_eq!(code, -32000);
            assert_eq!(message, "no path");
        }
        other => panic!("{:?}", other),
    }
}

#[test]
fn response_without_result_and_error_is_malformed() {
    assert!(matches!(interpret_response(200, None, None), Err(PathError::MalformedResponse)));
}

#[test]
fn result_is_handed_on() {
    let reported = RpcError { code: 1, message: "ignored".to_string() };
    let found = interpret_response(200, Some(path()), Some(reported)).unwrap();
    assert_eq!(found.max_flow, "9");
    assert_eq!(found.transfers.len(), 2);
    assert_eq!(found.transfers[1].token_owner, "0x61");
}

#[test]
fn path_feeds_the_flow_matrix() {
    let found = interpret_response(200, Some(path()), None).unwrap();
    let steps = transfer_steps(&found);
    assert_eq!(steps.len(), 2);
    assert_eq!(steps[0].from, "0x52");
    assert_eq!(steps[0].to, "0x60");
    assert_eq!(steps[1].token_owner, "0x61");
    assert_eq!(steps[1].value, "9");
    let matrix = create_flow_matrix("0x52", "0xcf", "9", &steps).unwrap();
    assert_eq!(matrix.flow_vertices, vec!["0x52", "0x60", "0x61", "0xcf"]);
    assert_eq!(matrix.packed_coordinates, "0x000000000001000200010003");
}

#[test]
fn trusted_payment_goes_along_a_path() {
    let subscription = RedeemableSubscription {
        id: "7".to_string(),
        recipient: "0xcf".to_string(),
        subscriber: "0x52".to_string(),
        amount: "12".to_string(),
        trusted: true,
    };
    match plan_redemption(&subscription) {
        Redemption::AlongPath { params } => {
            assert_eq!(params.from, "0x52");
            assert_eq!(params.to, "0xcf");
            assert_eq!(params.target_flow, "12");
            assert_eq!(params.use_wrapped_balances, Some(true));
            assert!(params.from_tokens.is_none());
            assert!(params.to_tokens.is_none());
            assert!(params.exclude_from_tokens.is_none());
            assert!(params.exclude_to_tokens.is_none());
        }
        Redemption::Untrusted => panic!("a trusted payment needs a path"),
    }
}

#[test]
fn untrusted_payment_is_redeemed_directly() {
    let subscription = RedeemableSubscription {
        id: "7".to_string(),
        recipient: "0xcf".to_string(),
        subscriber: "0x52".to_string(),
        amount: "12".to_string(),
        trusted: false,
    };
    assert!(matches!(plan_redemption(&subscription), Redemption::Untrusted));
}

#[test]
fn quoting_makes_json_strings_of_every_text() {
    let mut asked = params("0x52", "a\"b", "5");
    asked.from_tokens = Some(vec!["x".to_string(), "tab\there".to_string()]);
    asked.exclude_to_tokens = Some(Vec::new());
    let quoted = quote_params(&asked);
    assert_eq!(quoted.from, "\"0x52\"");
    assert_eq!(quoted.to, "\"a\\\"b\"");
    assert_eq!(quoted.target_flow, "\"5\"");
    assert_eq!(quoted.use_wrapped_balances, Some(true));
    assert_eq!(
        quoted.from_tokens,
        Some(vec!["\"x\"".to_string(), "\"tab\\there\"".to_string()])
    );
    assert_eq!(quoted.to_tokens, None);
    assert_eq!(quoted.exclude_from_tokens, None);
    assert_eq!(quoted.exclude_to_tokens, Some(Vec::new()));
}

#[test]
fn request_is_written_of_the_values_given() {
    let mut values = params("1", "2", "3");
    values.use_wrapped_balances = None;
    values.to_tokens = Some(vec!["4".to_string(), "5".to_string()]);
    assert_eq!(
        write_request(&values),
        "{\"id\":1,\"jsonrpc\":\"2.0\",\"method\":\"circlesV2_findPath\",\"params\":[{\"ExcludedFromTokens\":null,\"ExcludedToTokens\":null,\"FromTokens\":null,\"Sink\":2,\"Source\":1,\"TargetFlow\":3,\"ToTokens\":[4,5],\"WithWrap\":null}]}"
    );
}

#[test]
fn request_escapes_control_characters() {
    let quoted = quote_params(&params("\u{8}\t\n\u{c}\r", "\u{0}\u{1f}\u{7f}", "\u{e9}/"));
    assert_eq!(quoted.from, "\"\\b\\t\\n\\f\\r\"");
    assert_eq!(quoted.to, "\"\\u0000\\u001f\u{7f}\"");
    assert_eq!(quoted.target_flow, "\"\u{e9}/\"");
}

fn payment(id: &str, recipient: &str, subscriber: &str, amount: &str, trusted: bool) -> RedeemableSubscription {
    RedeemableSubscription {
        id: id.to_string(),
        recipient: recipient.to_string(),
        subscriber: subscriber.to_string(),
        amount: amount.to_string(),
        trusted,
    }
}

#[test]
fn checked_payment_is_canonical() {
    let checked = check_subscription(&payment(
        "0x2a",
        "CF6DC192DC292D5F2789DA2DB02D6DD4F41F4214",
        "0X52e14Be00D5acFF4424AD625662c6262B4fd1A58",
        "0x10",
        true,
    ))
    .unwrap();
    assert_eq!(checked.id, "0x2a");
    assert_eq!(checked.recipient, "0xcf6dc192dc292d5f2789da2db02d6dd4f41f4214");
    assert_eq!(checked.subscriber, "0x52e14be00d5acff4424ad625662c6262b4fd1a58");
    assert_eq!(checked.amount, "16");
    assert!(checked.trusted);
    let decimal = check_subscription(&payment(
        "7",
        "0xcf6dc192dc292d5f2789da2db02d6dd4f41f4214",
        "0x52e14be00d5acff4424ad625662c6262b4fd1a58",
        "6277101735386680763835789423207666416102355444464034512895",
        true,
    ))
    .unwrap();
    assert_eq!(
        decimal.amount,
        "6277101735386680763835789423207666416102355444464034512895"
    );
    assert_eq!(check_subscription(&payment("0b101", "0o17", "", "1_000", true)).err(), Some(PaymentError::InvalidSubscriber));
    match plan_redemption(&decimal) {
        Redemption::AlongPath { params } => {
            assert!(check_params(&params));
            assert_eq!(params.from, "0x52e14be00d5acff4424ad625662c6262b4fd1a58");
        }
        Redemption::Untrusted => panic!("a trusted payment needs a path"),
    }
}

#[test]
fn malformed_payment_is_refused() {
    let recipient = "0xcf6dc192dc292d5f2789da2db02d6dd4f41f4214";
    let subscriber = "0x52e14be00d5acff4424ad625662c6262b4fd1a58";
    for bad in ["seven", "-1", "0xg", "115792089237316195423570985008687907853269984665640564039457584007913129639936"] {
        assert_eq!(
            check_subscription(&payment(bad, recipient, subscriber, "1", true)).err(),
            Some(PaymentError::InvalidId)
        );
        assert_eq!(
            check_subscription(&payment(bad, recipient, subscriber, "1", false)).err(),
            Some(PaymentError::InvalidId)
        );
    }
    for bad in ["", "0x52", "0x52e14be00d5acff4424ad625662c6262b4fd1a5", "0x52e14be00d5acff4424ad625662c6262b4fd1a5g", "0x0x52e14be00d5acff4424ad625662c6262b4fd1a58"] {
        assert_eq!(
            check_subscription(&payment("1", recipient, bad, "1", true)).err(),
            Some(PaymentError::InvalidSubscriber),
            "{:?}",
            bad
        );
        assert_eq!(
            check_subscription(&payment("1", bad, subscriber, "1", true)).err(),
            Some(PaymentError::InvalidRecipient),
            "{:?}",
            bad
        );
    }
    for bad in ["one", "-1", "1.5", "6277101735386680763835789423207666416102355444464034512896"] {
        assert_eq!(
            check_subscription(&payment("1", recipient, subscriber, bad, true)).err(),
            Some(PaymentError::InvalidAmount),
            "{:?}",
            bad
        );
    }
    let untrusted = check_subscription(&payment("1", "nobody", "no one", "nothing", false)).unwrap();
    assert_eq!(untrusted.recipient, "nobody");
    assert_eq!(untrusted.subscriber, "no one");
    assert_eq!(untrusted.amount, "nothing");
    assert!(!untrusted.trusted);
}
