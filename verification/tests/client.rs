use grubstation::client::{
    build_boot_options_payload, push_boot_options, push_outcome, says_ok, webhook_url, PushError,
    PushReply,
};

fn answered(status: u16, body: &str) -> Result<(), PushError> {
    push_outcome(PushReply::Answered { status, body: body.to_string() })
}

#[test]
fn the_payload_tells_the_boot_options() {
    let payload = build_boot_options_payload("aa:bb", &vec!["Ubuntu".to_string(), "A>B".to_string()]);
    assert_eq!(payload.len(), 3);
    assert_eq!(payload["action"], "update_boot_options");
    assert_eq!(payload["mac"], "aa:bb");
    let options = payload["boot_options"].as_array().unwrap();
    assert_eq!(options.len(), 2);
    assert_eq!(options[0], "Ubuntu");
    assert_eq!(options[1], "A>B");
}

#[test]
fn the_request_goes_to_the_webhook() {
    let request = push_boot_options(
        "http://ha:8123//",
        "hook",
        "key",
        "aa:bb",
        &vec!["Say \"hi\"".to_string()],
    );
    assert_eq!(request.url, "http://ha:8123/api/webhook/hook");
    assert_eq!(request.authorization.as_deref(), Some("Bearer key"));
    assert_eq!(request.timeout_seconds, 10);
    assert_eq!(
        request.body,
        "{\"action\":\"update_boot_options\",\"boot_options\":[\"Say \\\"hi\\\"\"],\"mac\":\"aa:bb\"}"
    );
    assert_eq!(webhook_url("http://ha", "x"), "http://ha/api/webhook/x");
}

#[test]
fn a_blank_key_is_not_sent() {
    for key in ["", "  ", "\t\n"] {
        let request = push_boot_options("http://ha", "hook", key, "m", &Vec::new());
        assert_eq!(request.authorization, None);
    }
    let request = push_boot_options("http://ha", "hook", " key ", "m", &Vec::new());
    assert_eq!(request.authorization.as_deref(), Some("Bearer  key "));
}

#[test]
fn an_acknowledged_push_succeeds() {
    assert!(answered(200, "{\"status\": \"ok\"}").is_ok());
    assert!(answered(299, " OK ").is_ok());
    assert!(answered(201, "bOokS").is_ok());
    assert!(says_ok("token"));
    assert!(!says_ok("o k"));
}

#[test]
fn a_success_without_acknowledgement_comes_from_an_unknown_webhook() {
    for body in ["", " \n", "no", "{}", "o.k"] {
        let error = answered(200, body).err().unwrap();
        assert!(matches!(error, PushError::Unregistered));
        assert!(error.is_unregistered());
        assert_eq!(error.message(), "Webhook unregistered on Home Assistant");
    }
}

#[test]
fn other_ends_are_other_errors() {
    let error = answered(302, "ok").err().unwrap();
    assert!(matches!(error, PushError::Unexpected { status: 302 }));
    assert!(!error.is_unregistered());
    assert_eq!(
        error.message(),
        "Failed to push boot options to Home Assistant. HTTP status: 302"
    );

    let error = push_outcome(PushReply::Refused { status: 404, body: "gone".to_string() });
    let error = error.err().unwrap();
    assert_eq!(error.message(), "HTTP error response (status 404): gone");
    assert!(!error.is_unregistered());

    let error = push_outcome(PushReply::Failed { reason: "refused".to_string() }).err().unwrap();
    assert_eq!(error.message(), "Transport error: refused");
    assert!(!error.is_unregistered());
}

#[test]
fn a_refusal_that_speaks_of_the_webhook_counts_as_unregistered() {
    let error = push_outcome(PushReply::Refused {
        status: 500,
        body: "Webhook unregistered".to_string(),
    });
    assert!(error.err().unwrap().is_unregistered());
}
