use telemetry_node::auth::{authorize, RequestHeaders};
use telemetry_node::error::NodeError;
use telemetry_node::fanout::{accept_request, advance, Channel, Fanout, Step};
use telemetry_node::payload::{validate, TelemetryPayload};

const ENVELOPE: &str = r#"{"event":"AGENT_LOCATION_UPDATE","data":{"user_id":"a1","lat":45.0,"lon":10.0,"accuracy_m":null,"unit_label":null}}"#;

fn payload(lat: f64, lon: f64) -> TelemetryPayload {
    TelemetryPayload {
        user_id: "a1".to_string(),
        lat: lat.to_bits(),
        lon: lon.to_bits(),
        accuracy_m: None,
        unit_label: None,
    }
}

/// Drives a fan-out with the given publish outcomes; returns the reply and
/// what each channel received.
fn drive(queue_ok: bool, legacy: Result<(), String>, realtime: Result<(), String>)
    -> (Result<(), NodeError>, Vec<(Channel, String)>) {
    let mut f = Fanout::new(ENVELOPE.to_string());
    let mut published = Vec::new();
    let mut legacy = Some(legacy);
    let mut realtime = Some(realtime);
    loop {
        if let Some(r) = f.reply() {
            return (r, published);
        }
        let outcome = match f.step() {
            Step::Submit => if queue_ok { Ok(()) } else { Err("queue full".to_string()) },
            Step::Publish(Channel::Legacy) => {
                let o = legacy.take().unwrap();
                if o.is_ok() {
                    published.push((Channel::Legacy, f.message().to_string()));
                }
                o
            }
            Step::Publish(Channel::Realtime) => {
                let o = realtime.take().unwrap();
                if o.is_ok() {
                    published.push((Channel::Realtime, f.message().to_string()));
                }
                o
            }
            Step::Reply(_) => unreachable!(),
        };
        f.record(outcome);
    }
}

#[test]
fn both_publishes_succeed_gives_ok_with_identical_envelopes() {
    let (reply, published) = drive(true, Ok(()), Ok(()));
    assert_eq!(reply, Ok(()));
    assert_eq!(published.len(), 2);
    assert_eq!(published[0].0, Channel::Legacy);
    assert_eq!(published[1].0, Channel::Realtime);
    assert_eq!(published[0].1, published[1].1);
    assert_eq!(published[0].1, ENVELOPE);
}

#[test]
fn legacy_failure_gives_redis_error_and_skips_realtime() {
    let (reply, published) = drive(true, Err("publish to map_updates failed: down".to_string()), Ok(()));
    let e = reply.unwrap_err();
    assert_eq!(e.status(), 500);
    assert_eq!(e.code(), "redis_error");
    assert_eq!(e.message(), "publish to map_updates failed: down");
    assert!(published.is_empty());
}

#[test]
fn realtime_failure_gives_redis_error_after_legacy_publish() {
    let (reply, published) = drive(true, Ok(()), Err("realtime down".to_string()));
    assert_eq!(reply, Err(NodeError::RedisError("realtime down".to_string())));
    assert_eq!(published.len(), 1);
    assert_eq!(published[0].0, Channel::Legacy);
}

#[test]
fn full_queue_does_not_change_the_reply() {
    assert_eq!(drive(false, Ok(()), Ok(())), drive(true, Ok(()), Ok(())));
    assert_eq!(
        drive(false, Err("x".to_string()), Ok(())),
        drive(true, Err("x".to_string()), Ok(()))
    );
}

#[test]
fn steps_follow_in_order() {
    let s = advance(&Step::Submit, Err("closed".to_string()));
    assert_eq!(s, Step::Publish(Channel::Legacy));
    let s = advance(&s, Ok(()));
    assert_eq!(s, Step::Publish(Channel::Realtime));
    let s = advance(&s, Ok(()));
    assert_eq!(s, Step::Reply(Ok(())));
    assert_eq!(advance(&s, Err("late".to_string())), Step::Reply(Ok(())));
}

#[test]
fn channel_names() {
    assert_eq!(Channel::Legacy.name(), "map_updates");
    assert_eq!(Channel::Realtime.name(), "realtime_events");
}

#[test]
fn open_mode_request_without_headers_is_accepted() {
    let h = RequestHeaders { authorization: None, node_token: None };
    assert_eq!(authorize(&h, None), Ok(()));
    assert_eq!(validate(payload(45.0, 10.0)), Ok(payload(45.0, 10.0)));
    let (reply, _) = drive(true, Ok(()), Ok(()));
    assert_eq!(reply, Ok(()));
}

#[test]
fn rejected_credential_wins_over_bad_body() {
    let h = RequestHeaders { authorization: None, node_token: Some("nope".to_string()) };
    assert_eq!(
        accept_request(&h, Some("tok"), Err("malformed body: eof".to_string())),
        Err(NodeError::Unauthorized)
    );
    assert_eq!(accept_request(&h, Some("tok"), Ok(payload(91.0, 10.0))), Err(NodeError::Unauthorized));
}

#[test]
fn malformed_body_is_invalid_payload() {
    let h = RequestHeaders { authorization: Some("Bearer tok".to_string()), node_token: None };
    let e = accept_request(&h, Some("tok"), Err("malformed body: eof".to_string())).unwrap_err();
    assert_eq!(e.status(), 400);
    assert_eq!(e, NodeError::InvalidPayload("malformed body: eof".to_string()));
}

#[test]
fn out_of_range_body_is_invalid_payload() {
    let h = RequestHeaders { authorization: None, node_token: None };
    let e = accept_request(&h, None, Ok(payload(45.0, 200.0))).unwrap_err();
    assert_eq!(e.code(), "invalid_payload");
}

#[test]
fn accepted_request_yields_location_update_envelope() {
    let h = RequestHeaders { authorization: Some("Bearer tok".to_string()), node_token: None };
    let m = accept_request(&h, Some("tok"), Ok(payload(-12.5, 170.0))).unwrap();
    assert_eq!(m.event, "AGENT_LOCATION_UPDATE");
    assert_eq!(m.data, payload(-12.5, 170.0));
}
