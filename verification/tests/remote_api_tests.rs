use celestial::remote_api::{
    answer_messages, take_inbox,
    entity_not_found, error_payload, error_payload_from_quoted, id_reply, parse_entity_id,
    parse_error_message, queue_reply, reply_for_result, reply_to_message, route_message,
    serde_parse_err_map, serde_serialize_err_map, serialize_error_message, take_next_message,
    ApiCommand, IncomingRemoteIOMessage, OutgoingRemoteIOMessage,
};
use std::collections::VecDeque;

#[test]
fn routes_known_commands() {
    assert_eq!(route_message("command.add_entity"), Ok(ApiCommand::AddEntity));
    assert_eq!(route_message("command.get_gravity_flux"), Ok(ApiCommand::GetGravityFlux));
    assert_eq!(
        route_message("command.set_ui_require_free_cursor"),
        Ok(ApiCommand::SetUiRequireFreeCursor)
    );
    assert_eq!(route_message("command.remove_mesh"), Ok(ApiCommand::RemoveMesh));
}

#[test]
fn wireframe_command_goes_to_find_all_entities() {
    assert_eq!(
        route_message("command.get_debug_real_physics_wireframe"),
        Ok(ApiCommand::FindAllEntitiesByComponents)
    );
}

#[test]
fn unknown_command_is_an_error() {
    assert_eq!(
        route_message("command.nope"),
        Err("Handler not found for message command.nope".to_string())
    );
    assert_eq!(route_message(""), Err("Handler not found for message ".to_string()));
    assert!(route_message("command.add_entity ").is_err());
    assert!(route_message("add_entity").is_err());
}

#[test]
fn entity_ids() {
    assert_eq!(parse_entity_id("12"), Ok(12));
    assert_eq!(parse_entity_id("x"), Err("Invalid id".to_string()));
    assert_eq!(parse_entity_id("-1"), Err("Invalid id".to_string()));
    assert_eq!(parse_entity_id(""), Err("Invalid id".to_string()));
}

#[test]
fn id_replies() {
    assert_eq!(id_reply(5), "{\"id\":5}");
    assert_eq!(id_reply(0), "{\"id\":0}");
    assert_eq!(id_reply(u64::MAX), format!("{{\"id\":{}}}", u64::MAX));
}

#[test]
fn error_payloads_are_json() {
    assert_eq!(error_payload("bad"), "{\"error\":\"bad\"}");
    assert_eq!(error_payload("say \"hi\"\n"), "{\"error\":\"say \\\"hi\\\"\\n\"}");
    assert_eq!(error_payload_from_quoted("\"x\""), "{\"error\":\"x\"}");
    let v: serde_json::Value = serde_json::from_str(&error_payload("a\\b\"c")).unwrap();
    assert_eq!(v["error"], "a\\b\"c");
}

#[test]
fn replies_for_results() {
    let r = reply_for_result("inbox.1".to_string(), Ok(Some("[1]".to_string())));
    assert_eq!((r.name.as_str(), r.payload.as_str(), r.success), ("inbox.1", "[1]", true));
    let r = reply_for_result("inbox.2".to_string(), Ok(None));
    assert_eq!((r.payload.as_str(), r.success), ("{}", true));
    let r = reply_for_result("inbox.3".to_string(), Err("Entity not found".to_string()));
    assert_eq!((r.payload.as_str(), r.success), ("{\"error\":\"Entity not found\"}", false));
}

#[test]
fn reply_goes_to_reply_to() {
    let m = IncomingRemoteIOMessage {
        name: "command.reset_world".to_string(),
        payload: String::new(),
        reply_to: Some("_INBOX.9".to_string()),
    };
    let r = reply_to_message(&m, Ok(None));
    assert_eq!(r.name, "_INBOX.9");
    assert!(r.success);
}

#[test]
fn error_messages() {
    assert_eq!(entity_not_found(), "Entity not found");
    assert_eq!(parse_error_message("eof"), "Cannot parse input: eof");
    assert_eq!(serialize_error_message("eof"), "Cannot serialize input: eof");
}

#[test]
fn serde_error_messages() {
    let error = serde_json::from_str::<u64>("x").unwrap_err();
    let expected = format!("Cannot parse input: {}", error);
    assert_eq!(serde_parse_err_map(error), expected);
    let error = serde_json::from_str::<u64>("[").unwrap_err();
    let expected = format!("Cannot serialize input: {}", error);
    assert_eq!(serde_serialize_err_map(error), expected);
}

fn incoming(name: &str) -> IncomingRemoteIOMessage {
    IncomingRemoteIOMessage {
        name: name.to_string(),
        payload: String::new(),
        reply_to: Some(format!("reply.{name}")),
    }
}

#[test]
fn draining_keeps_arrival_order_law() {
    let mut inbox: VecDeque<IncomingRemoteIOMessage> =
        vec![incoming("a"), incoming("b"), incoming("c")].into_iter().collect();
    let mut outbox: VecDeque<OutgoingRemoteIOMessage> = VecDeque::new();
    outbox.push_back(OutgoingRemoteIOMessage { name: "old".to_string(), payload: String::new(), success: true });
    while let Some(m) = take_next_message(&mut inbox) {
        let reply = reply_to_message(&m, Ok(Some(m.name.clone())));
        queue_reply(&mut outbox, reply);
    }
    let names: Vec<&str> = outbox.iter().map(|r| r.name.as_str()).collect();
    assert_eq!(names, vec!["reply.a", "reply.b", "reply.c", "old"]);
    assert!(take_next_message(&mut inbox).is_none());
}

#[test]
fn refused_message_is_answered_with_its_error() {
    let m = IncomingRemoteIOMessage {
        name: "command.nope".to_string(),
        payload: String::new(),
        reply_to: Some("_INBOX.1".to_string()),
    };
    let result = route_message(&m.name).map(|_| None);
    let r = reply_to_message(&m, result);
    assert_eq!(r.name, "_INBOX.1");
    assert!(!r.success);
    assert_eq!(r.payload, "{\"error\":\"Handler not found for message command.nope\"}");
}

#[test]
fn altitude_command_is_routed() {
    assert_eq!(
        route_message("command.get_altitude_over_celestial_body"),
        Ok(ApiCommand::GetAltitudeOverCelestialBody)
    );
    assert!(route_message("command.get_real_altitude_over_celestial_body").is_err());
}

#[test]
fn error_payloads_escape_as_json() {
    assert_eq!(error_payload("a\u{1}b\u{1f}"), "{\"error\":\"a\\u0001b\\u001f\"}");
    assert_eq!(
        error_payload("\u{8}\t\n\u{c}\r\\\"é"),
        "{\"error\":\"\\b\\t\\n\\f\\r\\\\\\\"é\"}"
    );
}

#[test]
fn inbox_is_emptied_and_answered_in_arrival_order() {
    let msg = |name: &str, to: &str| IncomingRemoteIOMessage {
        name: name.to_string(),
        payload: String::new(),
        reply_to: Some(to.to_string()),
    };
    let mut inbox: VecDeque<IncomingRemoteIOMessage> =
        vec![msg("command.a", "r1"), msg("command.b", "r2"), msg("command.c", "r3")].into();
    let messages = take_inbox(&mut inbox);
    assert!(inbox.is_empty());
    let names: Vec<&str> = messages.iter().map(|m| m.name.as_str()).collect();
    assert_eq!(names, vec!["command.c", "command.b", "command.a"]);
    let mut outbox: VecDeque<OutgoingRemoteIOMessage> = VecDeque::new();
    outbox.push_back(OutgoingRemoteIOMessage {
        name: "old".to_string(),
        payload: "{}".to_string(),
        success: true,
    });
    let results = vec![Ok(Some("3".to_string())), Err("bad".to_string()), Ok(None)];
    answer_messages(&mut outbox, &messages, results);
    let got: Vec<(&str, &str, bool)> =
        outbox.iter().map(|r| (r.name.as_str(), r.payload.as_str(), r.success)).collect();
    assert_eq!(
        got,
        vec![
            ("r1", "{}", true),
            ("r2", "{\"error\":\"bad\"}", false),
            ("r3", "3", true),
            ("old", "{}", true),
        ]
    );
}
