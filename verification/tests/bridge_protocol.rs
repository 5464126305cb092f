use webplatform::init;
use webplatform::syscall;
use webplatform::BridgeError;
use webplatform::HtmlNode;
use webplatform::XmlHttpRequest;
use webplatform::XmlHttpRequestErr;
use webplatform::XmlHttpRequestOk;
use webplatform::XmlHttpRequestSuccessStatus;
use webplatform::AJAX_ERROR_STATUS;

#[test]
fn send_then_complete_yields_success_ok() {
    let mut doc = init(7);
    let send = doc.ajax_send(42, "http://example.test/", "GET", None).unwrap();
    assert_eq!(send.closure, 0);
    assert!(doc.is_pending(42));
    assert_eq!(doc.pending_count(), 1);

    let done = doc.dispatch_ajax(42, b"ok".to_vec(), 200).unwrap();
    assert_eq!(done.closure, 0);
    assert_eq!(done.request.id, 42);
    assert_eq!(done.request.status, 200);
    assert_eq!(done.request.response, b"ok".to_vec());
    assert_eq!(done.request.response_text().unwrap(), "ok");
    assert_eq!(
        done.request.as_result(None),
        Ok(XmlHttpRequestOk::XmlHttpRequestSuccess(XmlHttpRequestSuccessStatus::OK))
    );
    assert!(!doc.is_pending(42));
    assert_eq!(doc.pending_count(), 0);
}

#[test]
fn second_completion_is_protocol_violation() {
    let mut doc = init(7);
    doc.ajax_send(42, "http://example.test/", "GET", None).unwrap();
    doc.dispatch_ajax(42, b"ok".to_vec(), 200).unwrap();
    let again = doc.dispatch_ajax(42, b"ok".to_vec(), 200);
    assert_eq!(again, Err(BridgeError::UnknownRequest(42)));
}

#[test]
fn completion_of_unknown_handle_is_protocol_violation() {
    let mut doc = init(7);
    let r = doc.dispatch_ajax(9, b"".to_vec(), 200);
    assert_eq!(r, Err(BridgeError::UnknownRequest(9)));
}

#[test]
fn concurrent_requests_complete_independently() {
    let mut doc = init(7);
    let first = doc.ajax_send(1, "http://example.test/a", "GET", None).unwrap();
    let second = doc
        .ajax_post(2, "http://example.test/b", Some("payload"))
        .unwrap();
    assert_eq!(first.closure, 0);
    assert_eq!(second.closure, 1);
    assert!(doc.is_pending(1));
    assert!(doc.is_pending(2));

    // Completions fire in their own order; each is routed to the closure its
    // own send registered.
    let done_second = doc.dispatch_ajax(2, b"bee".to_vec(), 201).unwrap();
    assert_eq!(done_second.closure, 1);
    assert_eq!(done_second.request.id, 2);
    assert!(doc.is_pending(1));
    assert!(!doc.is_pending(2));

    let done_first = doc.dispatch_ajax(1, b"aye".to_vec(), 200).unwrap();
    assert_eq!(done_first.closure, 0);
    assert_eq!(done_first.request.id, 1);
    assert_eq!(done_first.request.response, b"aye".to_vec());
    assert!(!doc.is_pending(1));
}

#[test]
fn error_path_completion_classifies_as_other_error() {
    let mut doc = init(7);
    doc.ajax_send(3, "http://example.test/", "GET", None).unwrap();
    let done = doc
        .dispatch_ajax(3, b"error".to_vec(), AJAX_ERROR_STATUS)
        .unwrap();
    assert_eq!(done.request.status, 65535);
    assert_eq!(done.request.response, b"error".to_vec());
    assert_eq!(
        done.request.as_result(None),
        Err(XmlHttpRequestErr::Other(65535))
    );
}

#[test]
fn ajax_send_marshals_url_method_and_body() {
    let mut doc = init(7);
    let send = doc
        .ajax_send(5, "http://example.test/x", "POST", Some("a=1"))
        .unwrap();
    assert_eq!(send.args.len(), 3);
    assert_eq!(send.args.buffer(0).as_slice(), b"http://example.test/x\0");
    assert_eq!(send.args.buffer(1).as_slice(), b"POST\0");
    assert_eq!(send.args.buffer(2).as_slice(), b"a=1\0");
}

#[test]
fn ajax_get_sends_empty_body() {
    let mut doc = init(7);
    let send = doc.ajax_get(5, "http://example.test/x").unwrap();
    assert_eq!(send.args.buffer(1).as_slice(), b"GET\0");
    assert_eq!(send.args.buffer(2).as_slice(), b"\0");
}

#[test]
fn ajax_send_rejects_interior_nul_and_stays_clean() {
    let mut doc = init(7);
    let r = doc.ajax_send(5, "http://bad\0url/", "GET", None);
    assert!(r.is_err());
    assert!(!doc.is_pending(5));
    assert_eq!(doc.ajax_closure_count(), 0);
}

#[test]
fn event_with_absent_node_has_no_target() {
    let mut doc = init(7);
    let idx = doc.register_event_closure();
    assert_eq!(idx, 0);
    assert_eq!(doc.event_closure_count(), 1);
    let d = doc.dispatch_event(idx, -1, 11).unwrap();
    assert_eq!(d.closure, 0);
    assert_eq!(d.event.event, 11);
    assert!(d.event.target.is_none());
}

#[test]
fn event_with_node_targets_same_context() {
    let mut doc = init(7);
    let idx = doc.register_event_closure();
    let d = doc.dispatch_event(idx, 5, 11).unwrap();
    let target = d.event.target.unwrap();
    assert_eq!(target.id, 5);
    assert_eq!(target.ctx, doc.ctx());
}

#[test]
fn event_for_unknown_closure_is_protocol_violation() {
    let doc = init(7);
    let r = doc.dispatch_event(3, -1, 11);
    assert_eq!(r, Err(BridgeError::UnknownClosure(3)));
}

#[test]
fn node_from_handle_checks_sentinel() {
    let doc = init(9);
    assert!(doc.node_from_handle(-1).is_none());
    assert!(doc.node_from_handle(-5).is_none());
    let node = doc.node_from_handle(4).unwrap();
    assert_eq!(node, HtmlNode { id: 4, ctx: 9 });
    let rooted = node.root_ref();
    assert_eq!(rooted.node(), node);
}

#[test]
fn response_text_surfaces_decode_error() {
    let request = XmlHttpRequest { id: 1, response: vec![0xff, 0xfe], status: 200 };
    assert!(request.response_text().is_err());
}

#[test]
fn syscall_answers_its_probe() {
    assert_eq!(syscall(355), 55);
    assert_eq!(syscall(0), -1);
    assert_eq!(syscall(-355), -1);
}
