use rachel::agent::{create_request, create_response_frame};
use rachel::dispatch::{handle_incoming_request, Incoming};
use rachel::manager::{ServiceManager, ServiceManagerAction, ServiceManagerMessage};
use rachel::message::{Header, HttpRequest, HttpResponse, HttpVersion};
use rachel::route::{handshake_frame, socket_manager_read};
use rachel::session::{ServiceSession, ServiceSessionMessage, SessionAction};
use rachel::wire::{take_delimited, FrameStatus};

fn tenant_get(host: &str, target: &str) -> HttpRequest {
    HttpRequest {
        method: b"GET".to_vec(),
        target: target.as_bytes().to_vec(),
        headers: vec![
            Header { name: b"host".to_vec(), value: host.as_bytes().to_vec() },
            Header { name: b"X-T".to_vec(), value: b"1".to_vec() },
        ],
        body: Vec::new(),
    }
}

#[test]
fn tunnel_round_trip() {
    let domain = b"rachel.test".to_vec();
    let mut manager = ServiceManager::new(domain.clone());
    let mut session = ServiceSession::new(b"bakadoduri".to_vec(), 1 << 20);
    assert_eq!(
        manager.handle(ServiceManagerMessage::RegisterService {
            service_id: b"bakadoduri".to_vec(),
            session: 1,
        }),
        ServiceManagerAction::Registered { session: 1 }
    );

    // The agent connects and claims its id.
    let claimed = socket_manager_read(&handshake_frame(b"bakadoduri"), false).unwrap();
    let action = manager.handle(ServiceManagerMessage::ForwardPrimaryStream {
        service_id: claimed,
        stream: 40,
    });
    assert_eq!(action, ServiceManagerAction::DeliverStream { session: 1, stream: 40 });
    assert_eq!(session.on_message(ServiceSessionMessage::RecvPrimaryStream(40)), Vec::new());

    // A public request comes in.
    let request = tenant_get("bakadoduri.rachel.test", "/path?q=1");
    assert_eq!(handle_incoming_request(&request, &domain), Incoming::Tenant);
    let delivered = match manager.handle(ServiceManagerMessage::ForwardRequest { request, ticket: 77 }) {
        ServiceManagerAction::DeliverRequest { session: 1, request, ticket: 77 } => request,
        other => panic!("unexpected action {:?}", other),
    };
    let mut acts = session.on_message(ServiceSessionMessage::RecvRequest(delivered, 77));
    assert_eq!(acts.len(), 1);
    let mut agent_rx = match acts.remove(0) {
        SessionAction::Write { stream: 40, ticket: 77, frame } => frame,
        other => panic!("unexpected action {:?}", other),
    };

    // The agent reads the frame and calls the origin.
    let text = match take_delimited(&mut agent_rx) {
        FrameStatus::Ready(text) => text,
        other => panic!("unexpected status {:?}", other),
    };
    let at_origin = create_request(&text, b"http://localhost", b"8000").unwrap();
    assert_eq!(at_origin.method, b"GET".to_vec());
    assert_eq!(at_origin.target, b"http://localhost:8000/path?q=1".to_vec());
    assert!(at_origin.headers.contains(&Header { name: b"X-T".to_vec(), value: b"1".to_vec() }));

    // The origin answers; the agent frames the answer.
    let from_origin = HttpResponse {
        version: HttpVersion::Http11,
        status: 200,
        headers: vec![Header { name: b"content-length".to_vec(), value: b"5".to_vec() }],
        body: b"hello".to_vec(),
    };
    let frame = create_response_frame(&from_origin).unwrap();
    assert_eq!(
        session.on_data(&frame),
        vec![SessionAction::Respond { ticket: 77, response: from_origin }]
    );
}

#[test]
fn agent_gone_then_cleanup() {
    let mut manager = ServiceManager::new(b"rachel.test".to_vec());
    let mut session = ServiceSession::new(b"bakadoduri".to_vec(), 1 << 20);
    manager.handle(ServiceManagerMessage::RegisterService {
        service_id: b"bakadoduri".to_vec(),
        session: 1,
    });
    session.on_message(ServiceSessionMessage::RecvPrimaryStream(40));
    session.on_message(ServiceSessionMessage::RecvRequest(tenant_get("bakadoduri.rachel.test", "/"), 5));

    // The agent disconnects before it answered.
    let acts = session.on_stream_failed();
    assert_eq!(
        acts,
        vec![
            SessionAction::Respond { ticket: 5, response: HttpResponse::bad_gateway() },
            SessionAction::CloseStream { stream: 40 },
            SessionAction::Unregister { service_id: b"bakadoduri".to_vec() },
        ]
    );
    // The session's owner passes the unregistration on.
    for act in acts {
        if let SessionAction::Unregister { service_id } = act {
            manager.handle(ServiceManagerMessage::UnregisterService { service_id });
        }
    }
    assert_eq!(
        manager.handle(ServiceManagerMessage::ForwardRequest {
            request: tenant_get("bakadoduri.rachel.test", "/"),
            ticket: 6,
        }),
        ServiceManagerAction::Respond { ticket: 6, response: HttpResponse::not_found() }
    );
}

#[test]
fn second_agent_with_the_same_id_is_turned_away() {
    let mut manager = ServiceManager::new(b"rachel.test".to_vec());
    let mut session = ServiceSession::new(b"bakadoduri".to_vec(), 1 << 20);
    manager.handle(ServiceManagerMessage::RegisterService {
        service_id: b"bakadoduri".to_vec(),
        session: 1,
    });
    for (stream, want) in [(40u64, Vec::new()), (41u64, vec![SessionAction::CloseStream { stream: 41 }])] {
        let claimed = socket_manager_read(b"bakadoduri\0", false).unwrap();
        let action = manager.handle(ServiceManagerMessage::ForwardPrimaryStream {
            service_id: claimed,
            stream,
        });
        assert_eq!(action, ServiceManagerAction::DeliverStream { session: 1, stream });
        assert_eq!(session.on_message(ServiceSessionMessage::RecvPrimaryStream(stream)), want);
    }
}
