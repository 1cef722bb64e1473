use rachel::dispatch::{
    handle_incoming_request, handle_root_request, registration_outcome, AdminStep, Incoming,
    MAX_REGISTRATION_ATTEMPTS,
};
use rachel::keygen::check_phonetic_key;
use rachel::manager::{ServiceManager, ServiceManagerAction, ServiceManagerMessage};
use rachel::message::{Header, HttpRequest, HttpResponse, HttpVersion};

fn request_for(host: Option<&[u8]>) -> HttpRequest {
    let mut headers = vec![Header { name: b"accept".to_vec(), value: b"*/*".to_vec() }];
    if let Some(h) = host {
        headers.push(Header { name: b"host".to_vec(), value: h.to_vec() });
    }
    HttpRequest { method: b"GET".to_vec(), target: b"/".to_vec(), headers, body: Vec::new() }
}

#[test]
fn root_domain_is_the_admin_surface() {
    assert_eq!(handle_incoming_request(&request_for(Some(b"rachel.test")), b"rachel.test"), Incoming::Admin);
}

#[test]
fn anything_else_is_a_tenant() {
    let domain = b"rachel.test";
    assert_eq!(handle_incoming_request(&request_for(Some(b"a.rachel.test")), domain), Incoming::Tenant);
    assert_eq!(handle_incoming_request(&request_for(Some(b"Rachel.test")), domain), Incoming::Tenant);
    assert_eq!(handle_incoming_request(&request_for(Some(b"rachel.test:80")), domain), Incoming::Tenant);
    assert_eq!(handle_incoming_request(&request_for(Some(b"")), domain), Incoming::Tenant);
    assert_eq!(handle_incoming_request(&request_for(None), domain), Incoming::Tenant);
}

#[test]
fn post_start_begins_a_registration() {
    match handle_root_request(b"POST", b"/start") {
        AdminStep::Register { service_id, attempt } => {
            assert_eq!(attempt, 1);
            assert_eq!(service_id.len(), 10);
            assert!(service_id.iter().all(|b| b.is_ascii_lowercase()));
            assert!(check_phonetic_key(&service_id));
        }
        other => panic!("unexpected step {:?}", other),
    }
}

#[test]
fn other_admin_requests_get_404() {
    let not_found = AdminStep::Reply(HttpResponse {
        version: HttpVersion::Http11,
        status: 404,
        headers: Vec::new(),
        body: b"Hello World".to_vec(),
    });
    assert_eq!(handle_root_request(b"GET", b"/other"), not_found);
    assert_eq!(handle_root_request(b"GET", b"/start"), not_found);
    assert_eq!(handle_root_request(b"POST", b"/"), not_found);
    assert_eq!(handle_root_request(b"POST", b"/start/"), not_found);
    assert_eq!(handle_root_request(b"post", b"/start"), not_found);
    assert_eq!(handle_root_request(b"", b""), not_found);
}

#[test]
fn accepted_id_is_the_body_of_a_200() {
    let want = AdminStep::Reply(HttpResponse {
        version: HttpVersion::Http11,
        status: 200,
        headers: Vec::new(),
        body: b"bakadoduri".to_vec(),
    });
    assert_eq!(registration_outcome(b"bakadoduri".to_vec(), 1, true), want);
    assert_eq!(registration_outcome(b"bakadoduri".to_vec(), 8, true), want);
}

#[test]
fn refused_id_is_retried_with_a_new_one() {
    for attempt in 1..MAX_REGISTRATION_ATTEMPTS {
        match registration_outcome(b"bakadoduri".to_vec(), attempt, false) {
            AdminStep::Register { service_id, attempt: next } => {
                assert_eq!(next, attempt + 1);
                assert!(check_phonetic_key(&service_id));
            }
            other => panic!("unexpected step {:?}", other),
        }
    }
}

#[test]
fn registration_gives_up_with_500() {
    assert_eq!(MAX_REGISTRATION_ATTEMPTS, 8);
    assert_eq!(
        registration_outcome(b"bakadoduri".to_vec(), 8, false),
        AdminStep::Reply(HttpResponse::internal_error())
    );
    assert_eq!(
        registration_outcome(b"bakadoduri".to_vec(), 9, false),
        AdminStep::Reply(HttpResponse::internal_error())
    );
    assert_eq!(HttpResponse::internal_error().status, 500);
}

#[test]
fn registration_against_a_manager() {
    let mut m = ServiceManager::new(b"rachel.test".to_vec());
    let mut step = handle_root_request(b"POST", b"/start");
    let mut rounds = 0;
    let reply = loop {
        rounds += 1;
        assert!(rounds <= 9);
        match step {
            AdminStep::Register { service_id, attempt } => {
                let action = m.handle(ServiceManagerMessage::RegisterService {
                    service_id: service_id.clone(),
                    session: 1,
                });
                let accepted = action == ServiceManagerAction::Registered { session: 1 };
                step = registration_outcome(service_id, attempt, accepted);
            }
            AdminStep::Reply(r) => break r,
        }
    };
    assert_eq!(reply.status, 200);
    assert!(check_phonetic_key(&reply.body));
    assert_eq!(m.lookup(&reply.body), Some(1));
}
