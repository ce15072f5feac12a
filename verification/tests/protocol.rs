use iracing_client::batch::partition;
use iracing_client::cli::LicenseType;
use iracing_client::error::Error;
use iracing_client::iracing::join_ids;
use iracing_client::iracing::make_link_request;
use iracing_client::iracing::ApiResponse;
use iracing_client::iracing::Body;
use iracing_client::iracing::CsvUser;
use iracing_client::iracing::Hop;
use iracing_client::iracing::IRacingService;
use iracing_client::iracing::License;
use iracing_client::iracing::LinkResponse;
use iracing_client::iracing::LinkStep;
use iracing_client::iracing::LoginAttempt;
use iracing_client::iracing::LoginData;
use iracing_client::iracing::Member;
use iracing_client::iracing::Members;
use iracing_client::iracing::Progress;
use iracing_client::iracing::Reply;
use iracing_client::iracing::Request;
use iracing_client::iracing::Shape;
use iracing_client::report::summarize;
use iracing_client::report::Summary;

fn ok(body: Body) -> Reply {
    Reply::Http { status: 200, body }
}

fn link(url: &str) -> Body {
    Body::Link(LinkResponse { link: url.to_string() })
}

fn payload(members: Vec<Member>) -> Body {
    Body::Payload(ApiResponse::Success { data: Members { members } })
}

fn member(cust_id: u32) -> Member {
    Member {
        cust_id,
        display_name: format!("Driver {}", cust_id),
        licenses: vec![License {
            category: "road".to_string(),
            irating: 1000 + cust_id,
            group_name: "Class A".to_string(),
            safety_rating: "2.5".to_string(),
        }],
    }
}

fn drivers(ids: &[u32]) -> Vec<CsvUser> {
    ids.iter().map(|id| CsvUser { id: *id }).collect()
}

fn session() -> IRacingService {
    let (_, attempt) = IRacingService::login("secret", "a@b.com".to_string()).unwrap();
    attempt.complete(&ok(Body::Unread)).unwrap()
}

#[test]
fn login_asks_the_authentication_endpoint() {
    let (request, _) = IRacingService::login("MyPassWord", "CLUNKY@iracing.Com".to_string()).unwrap();
    assert_eq!(
        request,
        Request::Login {
            url: "https://members-ng.iracing.com/auth".to_string(),
            body: LoginData {
                email: "CLUNKY@iracing.Com".to_string(),
                password: "xGKecAR27ALXNuMLsGaG0v5Q9pSs2tZTZRKNgmHMg+Q=".to_string(),
            },
        }
    );
}

#[test]
fn login_answered_with_200_gives_a_session() {
    let (_, attempt) = IRacingService::login("secret", "a@b.com".to_string()).unwrap();
    let service = attempt.complete(&ok(Body::Unread)).unwrap();
    assert_eq!(service.base_url(), "https://members-ng.iracing.com/");
}

#[test]
fn login_answered_with_503_is_maintenance() {
    let (_, attempt) = IRacingService::login("secret", "a@b.com".to_string()).unwrap();
    let outcome = attempt.complete(&Reply::Http { status: 503, body: Body::Unread });
    assert!(matches!(outcome, Err(Error::DownForMaintenance)));
}

#[test]
fn login_answered_with_503_ignores_the_body() {
    let (_, attempt) = IRacingService::login("secret", "a@b.com".to_string()).unwrap();
    let outcome = attempt.complete(&Reply::Http { status: 503, body: payload(vec![member(1)]) });
    assert!(matches!(outcome, Err(Error::DownForMaintenance)));
}

#[test]
fn login_answered_with_401_is_an_http_error() {
    let (_, attempt) = IRacingService::login("secret", "a@b.com".to_string()).unwrap();
    let outcome = attempt.complete(&Reply::Http { status: 401, body: Body::Unread });
    assert!(matches!(outcome, Err(Error::HttpStatusError(401))));
}

#[test]
fn login_without_an_answer_is_a_transport_error() {
    let (_, attempt) = IRacingService::login("secret", "a@b.com".to_string()).unwrap();
    let outcome = attempt.complete(&Reply::TransportFailure);
    assert!(matches!(outcome, Err(Error::TransportError)));
}

#[test]
fn login_without_an_address_fails() {
    let started = LoginAttempt::begin(None, "a@b.com".to_string(), "token".to_string());
    assert!(matches!(started, Err(Error::UrlError)));
}

#[test]
fn login_with_an_address_forms_the_request() {
    let url = Some("https://x.test/auth".to_string());
    let (request, _) = LoginAttempt::begin(url, "a@b.com".to_string(), "token".to_string()).unwrap();
    assert_eq!(
        request,
        Request::Login {
            url: "https://x.test/auth".to_string(),
            body: LoginData { email: "a@b.com".to_string(), password: "token".to_string() },
        }
    );
}

#[test]
fn three_drivers_are_fetched_and_summarized() {
    let service = session();
    let progress = service.get_driver_details(&drivers(&[101, 102, 103]));
    let (request, fetch) = match progress {
        Progress::Send(request, fetch) => (request, fetch),
        other => panic!("expected a request, got {:?}", other),
    };
    assert_eq!(
        request,
        Request::Members {
            url: "https://members-ng.iracing.com/data/member/get/".to_string(),
            cust_ids: "101,102,103".to_string(),
            include_licenses: true,
        }
    );
    let (request, fetch) = match fetch.resume(ok(link("https://cdn.test/payload/1"))) {
        Progress::Send(request, fetch) => (request, fetch),
        other => panic!("expected a request, got {:?}", other),
    };
    assert_eq!(request, Request::Link { url: "https://cdn.test/payload/1".to_string() });
    let found = vec![Member {
        cust_id: 101,
        display_name: "A".to_string(),
        licenses: vec![License {
            category: "road".to_string(),
            irating: 1500,
            group_name: "Class B".to_string(),
            safety_rating: "3.21".to_string(),
        }],
    }];
    let members = match fetch.resume(ok(payload(found.clone()))) {
        Progress::Done(members) => members,
        other => panic!("expected the members, got {:?}", other),
    };
    assert_eq!(members, found);
    let rows = summarize(&members, LicenseType::Road).unwrap();
    assert_eq!(
        rows,
        vec![Summary {
            id: "101".to_string(),
            name: "A".to_string(),
            irating: "1500".to_string(),
            license: "Class B".to_string(),
            sr: "3.21".to_string(),
        }]
    );
}

#[test]
fn payload_of_unknown_shape_is_an_unknown_response() {
    let service = session();
    let fetch = match service.get_driver_details(&drivers(&[7])) {
        Progress::Send(_, fetch) => fetch,
        other => panic!("expected a request, got {:?}", other),
    };
    let fetch = match fetch.resume(ok(link("https://cdn.test/p"))) {
        Progress::Send(_, fetch) => fetch,
        other => panic!("expected a request, got {:?}", other),
    };
    let outcome = fetch.resume(ok(Body::Payload(ApiResponse::Failure)));
    assert!(matches!(outcome, Progress::Abort(Error::UnknownApiResponseError)));
}

#[test]
fn empty_driver_list_asks_for_nothing() {
    let service = session();
    match service.get_driver_details(&Vec::new()) {
        Progress::Done(members) => assert!(members.is_empty()),
        other => panic!("expected no members, got {:?}", other),
    }
    match session().fetch_from(None, &Vec::new()) {
        Progress::Done(members) => assert!(members.is_empty()),
        other => panic!("expected no members, got {:?}", other),
    }
}

#[test]
fn fetch_without_an_address_fails() {
    let outcome = session().fetch_from(None, &vec![1, 2, 3]);
    assert!(matches!(outcome, Progress::Abort(Error::UrlError)));
}

#[test]
fn twenty_five_drivers_make_batches_of_10_10_5() {
    let ids: Vec<u32> = (1..=25).collect();
    let batches = partition(&ids);
    let sizes: Vec<usize> = batches.iter().map(|batch| batch.len()).collect();
    assert_eq!(sizes, vec![10, 10, 5]);
    assert_eq!(batches.concat(), ids);
}

#[test]
fn batches_keep_order_and_lose_nothing() {
    for n in 0..=45u32 {
        let ids: Vec<u32> = (0..n).map(|i| 1000 - i).collect();
        let batches = partition(&ids);
        assert_eq!(batches.len(), (n as usize + 9) / 10);
        assert_eq!(batches.concat(), ids);
        for (k, batch) in batches.iter().enumerate() {
            assert!(!batch.is_empty());
            assert!(batch.len() <= 10);
            if k + 1 < batches.len() {
                assert_eq!(batch.len(), 10);
            }
        }
    }
}

#[test]
fn batches_of_exact_multiples() {
    let ids: Vec<u32> = (0..20).collect();
    let batches = partition(&ids);
    assert_eq!(batches, vec![(0..10).collect::<Vec<u32>>(), (10..20).collect::<Vec<u32>>()]);
    assert_eq!(partition(&Vec::new()), Vec::<Vec<u32>>::new());
    assert_eq!(partition(&vec![5]), vec![vec![5]]);
}

#[test]
fn identifiers_are_joined_by_commas() {
    assert_eq!(join_ids(&Vec::new()), "");
    assert_eq!(join_ids(&vec![0]), "0");
    assert_eq!(join_ids(&vec![101, 102, 103]), "101,102,103");
    assert_eq!(join_ids(&vec![4294967295, 1, 10]), "4294967295,1,10");
}

#[test]
fn twenty_five_drivers_are_fetched_in_three_batches() {
    let ids: Vec<u32> = (1..=25).collect();
    let mut progress = session().fetch_from(Some("https://api.test/members".to_string()), &ids);
    let mut asked: Vec<String> = Vec::new();
    let mut followed: Vec<String> = Vec::new();
    let mut batch: u32 = 0;
    let members = loop {
        match progress {
            Progress::Send(Request::Members { url, cust_ids, include_licenses }, fetch) => {
                assert_eq!(url, "https://api.test/members");
                assert!(include_licenses);
                asked.push(cust_ids);
                progress = fetch.resume(ok(link(&format!("https://cdn.test/{}", batch))));
            }
            Progress::Send(Request::Link { url }, fetch) => {
                followed.push(url);
                let first = batch * 10 + 1;
                let last = (first + 9).min(25);
                progress = fetch.resume(ok(payload((first..=last).map(member).collect())));
                batch += 1;
            }
            Progress::Send(request, _) => panic!("unexpected request {:?}", request),
            Progress::Done(members) => break members,
            Progress::Abort(e) => panic!("aborted with {:?}", e),
        }
    };
    assert_eq!(
        asked,
        vec!["1,2,3,4,5,6,7,8,9,10", "11,12,13,14,15,16,17,18,19,20", "21,22,23,24,25"]
    );
    assert_eq!(followed, vec!["https://cdn.test/0", "https://cdn.test/1", "https://cdn.test/2"]);
    assert_eq!(members, (1..=25).map(member).collect::<Vec<Member>>());
}

#[test]
fn members_come_in_the_order_of_the_batches() {
    let ids: Vec<u32> = (1..=12).collect();
    let fetch = match session().fetch_from(Some("https://api.test/m".to_string()), &ids) {
        Progress::Send(_, fetch) => fetch,
        other => panic!("expected a request, got {:?}", other),
    };
    let fetch = match fetch.resume(ok(link("https://cdn.test/a"))) {
        Progress::Send(_, fetch) => fetch,
        other => panic!("expected a request, got {:?}", other),
    };
    let fetch = match fetch.resume(ok(payload(vec![member(9), member(3)]))) {
        Progress::Send(Request::Members { cust_ids, .. }, fetch) => {
            assert_eq!(cust_ids, "11,12");
            fetch
        }
        other => panic!("expected the next query, got {:?}", other),
    };
    let fetch = match fetch.resume(ok(link("https://cdn.test/b"))) {
        Progress::Send(_, fetch) => fetch,
        other => panic!("expected a request, got {:?}", other),
    };
    match fetch.resume(ok(payload(vec![member(12), member(11)]))) {
        Progress::Done(members) => {
            assert_eq!(members, vec![member(9), member(3), member(12), member(11)]);
        }
        other => panic!("expected the members, got {:?}", other),
    }
}

#[test]
fn failure_in_a_later_batch_aborts_everything() {
    let ids: Vec<u32> = (1..=15).collect();
    let fetch = match session().fetch_from(Some("https://api.test/m".to_string()), &ids) {
        Progress::Send(_, fetch) => fetch,
        other => panic!("expected a request, got {:?}", other),
    };
    let fetch = match fetch.resume(ok(link("https://cdn.test/a"))) {
        Progress::Send(_, fetch) => fetch,
        other => panic!("expected a request, got {:?}", other),
    };
    let fetch = match fetch.resume(ok(payload((1..=10).map(member).collect()))) {
        Progress::Send(_, fetch) => fetch,
        other => panic!("expected a request, got {:?}", other),
    };
    let outcome = fetch.resume(Reply::Http { status: 500, body: Body::Unread });
    assert!(matches!(outcome, Progress::Abort(Error::HttpStatusError(500))));
}

#[test]
fn maintenance_on_either_hop_aborts() {
    let ids: Vec<u32> = vec![1];
    let fetch = match session().fetch_from(Some("https://api.test/m".to_string()), &ids) {
        Progress::Send(_, fetch) => fetch,
        other => panic!("expected a request, got {:?}", other),
    };
    let outcome = fetch.resume(Reply::Http { status: 503, body: link("https://cdn.test/a") });
    assert!(matches!(outcome, Progress::Abort(Error::DownForMaintenance)));

    let fetch = match session().fetch_from(Some("https://api.test/m".to_string()), &ids) {
        Progress::Send(_, fetch) => fetch,
        other => panic!("expected a request, got {:?}", other),
    };
    let fetch = match fetch.resume(ok(link("https://cdn.test/a"))) {
        Progress::Send(_, fetch) => fetch,
        other => panic!("expected a request, got {:?}", other),
    };
    let outcome = fetch.resume(Reply::Http { status: 503, body: payload(vec![member(1)]) });
    assert!(matches!(outcome, Progress::Abort(Error::DownForMaintenance)));
}

#[test]
fn transport_failure_aborts() {
    let fetch = match session().fetch_from(Some("https://api.test/m".to_string()), &vec![1]) {
        Progress::Send(_, fetch) => fetch,
        other => panic!("expected a request, got {:?}", other),
    };
    assert!(matches!(fetch.resume(Reply::TransportFailure), Progress::Abort(Error::TransportError)));
}

#[test]
fn link_step_follows_the_link() {
    assert_eq!(
        make_link_request(Hop::Link, ok(link("https://cdn.test/x"))),
        LinkStep::Follow(Request::Link { url: "https://cdn.test/x".to_string() })
    );
}

#[test]
fn link_step_hands_out_the_payload() {
    assert_eq!(
        make_link_request(Hop::Payload, ok(payload(vec![member(4)]))),
        LinkStep::Done(ApiResponse::Success { data: Members { members: vec![member(4)] } })
    );
    assert_eq!(
        make_link_request(Hop::Payload, ok(Body::Payload(ApiResponse::Failure))),
        LinkStep::Done(ApiResponse::Failure)
    );
}

#[test]
fn link_step_wants_the_shape_of_its_hop() {
    let wrong = LinkStep::Abort(Error::DeserializationError);
    assert_eq!(make_link_request(Hop::Link, ok(Body::Malformed)), wrong);
    assert_eq!(make_link_request(Hop::Link, ok(Body::Unread)), wrong);
    assert_eq!(make_link_request(Hop::Link, ok(payload(vec![member(4)]))), wrong);
    assert_eq!(make_link_request(Hop::Payload, ok(Body::Malformed)), wrong);
    assert_eq!(make_link_request(Hop::Payload, ok(Body::Unread)), wrong);
    assert_eq!(make_link_request(Hop::Payload, ok(link("https://cdn.test/x"))), wrong);
}

#[test]
fn link_step_looks_at_the_status_first() {
    assert_eq!(
        make_link_request(Hop::Link, Reply::Http { status: 503, body: Body::Malformed }),
        LinkStep::Abort(Error::DownForMaintenance)
    );
    assert_eq!(
        make_link_request(Hop::Payload, Reply::Http { status: 404, body: payload(vec![member(4)]) }),
        LinkStep::Abort(Error::HttpStatusError(404))
    );
    assert_eq!(make_link_request(Hop::Link, Reply::TransportFailure), LinkStep::Abort(Error::TransportError));
}

#[test]
fn body_is_read_as_the_request_asks() {
    let login = Request::Login {
        url: "https://x.test/auth".to_string(),
        body: LoginData { email: "a@b.c".to_string(), password: "t".to_string() },
    };
    let query = Request::Members {
        url: "https://x.test/m".to_string(),
        cust_ids: "1".to_string(),
        include_licenses: true,
    };
    let follow = Request::Link { url: "https://cdn.test/p".to_string() };
    assert_eq!(login.awaits(200), Shape::Nothing);
    assert_eq!(query.awaits(200), Shape::Link);
    assert_eq!(follow.awaits(200), Shape::Payload);
    assert_eq!(follow.awaits(302), Shape::Payload);
}

#[test]
fn body_is_not_read_under_a_failing_status() {
    let query = Request::Members {
        url: "https://x.test/m".to_string(),
        cust_ids: "1".to_string(),
        include_licenses: true,
    };
    let follow = Request::Link { url: "https://cdn.test/p".to_string() };
    for status in [400, 404, 500, 503, 599] {
        assert_eq!(query.awaits(status), Shape::Nothing);
        assert_eq!(follow.awaits(status), Shape::Nothing);
    }
}
