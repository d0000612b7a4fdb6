use scheduler::common::{CommonServer, Reply, ReplyView, Request, RequestView, Server};

struct TestServer {
    served: usize,
}

impl Server for TestServer {
    fn ready(&self) -> bool {
        true
    }

    fn handles(&self, _request: RequestView, _reply: ReplyView, _after: &Self) -> bool {
        true
    }

    fn serve(&mut self, _request: &Request) -> Reply {
        self.served += 1;
        Reply::new(200, "test")
    }
}

#[test]
fn should_route_health_endpoint() {
    let mut server = CommonServer::new(TestServer { served: 0 });
    let request = Request::new("GET", "/health", "".as_bytes().to_vec());

    let result = server.serve(&request);

    assert_eq!(result.status, 200);
    assert_eq!(result.body, "healthy");
}

#[test]
fn should_route_custom_server_endpoint() {
    let mut server = CommonServer::new(TestServer { served: 0 });
    let request = Request::new("GET", "/some/path", "".as_bytes().to_vec());

    let result = server.serve(&request);

    assert_eq!(result.status, 200);
    assert_eq!(result.body, "test");
}

#[test]
fn health_check_is_a_get() {
    let mut server = CommonServer::new(TestServer { served: 0 });
    let request = Request::new("POST", "/health", "".as_bytes().to_vec());

    let result = server.serve(&request);

    assert_eq!(result.body, "test");
}

#[test]
fn health_check_matches_the_whole_path() {
    assert!(Request::new("GET", "/health", Vec::new()).is_health_check());
    assert!(!Request::new("GET", "/health/", Vec::new()).is_health_check());
    assert!(!Request::new("GET", "/healthy", Vec::new()).is_health_check());
    assert!(!Request::new("get", "/health", Vec::new()).is_health_check());
}

#[test]
fn fixed_replies_carry_their_status_and_text() {
    assert_eq!(Reply::healthy().status, 200);
    assert_eq!(Reply::healthy().body, "healthy");
    assert_eq!(Reply::bad_request().status, 400);
    assert_eq!(Reply::bad_request().body, "Failed to parse input");
    assert_eq!(Reply::internal_error().status, 500);
    assert_eq!(Reply::internal_error().body, "Internal error");
}
