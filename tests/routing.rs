use simple_social::method::Method;
use simple_social::path::join_paths;
use simple_social::response::{not_found, ok, response, STATUS_NOT_FOUND, STATUS_OK};
use simple_social::server::{RequestHandler, Router, Server};

fn buffer(raw: &[u8]) -> [u8; 1024] {
    let mut buf = [0u8; 1024];
    buf[..raw.len()].copy_from_slice(raw);
    buf
}

#[test]
fn root_request_goes_to_root_handler() {
    let mut server: Server<char> = Server::new("127.0.0.1:3000", 4);
    server.get("/", 'a').get("/x", 'b');
    let buf = buffer(b"GET / HTTP/1.1\r\nHost: h\r\n\r\n");
    let found = server.find_route(&buf);
    assert_eq!(found, Some(0));
    assert_eq!(*server.handler(found.unwrap()), 'a');
}

#[test]
fn second_route_taken_by_its_own_line() {
    let mut server: Server<char> = Server::new("127.0.0.1:3000", 4);
    server.get("/", 'a').get("/x", 'b');
    let buf = buffer(b"GET /x HTTP/1.1\r\nHost: h\r\n\r\n");
    let found = server.find_route(&buf);
    assert_eq!(found, Some(1));
    assert_eq!(*server.handler(1), 'b');
}

#[test]
fn wrong_method_falls_back() {
    let mut server: Server<char> = Server::new("127.0.0.1:3000", 4);
    server.get("/", 'a');
    let buf = buffer(b"POST / HTTP/1.1\r\nHost: h\r\n\r\n");
    assert_eq!(server.find_route(&buf), None);
}

#[test]
fn unknown_path_falls_back() {
    let mut server: Server<char> = Server::new("127.0.0.1:3000", 4);
    server.get("/", 'a').post("/form", 'b').put("/item", 'c').delete("/item", 'd');
    assert_eq!(server.find_route(&buffer(b"GET /nothing HTTP/1.1\r\n")), None);
    assert_eq!(server.find_route(&buffer(b"GET / HTTP/1.0\r\n")), None);
    assert_eq!(server.find_route(&buffer(b"GET /")), None);
    assert_eq!(server.find_route(b""), None);
}

#[test]
fn each_method_matches_its_token() {
    let mut server: Server<char> = Server::new("h:1", 4);
    server.get("/item", 'g').post("/item", 'p').put("/item", 'u').delete("/item", 'd');
    assert_eq!(server.find_route(&buffer(b"GET /item HTTP/1.1\r\n")), Some(0));
    assert_eq!(server.find_route(&buffer(b"POST /item HTTP/1.1\r\n")), Some(1));
    assert_eq!(server.find_route(&buffer(b"PUT /item HTTP/1.1\r\n")), Some(2));
    assert_eq!(server.find_route(&buffer(b"DELETE /item HTTP/1.1\r\n")), Some(3));
    assert_eq!(server.route_method(3), Method::Delete);
}

#[test]
fn first_registered_route_wins() {
    let mut server: Server<char> = Server::new("h:1", 4);
    server.get("/dup", '1').get("/dup", '2');
    let buf = buffer(b"GET /dup HTTP/1.1\r\nAccept: */*\r\n\r\n");
    assert_eq!(server.find_route(&buf), Some(0));
    assert_eq!(*server.handler(0), '1');
}

#[test]
fn query_string_does_not_match_bare_path() {
    let mut server: Server<char> = Server::new("h:1", 4);
    server.get("/", 'a');
    assert_eq!(server.find_route(&buffer(b"GET /?q=1 HTTP/1.1\r\n")), None);
}

#[test]
fn mounted_route_reachable_only_under_prefix() {
    let mut user: Router<char> = Router::new();
    user.get("/profile", 'p');
    let mut server: Server<char> = Server::new("h:1", 4);
    server.mount("/user", user);
    assert_eq!(server.route_count(), 1);
    assert_eq!(server.route_path(0), b"/user/profile");
    assert_eq!(server.route_method(0), Method::Get);
    assert_eq!(server.find_route(&buffer(b"GET /user/profile HTTP/1.1\r\n")), Some(0));
    assert_eq!(server.find_route(&buffer(b"GET /profile HTTP/1.1\r\n")), None);
    assert_eq!(server.find_route(&buffer(b"GET /user HTTP/1.1\r\n")), None);
}

#[test]
fn mount_keeps_order_after_existing_routes() {
    let mut sub: Router<u8> = Router::new();
    sub.get("/a", 1).post("b/", 2).put("", 3).delete("//c//d", 4);
    let mut server: Server<u8> = Server::new("h:1", 4);
    server.get("/", 0);
    server.mount("/api/", sub);
    assert_eq!(server.route_count(), 5);
    assert_eq!(server.route_path(1), b"/api/a");
    assert_eq!(server.route_path(2), b"/api/b");
    assert_eq!(server.route_path(3), b"/api");
    assert_eq!(server.route_path(4), b"/api/c/d");
    assert_eq!(server.route_method(2), Method::Post);
    assert_eq!(*server.handler(4), 4);
}

#[test]
fn join_paths_separators() {
    assert_eq!(join_paths(b"/user", b"/profile"), b"/user/profile".to_vec());
    assert_eq!(join_paths(b"user/", b"profile/"), b"/user/profile".to_vec());
    assert_eq!(join_paths(b"//user//", b"//profile//"), b"/user/profile".to_vec());
    assert_eq!(join_paths(b"user", b"profile"), b"/user/profile".to_vec());
    assert_eq!(join_paths(b"", b""), b"/".to_vec());
    assert_eq!(join_paths(b"/", b"/"), b"/".to_vec());
    assert_eq!(join_paths(b"", b"/x"), b"/x".to_vec());
    assert_eq!(join_paths(b"/a/b", b"c"), b"/a/b/c".to_vec());
}

#[test]
fn server_pool_size_raised_to_two() {
    let s0: Server<u8> = Server::new("127.0.0.1:3000", 0);
    let s1: Server<u8> = Server::new("127.0.0.1:3000", 1);
    let s4: Server<u8> = Server::new("127.0.0.1:3000", 4);
    assert_eq!(s0.pool_size(), 2);
    assert_eq!(s1.pool_size(), 2);
    assert_eq!(s4.pool_size(), 4);
    assert_eq!(s4.addr(), "127.0.0.1:3000");
    assert_eq!(s4.route_count(), 0);
}

#[test]
fn method_tokens() {
    assert_eq!(Method::Get.token(), b"GET".to_vec());
    assert_eq!(Method::Post.token(), b"POST".to_vec());
    assert_eq!(Method::Put.token(), b"PUT".to_vec());
    assert_eq!(Method::Delete.token(), b"DELETE".to_vec());
}

#[test]
fn fallback_response_carries_body_unmodified() {
    let body = b"<h1>Not here</h1>";
    let r = not_found(body);
    assert_eq!(r, b"HTTP/1.1 404 NOT_FOUND\r\nContent-Length: 17\r\n\r\n<h1>Not here</h1>".to_vec());
    assert!(r.ends_with(body));
}

#[test]
fn ok_response_exact_bytes() {
    assert_eq!(ok(b""), b"HTTP/1.1 200 OK\r\nContent-Length: 0\r\n\r\n".to_vec());
    let body = vec![b'x'; 1234];
    let r = ok(&body);
    let head = b"HTTP/1.1 200 OK\r\nContent-Length: 1234\r\n\r\n";
    assert_eq!(&r[..head.len()], &head[..]);
    assert_eq!(r.len(), head.len() + 1234);
}

#[test]
fn response_with_any_status() {
    let r = response("HTTP/1.1 500 INTERNAL_SERVER_ERROR", b"oops");
    assert_eq!(r, b"HTTP/1.1 500 INTERNAL_SERVER_ERROR\r\nContent-Length: 4\r\n\r\noops".to_vec());
    assert_eq!(STATUS_OK, "HTTP/1.1 200 OK");
    assert_eq!(STATUS_NOT_FOUND, "HTTP/1.1 404 NOT_FOUND");
}
