use snippets::http::{
    handle_connection, handle_stream, listen, response_for, Handling, Listen, Method, Request,
    RequestError, Response, Route, Version, INTERNAL_SERVER_ERROR, STATUS_NOT_FOUND, STATUS_OK,
};

#[test]
fn reads_a_request_line() {
    let request = Request::read(Some("GET /index.html HTTP/1.1")).unwrap();
    assert_eq!(request.method, Method::Get);
    assert_eq!(request.uri, "/index.html");
    assert_eq!(request.version, Version::Http1_1);

    let request = Request::read(Some("POST /submit HTTP/2 and more")).unwrap();
    assert_eq!(request.method, Method::Post);
    assert_eq!(request.uri, "/submit");
    assert_eq!(request.version, Version::Http2_0);

    // two spaces in a row hold an empty word between them
    let request = Request::read(Some("GET  HTTP/1.1")).unwrap();
    assert_eq!(request.uri, "");
}

#[test]
fn refuses_a_broken_request_line() {
    assert_eq!(Request::read(None).unwrap_err(), RequestError::Empty);
    assert_eq!(Request::read(Some("")).unwrap_err(), RequestError::Method);
    assert_eq!(Request::read(Some("get / HTTP/1.1")).unwrap_err(), RequestError::Method);
    assert_eq!(Request::read(Some(" GET / HTTP/1.1")).unwrap_err(), RequestError::Method);
    assert_eq!(Request::read(Some("GET")).unwrap_err(), RequestError::Uri);
    assert_eq!(Request::read(Some("GET /")).unwrap_err(), RequestError::Version);
    assert_eq!(Request::read(Some("GET / HTTP/1.0")).unwrap_err(), RequestError::Version);
    assert_eq!(Request::read(Some("GET /  HTTP/1.1")).unwrap_err(), RequestError::Version);
}

#[test]
fn errors_have_their_messages() {
    assert_eq!(RequestError::Empty.message(), "Empty request");
    assert_eq!(RequestError::Method.message(), "Invalid or missing request method");
    assert_eq!(RequestError::Uri.message(), "Missing request URI");
    assert_eq!(RequestError::Version.message(), "Invalid or missing HTTP version");
}

#[test]
fn responses_are_written_out() {
    assert_eq!(
        Response::Success(String::from("<p>hi</p>")).to_string("gone"),
        "HTTP/1.1 200 OK\r\n\r\n<p>hi</p>"
    );
    assert_eq!(Response::NotFound.to_string("gone"), "HTTP/1.1 400 OK\r\n\r\ngone");
    assert_eq!(
        Response::InternalServerError.to_string("gone"),
        "HTTP/1.1 500 Internal Server Error\r\n\r\n"
    );
    assert_eq!(Response::InternalServerError.to_string(""), INTERNAL_SERVER_ERROR);
    assert_eq!(
        Response::TemporaryRedirect(String::from("/")).to_string("gone"),
        "HTTP/1.1 307 Temporary Redirect\r\nLocation: /\r\n\r\n"
    );
}

fn request(method: Method, uri: &str) -> Request {
    Request { method, uri: String::from(uri), version: Version::Http1_1 }
}

#[test]
fn requests_are_routed() {
    assert_eq!(handle_stream(&request(Method::Get, "/")), Route::Hello);
    assert_eq!(handle_stream(&request(Method::Get, "/sleep")), Route::Sleep(5));
    assert_eq!(handle_stream(&request(Method::Get, "/sleepy")), Route::NotFound);
    assert_eq!(handle_stream(&request(Method::Post, "/")), Route::NotFound);

    assert!(matches!(
        response_for(Route::Hello, String::from("page")),
        Response::Success(page) if page == "page"
    ));
    assert!(matches!(
        response_for(Route::Sleep(5), String::new()),
        Response::TemporaryRedirect(uri) if uri == "/"
    ));
    assert!(matches!(response_for(Route::NotFound, String::new()), Response::NotFound));
}

#[test]
fn connections_are_handled_by_prefix() {
    assert_eq!(
        handle_connection("GET / HTTP/1.1\r\n"),
        Handling::Reply { wait_secs: 0, status_line: STATUS_OK, contents: Some("hello.html") }
    );
    assert_eq!(
        handle_connection("GET /sleep HTTP/1.1\r\n"),
        Handling::Reply { wait_secs: 10, status_line: STATUS_OK, contents: None }
    );
    assert_eq!(handle_connection("GET /panic HTTP/1.1\r\n"), Handling::Panic);
    assert_eq!(
        handle_connection("GET /panics HTTP/1.1\r\n"),
        Handling::Reply { wait_secs: 0, status_line: STATUS_NOT_FOUND, contents: Some("404.html") }
    );
    assert_eq!(
        handle_connection(""),
        Handling::Reply { wait_secs: 0, status_line: STATUS_NOT_FOUND, contents: Some("404.html") }
    );
    assert_eq!(STATUS_OK, "HTTP/1.1 200 OK\r\n");
    assert_eq!(STATUS_NOT_FOUND, "HTTP/1.1 404 Not Found\r\n");
}

#[test]
fn accept_loop_stops_when_the_server_is_down() {
    assert_eq!(listen(true, true), Listen::Dispatch);
    assert_eq!(listen(true, false), Listen::Skip);
    assert_eq!(listen(false, true), Listen::Stop);
    assert_eq!(listen(false, false), Listen::Stop);
}
