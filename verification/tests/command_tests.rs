use nu_plugin_http_serve::address::{base_directory_failure, bind_failure, BindTarget};
use nu_plugin_http_serve::command::{ArgumentShape, HttpServe};

#[test]
fn command_name_and_description() {
    let command = HttpServe;
    assert_eq!(command.name(), "http serve");
    assert_eq!(
        command.description(),
        "Start an HTTP server that evaluates a closure for each request"
    );
    assert_eq!(command.stopped_message(), "Server stopped");
}

#[test]
fn command_takes_an_address_and_a_closure() {
    let arguments = HttpServe.arguments();
    assert_eq!(arguments.len(), 2);
    assert_eq!(arguments[0].name, "address");
    assert_eq!(arguments[0].shape, ArgumentShape::Text);
    assert_eq!(arguments[1].name, "closure");
    assert_eq!(arguments[1].shape, ArgumentShape::Closure);
    assert_eq!(arguments[1].description, "The closure to evaluate for each HTTP request");
}

#[test]
fn bind_failures_name_the_target() {
    let tcp = BindTarget::Tcp { address: "127.0.0.1:80".to_string() };
    assert_eq!(
        bind_failure(&tcp, "permission denied").message,
        "Failed to bind to TCP 127.0.0.1:80: permission denied"
    );
    let unix = BindTarget::UnixPath { path: "/run/x.sock".to_string() };
    assert_eq!(
        bind_failure(&unix, "address in use").message,
        "Failed to bind to Unix socket /run/x.sock: address in use"
    );
    assert_eq!(
        base_directory_failure("gone").message,
        "Failed to get current directory: gone"
    );
}
