use haxonite::error::HaxoniteError;

fn name() -> String {
    "show".to_string()
}

#[test]
fn messages_of_every_error() {
    assert_eq!(
        HaxoniteError::Io("NotFound".to_string(), "config.toml: No such file".to_string(), "entity not found".to_string()).message(),
        "NotFound: config.toml: No such file"
    );
    assert_eq!(
        HaxoniteError::NoRequestDefined.message(),
        "NoRequestDefined error: No request defined in config.toml"
    );
    assert_eq!(
        HaxoniteError::NoPathDefined(name()).message(),
        "NoPathDefined error: No path defined for show request in config.toml"
    );
    assert_eq!(
        HaxoniteError::NoResponseDefined(name()).message(),
        "NoResponseDefined error: No response defined for show request in config.toml"
    );
    assert_eq!(
        HaxoniteError::ResponseDoesNotExist(name()).message(),
        "NoResponseDefined error: Response file defined for show request in config.toml does not exist"
    );
    assert_eq!(
        HaxoniteError::InvalidHTTPStatus(name(), 700).message(),
        "InvalidHTTPStatus: Status 700 defined for show request in config.toml is not a valid HTTP status"
    );
    assert_eq!(
        HaxoniteError::InvalidHTTPMethod(name()).message(),
        "InvalidHTTPMethod error: Invalid HTTP method defined for show request in config.toml"
    );
    assert_eq!(
        HaxoniteError::InvalidType(name()).message(),
        "InvalidType error: Invalid type defined for show request in config.toml"
    );
}

#[test]
fn status_numbers_are_written_in_decimal() {
    for (status, text) in [(0u16, "0"), (7, "7"), (42, "42"), (600, "600"), (65535, "65535")] {
        let expected = format!(
            "InvalidHTTPStatus: Status {} defined for x request in config.toml is not a valid HTTP status",
            text
        );
        assert_eq!(HaxoniteError::InvalidHTTPStatus("x".to_string(), status).message(), expected);
    }
}

#[test]
fn descriptions_of_every_error() {
    assert_eq!(HaxoniteError::Io("k".to_string(), "pipe closed".to_string(), "broken pipe".to_string()).description(), "broken pipe");
    assert_eq!(HaxoniteError::NoRequestDefined.description(), "No request defined in config.toml");
    assert_eq!(
        HaxoniteError::NoPathDefined(name()).description(),
        "No path defined for request in config.toml"
    );
    assert_eq!(
        HaxoniteError::NoResponseDefined(name()).description(),
        "No response defined for request in config.toml"
    );
    assert_eq!(
        HaxoniteError::ResponseDoesNotExist(name()).description(),
        "Response file define in config.toml does not exist"
    );
    assert_eq!(HaxoniteError::InvalidHTTPStatus(name(), 1).description(), "InvalidHTTPStatus");
    assert_eq!(HaxoniteError::InvalidHTTPMethod(name()).description(), "InvalidHTTPMethod");
    assert_eq!(HaxoniteError::InvalidType(name()).description(), "InvalidType");
}

#[test]
fn only_io_errors_have_a_cause() {
    let io = HaxoniteError::Io("k".to_string(), "gone".to_string(), "not found".to_string());
    assert_eq!(io.cause(), Some(&"gone".to_string()));
    assert_eq!(HaxoniteError::NoRequestDefined.cause(), None);
    assert_eq!(HaxoniteError::InvalidType(name()).cause(), None);
    assert_eq!(HaxoniteError::InvalidHTTPStatus(name(), 99).cause(), None);
}
