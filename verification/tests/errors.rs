use smugdancer::common::{
    error_response, Error, ErrorMessage, ErrorResponse, BAD_REQUEST, INTERNAL_SERVER_ERROR,
    TOO_MANY_REQUESTS,
};
use std::sync::Arc;

#[test]
fn status_constants_have_their_http_values() {
    assert_eq!(BAD_REQUEST, 400);
    assert_eq!(TOO_MANY_REQUESTS, 429);
    assert_eq!(INTERNAL_SERVER_ERROR, 500);
}

#[test]
fn speed_errors_are_bad_requests() {
    assert_eq!(Error::SpeedTooFast.status_code(), 400);
    assert_eq!(Error::SpeedTooSlow.status_code(), 400);
}

#[test]
fn every_other_error_is_a_server_error() {
    let errors = vec![
        Error::Encoder("no such file".to_string()),
        Error::EncoderExitCode,
        Error::CacheDb("locked".to_string()),
        Error::DbQuery("cancelled".to_string()),
        Error::CannotReadGif("denied".to_string()),
        Error::CannotWriteGif("disk full".to_string()),
        Error::GifServiceOffline,
        Error::EncodingJobExited,
        Error::InvalidUtf8,
        Error::ClockWentBackwards,
        Error::DirSetup("denied".to_string()),
        Error::CollectGarbage("gone".to_string()),
    ];
    for error in errors {
        assert_eq!(error.status_code(), 500, "{:?}", error);
    }
}

#[test]
fn failed_render_has_the_status_of_its_cause() {
    assert_eq!(Error::RenderFailed(Arc::new(Error::SpeedTooFast)).status_code(), 400);
    assert_eq!(Error::RenderFailed(Arc::new(Error::SpeedTooSlow)).status_code(), 400);
    assert_eq!(Error::RenderFailed(Arc::new(Error::EncoderExitCode)).status_code(), 500);
    let nested = Error::RenderFailed(Arc::new(Error::RenderFailed(Arc::new(Error::SpeedTooFast))));
    assert_eq!(nested.status_code(), 400);
}

#[test]
fn messages_of_plain_errors() {
    assert_eq!(
        Error::SpeedTooFast.message(),
        "Hat Kid got incarcerated for speeding on a highway."
    );
    assert_eq!(Error::SpeedTooSlow.message(), "yawn\u{2026}");
    assert_eq!(
        Error::EncoderExitCode.message(),
        "GIF encoder finished with a non-zero exit code"
    );
    assert_eq!(
        Error::GifServiceOffline.message(),
        "Cannot send request to GIF service because it is offline (did the thread panic?)"
    );
    assert_eq!(
        Error::EncodingJobExited.message(),
        "Internal encoding job failure (did not receive rendered GIF)"
    );
    assert_eq!(Error::InvalidUtf8.message(), "Invalid UTF-8");
    assert_eq!(Error::ClockWentBackwards.message(), "System clock went backwards");
}

#[test]
fn messages_of_errors_with_a_cause() {
    assert_eq!(Error::Encoder("boom".to_string()).message(), "GIF encoding process: boom");
    assert_eq!(Error::CacheDb("boom".to_string()).message(), "Cache database: boom");
    assert_eq!(Error::DbQuery("boom".to_string()).message(), "Database query: boom");
    assert_eq!(
        Error::CannotReadGif("boom".to_string()).message(),
        "Cannot read rendered GIF: boom"
    );
    assert_eq!(
        Error::CannotWriteGif("boom".to_string()).message(),
        "Cannot write rendered GIF: boom"
    );
    assert_eq!(Error::DirSetup("boom".to_string()).message(), "Directory cannot be set up: boom");
    assert_eq!(
        Error::CollectGarbage("boom".to_string()).message(),
        "Cache garbage collection I/O: boom"
    );
    assert_eq!(
        Error::RenderFailed(Arc::new(Error::EncoderExitCode)).message(),
        "Render failed: GIF encoder finished with a non-zero exit code"
    );
}

#[test]
fn response_of_a_plain_error() {
    let response = Error::EncoderExitCode.to_response();
    assert_eq!(response.status, 500);
    assert_eq!(response.body.error, "GIF encoder finished with a non-zero exit code");
}

#[test]
fn response_of_a_failed_render_shows_a_bad_request_as_it_is() {
    let response = Error::RenderFailed(Arc::new(Error::SpeedTooFast)).to_response();
    assert_eq!(response.status, 400);
    assert_eq!(response.body.error, "Hat Kid got incarcerated for speeding on a highway.");
    let response = Error::RenderFailed(Arc::new(Error::SpeedTooSlow)).to_response();
    assert_eq!(response.status, 400);
    assert_eq!(response.body.error, "yawn\u{2026}");
}

#[test]
fn response_of_a_failed_render_wraps_a_server_error() {
    let response = Error::RenderFailed(Arc::new(Error::Encoder("boom".to_string()))).to_response();
    assert_eq!(response.status, 500);
    assert_eq!(response.body.error, "Render failed: GIF encoding process: boom");
}

#[test]
fn error_response_keeps_status_and_text() {
    let response = error_response(418, "teapot".to_string());
    assert_eq!(
        response,
        ErrorResponse { status: 418, body: ErrorMessage { error: "teapot".to_string() } }
    );
}
