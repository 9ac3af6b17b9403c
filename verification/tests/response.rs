use httpie::media::{
    body_kind, content_type, declared_media, find_content_type, header_text, names_content_type,
    BodyKind, MediaMatch,
};
use httpie::error::RenderError;
use httpie::response::{show_value, render_headers, render_status, Response, ResponseHeader};
use reqwest::header::HeaderValue;

fn header(name: &str, value: &[u8]) -> ResponseHeader {
    ResponseHeader { name: name.to_string(), value: value.to_vec() }
}

fn response(headers: Vec<ResponseHeader>, body: &str) -> Response {
    Response {
        version: "HTTP/1.1".to_string(),
        status: "200 OK".to_string(),
        headers,
        body: body.to_string(),
    }
}

fn painted(out: &str, text: &str, on: &str) -> bool {
    out == text || out == format!("{}{}\x1b[0m", on, text)
}

#[test]
fn show_value_gives_text_as_it_is() {
    assert_eq!(show_value(&b"text/html".to_vec()), "text/html");
    assert_eq!(show_value(&b"text/html; charset=utf-8".to_vec()), "text/html; charset=utf-8");
    assert_eq!(show_value(&b"W/\"0815\"".to_vec()), "W/\"0815\"");
    assert_eq!(show_value(&b"back\\slash".to_vec()), "back\\slash");
    assert_eq!(show_value(&vec![9, 32, 126]), "\t ~");
    assert_eq!(show_value(&Vec::new()), "");
}

#[test]
fn show_value_escapes_hidden_bytes() {
    assert_eq!(show_value(&vec![97, 7, 98]), "a\\x7b");
    assert_eq!(show_value(&vec![200, 255, 16, 15]), "\\xc8\\xff\\x10\\xf");
    assert_eq!(show_value(&vec![127]), "\\x7f");
    assert_eq!(show_value(&vec![27, 91]), "\\x1b[");
}

#[test]
fn show_value_of_text_is_what_to_str_gives() {
    let values: Vec<Vec<u8>> = vec![
        b"application/json".to_vec(),
        b"say \"hi\"".to_vec(),
        b"W/\"0815\"".to_vec(),
        Vec::new(),
    ];
    for value in values.iter() {
        let outside = HeaderValue::from_bytes(value).unwrap();
        assert_eq!(show_value(value), outside.to_str().unwrap());
    }
}

#[test]
fn status_is_version_space_status() {
    let out = render_status(&response(Vec::new(), ""));
    assert!(painted(&out, "HTTP/1.1 200 OK", "\x1b[34m"));
    let mut other = response(Vec::new(), "");
    other.version = "HTTP/2.0".to_string();
    other.status = "404 Not Found".to_string();
    assert!(painted(&render_status(&other), "HTTP/2.0 404 Not Found", "\x1b[34m"));
}

#[test]
fn headers_keep_their_order() {
    let lines = render_headers(&response(
        vec![header("server", b"nginx"), header("content-length", b"12"), header("server", b"x")],
        "",
    ));
    assert_eq!(lines.len(), 3);
    assert!(painted(&lines[0].name, "server", "\x1b[32m"));
    assert_eq!(lines[0].value, "nginx");
    assert!(painted(&lines[1].name, "content-length", "\x1b[32m"));
    assert_eq!(lines[1].value, "12");
    assert!(painted(&lines[2].name, "server", "\x1b[32m"));
    assert_eq!(lines[2].value, "x");
    assert!(render_headers(&response(Vec::new(), "")).is_empty());
}

#[test]
fn colours_follow_the_override() {
    let subject = response(vec![header("server", b"nginx")], "");
    colored::control::set_override(true);
    assert_eq!(render_status(&subject), "\x1b[34mHTTP/1.1 200 OK\x1b[0m");
    assert_eq!(render_headers(&subject)[0].name, "\x1b[32mserver\x1b[0m");
    colored::control::set_override(false);
    assert_eq!(render_status(&subject), "HTTP/1.1 200 OK");
    assert_eq!(render_headers(&subject)[0].name, "server");
    colored::control::unset_override();
}

#[test]
fn content_type_name_ignores_case() {
    assert!(names_content_type("content-type"));
    assert!(names_content_type("Content-Type"));
    assert!(names_content_type("CONTENT-TYPE"));
    assert!(!names_content_type("content-typ"));
    assert!(!names_content_type("content-types"));
    assert!(!names_content_type("content_type"));
    assert!(!names_content_type(""));
    assert!(!names_content_type("\u{43}ontent\u{2d}typ\u{c9}"));
}

#[test]
fn first_content_type_is_found() {
    let headers = vec![
        header("server", b"nginx"),
        header("Content-Type", b"text/html"),
        header("content-type", b"application/json"),
    ];
    assert_eq!(find_content_type(&headers), Some(1));
    assert_eq!(find_content_type(&vec![header("server", b"nginx")]), None);
    assert_eq!(find_content_type(&Vec::new()), None);
}

#[test]
fn header_text_asks_for_visible_bytes() {
    assert_eq!(header_text(&b"text/html\t;q=1 ~".to_vec()), Some("text/html\t;q=1 ~".to_string()));
    assert_eq!(header_text(&Vec::new()), Some(String::new()));
    assert_eq!(header_text(&vec![116, 200]), None);
    assert_eq!(header_text(&vec![127]), None);
    assert_eq!(header_text(&vec![10]), None);
}

#[test]
fn header_text_is_what_to_str_gives() {
    let values: Vec<Vec<u8>> = vec![b"text/html".to_vec(), vec![9, 200, 65], vec![65, 255]];
    for value in values.iter() {
        let outside = HeaderValue::from_bytes(value).unwrap();
        assert_eq!(header_text(value), outside.to_str().ok().map(|text| text.to_string()));
    }
}

#[test]
fn declared_media_knows_json_and_html() {
    assert_eq!(
        declared_media(&b"application/json".to_vec()),
        Ok(Some(MediaMatch { json: true, html: false }))
    );
    assert_eq!(
        declared_media(&b"text/html".to_vec()),
        Ok(Some(MediaMatch { json: false, html: true }))
    );
    assert_eq!(
        declared_media(&b"APPLICATION/JSON".to_vec()),
        Ok(Some(MediaMatch { json: true, html: false }))
    );
    assert_eq!(
        declared_media(&b"text/plain".to_vec()),
        Ok(Some(MediaMatch { json: false, html: false }))
    );
    assert_eq!(
        declared_media(&b"image/png".to_vec()),
        Ok(Some(MediaMatch { json: false, html: false }))
    );
}

#[test]
fn declared_media_with_parameters_is_another_type() {
    assert_eq!(
        declared_media(&b"application/json; charset=utf-8".to_vec()),
        Ok(Some(MediaMatch { json: false, html: false }))
    );
    assert_eq!(
        declared_media(&b"text/html; charset=utf-8".to_vec()),
        Ok(Some(MediaMatch { json: false, html: false }))
    );
}

#[test]
fn declared_media_reports_what_is_no_media_type() {
    assert_eq!(declared_media(&b"nonsense".to_vec()), Err(RenderError::ContentTypeInvalid));
    assert_eq!(declared_media(&Vec::new()), Err(RenderError::ContentTypeInvalid));
    assert_eq!(declared_media(&b"/json".to_vec()), Err(RenderError::ContentTypeInvalid));
    assert_eq!(declared_media(&vec![116, 101, 120, 116, 47, 200]), Err(RenderError::ContentTypeNotText));
}

#[test]
fn body_kind_prefers_json() {
    assert_eq!(body_kind(None), BodyKind::Raw);
    assert_eq!(body_kind(Some(MediaMatch { json: false, html: false })), BodyKind::Raw);
    assert_eq!(body_kind(Some(MediaMatch { json: true, html: false })), BodyKind::Json);
    assert_eq!(body_kind(Some(MediaMatch { json: false, html: true })), BodyKind::Html);
    assert_eq!(body_kind(Some(MediaMatch { json: true, html: true })), BodyKind::Json);
}

#[test]
fn content_type_of_a_response() {
    let json = response(
        vec![header("server", b"nginx"), header("content-type", b"application/json")],
        "{}",
    );
    assert_eq!(content_type(&json), Ok(Some(MediaMatch { json: true, html: false })));
    let none = response(vec![header("server", b"nginx")], "hello");
    assert_eq!(content_type(&none), Ok(None));
    let first = response(
        vec![header("content-type", b"text/html"), header("content-type", b"nonsense")],
        "",
    );
    assert_eq!(content_type(&first), Ok(Some(MediaMatch { json: false, html: true })));
    let bad = response(vec![header("content-type", &[200])], "");
    assert_eq!(content_type(&bad), Err(RenderError::ContentTypeNotText));
    let odd = response(vec![header("content-type", b"nonsense")], "");
    assert_eq!(content_type(&odd), Err(RenderError::ContentTypeInvalid));
}

#[test]
fn render_error_messages() {
    assert_eq!(RenderError::ContentTypeNotText.message(), "content type is not text");
    assert_eq!(RenderError::ContentTypeInvalid.message(), "content type is not a media type");
    assert_eq!(RenderError::SyntaxNotFound.message(), "no syntax definition for the body");
    assert_eq!(RenderError::ThemeNotFound.message(), "no colour theme for the body");
}

#[test]
fn colour_is_renewed_behind_a_reset() {
    let mut subject = response(vec![header("a\x1b[0mb\x1b[0m", b"x")], "");
    subject.status = "1\x1b[0m2\x1b[0".to_string();
    colored::control::set_override(true);
    assert_eq!(
        render_status(&subject),
        "\x1b[34mHTTP/1.1 1\x1b[0m\x1b[34m2\x1b[0\x1b[0m"
    );
    assert_eq!(
        render_headers(&subject)[0].name,
        "\x1b[32ma\x1b[0m\x1b[32mb\x1b[0m\x1b[32m\x1b[0m"
    );
    colored::control::set_override(false);
    assert_eq!(render_status(&subject), "HTTP/1.1 1\x1b[0m2\x1b[0");
    assert_eq!(render_headers(&subject)[0].name, "a\x1b[0mb\x1b[0m");
    colored::control::unset_override();
}
