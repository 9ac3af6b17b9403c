use httpie::error::RenderError;
use httpie::highlight::{lines_with_endings, Assets, Rgb, Span};
use httpie::media::{BodyKind, MediaMatch};
use httpie::render::{
    escape_spans, headers_block, render, render_body, render_body_with, render_with,
    status_block, Body, Rendered,
};
use httpie::response::{HeaderLine, Response, ResponseHeader};

fn header(name: &str, value: &[u8]) -> ResponseHeader {
    ResponseHeader { name: name.to_string(), value: value.to_vec() }
}

fn response(headers: Vec<ResponseHeader>, body: &str) -> Response {
    Response {
        version: "HTTP/1.1".to_string(),
        status: "200 OK".to_string(),
        headers,
        body: body.to_string(),
    }
}

fn line(name: &str, value: &str) -> HeaderLine {
    HeaderLine { name: name.to_string(), value: value.to_string() }
}

#[test]
fn raw_body_is_printed_as_it_is() {
    let body = "plain text\nwith \x1b[0m escapes and \u{e4}";
    assert_eq!(render_body(None, body), Ok(Body::Raw(body.to_string())));
    let other = Some(MediaMatch { json: false, html: false });
    assert_eq!(render_body(other, body), Ok(Body::Raw(body.to_string())));
    assert_eq!(Body::Raw(body.to_string()).text(), body);
    assert_eq!(Body::Raw("{\"a\":1}".to_string()).text(), "{\"a\":1}");
    assert_eq!(Body::Raw(String::new()).text(), "");
}

#[test]
fn json_body_has_a_styled_line_for_each_line() {
    let body = "{\n  \"a\": 1\n}";
    let json = Some(MediaMatch { json: true, html: false });
    match render_body(json, body).unwrap() {
        Body::Styled(styled) => {
            assert_eq!(styled.len(), 3);
            let lines = lines_with_endings(body);
            for (spans, line) in styled.iter().zip(lines.iter()) {
                let text: String = spans.iter().map(|span| span.text.as_str()).collect();
                assert_eq!(&text, line);
            }
        }
        Body::Raw(_) => panic!("a JSON body is highlighted"),
    }
}

#[test]
fn html_body_is_styled() {
    let html = Some(MediaMatch { json: false, html: true });
    assert!(matches!(render_body(html, "<p>x</p>\n"), Ok(Body::Styled(_))));
}

#[test]
fn styled_text_has_the_lines_one_after_the_other() {
    let first = vec![Span {
        fg: Rgb { r: 1, g: 2, b: 3 },
        bg: Rgb { r: 4, g: 5, b: 6 },
        text: "a\n".to_string(),
    }];
    let second = vec![
        Span { fg: Rgb { r: 7, g: 8, b: 9 }, bg: Rgb { r: 0, g: 0, b: 0 }, text: "b".to_string() },
        Span { fg: Rgb { r: 0, g: 0, b: 0 }, bg: Rgb { r: 0, g: 0, b: 0 }, text: "c".to_string() },
    ];
    let body = Body::Styled(vec![first.clone(), second.clone()]);
    assert_eq!(
        body.text(),
        "\x1b[48;2;4;5;6m\x1b[38;2;1;2;3ma\n\x1b[48;2;0;0;0m\x1b[38;2;7;8;9mb\x1b[48;2;0;0;0m\x1b[38;2;0;0;0mc"
    );
    assert_eq!(body.text(), format!("{}{}", escape_spans(&first), escape_spans(&second)));
    assert_eq!(Body::Styled(Vec::new()).text(), "");
}

#[test]
fn body_with_assets() {
    let assets = Assets::load().unwrap();
    assert_eq!(
        render_body_with(&assets, BodyKind::Raw, "x"),
        Ok(Body::Raw("x".to_string()))
    );
    assert!(matches!(render_body_with(&assets, BodyKind::Json, "{}"), Ok(Body::Styled(_))));
    assert!(matches!(render_body_with(&assets, BodyKind::Html, "<p>"), Ok(Body::Styled(_))));
    assert_eq!(
        render_body_with(&assets, BodyKind::Json, "{}"),
        render_body(Some(MediaMatch { json: true, html: false }), "{}")
    );
}

#[test]
fn blocks_end_with_an_empty_line() {
    assert_eq!(status_block("HTTP/1.1 200 OK"), "HTTP/1.1 200 OK\n\n");
    assert_eq!(
        headers_block(&vec![line("server", "nginx"), line("age", "1")]),
        "server: nginx\nage: 1\n\n"
    );
    assert_eq!(headers_block(&Vec::new()), "\n");
}

#[test]
fn rendered_text_is_status_headers_body() {
    let rendered = Rendered {
        status: "HTTP/1.1 200 OK".to_string(),
        headers: vec![line("server", "nginx"), line("age", "1")],
        body: Body::Raw("hello".to_string()),
    };
    assert_eq!(rendered.text(), "HTTP/1.1 200 OK\n\nserver: nginx\nage: 1\n\nhello");
}

#[test]
fn get_scenario_prints_status_then_headers_then_body() {
    let subject = response(
        vec![header("content-type", b"text/plain"), header("content-length", b"5")],
        "hello",
    );
    colored::control::set_override(false);
    let plain = render(&subject).unwrap();
    colored::control::set_override(true);
    let coloured = render(&subject).unwrap();
    colored::control::unset_override();
    assert_eq!(
        plain.text(),
        "HTTP/1.1 200 OK\n\ncontent-type: text/plain\ncontent-length: 5\n\nhello"
    );
    assert!(plain.text().starts_with("HTTP/1.1 200 OK\n"));
    assert_eq!(
        coloured.text(),
        "\x1b[34mHTTP/1.1 200 OK\x1b[0m\n\n\x1b[32mcontent-type\x1b[0m: text/plain\n\x1b[32mcontent-length\x1b[0m: 5\n\nhello"
    );
}

#[test]
fn render_without_content_type_keeps_the_body() {
    let subject = response(vec![header("server", b"x")], "{\"not\": \"highlighted\"}");
    let rendered = render(&subject).unwrap();
    assert_eq!(rendered.body, Body::Raw("{\"not\": \"highlighted\"}".to_string()));
    assert_eq!(rendered.headers.len(), 1);
    assert_eq!(rendered.headers[0].value, "x");
}

#[test]
fn render_json_response() {
    let subject = response(
        vec![header("Content-Type", b"application/json")],
        "{\n  \"foo\": \"bar\"\n}\n",
    );
    let rendered = render(&subject).unwrap();
    match &rendered.body {
        Body::Styled(styled) => assert_eq!(styled.len(), 3),
        Body::Raw(_) => panic!("a JSON body is highlighted"),
    }
    let text = rendered.text();
    assert!(without_colours(&text).ends_with("{\n  \"foo\": \"bar\"\n}\n"));
    assert!(!text.ends_with("\n\n"));
    assert!(text.contains("\x1b[48;2;"));
    let assets = Assets::load().unwrap();
    assert_eq!(render_with(&assets, &subject).unwrap().body, rendered.body);
}

#[test]
fn render_fails_on_a_bad_content_type() {
    let not_text = response(vec![header("content-type", &[255])], "x");
    assert_eq!(render(&not_text), Err(RenderError::ContentTypeNotText));
    let no_type = response(vec![header("content-type", b"no media type")], "x");
    assert_eq!(render(&no_type), Err(RenderError::ContentTypeInvalid));
    let assets = Assets::load().unwrap();
    assert_eq!(render_with(&assets, &not_text), Err(RenderError::ContentTypeNotText));
    assert_eq!(render_with(&assets, &no_type), Err(RenderError::ContentTypeInvalid));
}

#[test]
fn render_does_not_judge_the_status() {
    let mut subject = response(Vec::new(), "gone");
    subject.status = "404 Not Found".to_string();
    let rendered = render(&subject).unwrap();
    assert!(rendered.status.contains("HTTP/1.1 404 Not Found"));
    assert_eq!(rendered.body, Body::Raw("gone".to_string()));
}

fn without_colours(text: &str) -> String {
    let mut out = String::new();
    let mut inside = false;
    for c in text.chars() {
        if inside {
            inside = c != 'm';
        } else if c == '\x1b' {
            inside = true;
        } else {
            out.push(c);
        }
    }
    out
}

#[test]
fn highlighted_body_without_colours_is_the_body() {
    let json = Some(MediaMatch { json: true, html: false });
    let html = Some(MediaMatch { json: false, html: true });
    let bodies = vec!["[1,\n2]\n", "{\n  \"a\": \"m\"\n}", "\n\n", "", "{\"foo\":\"bar\"}\n"];
    for body in bodies.iter() {
        let rendered = render_body(json, body).unwrap();
        assert_eq!(without_colours(&rendered.text()), *body);
        let rendered = render_body(html, body).unwrap();
        assert_eq!(without_colours(&rendered.text()), *body);
    }
}

#[test]
fn highlighted_body_has_as_many_lines_as_the_body() {
    let json = Some(MediaMatch { json: true, html: false });
    let body = "[1,\n2]\n";
    let text = render_body(json, body).unwrap().text();
    assert_eq!(text.matches('\n').count(), 2);
    assert!(text.ends_with("\n"));
    assert!(!text.ends_with("\n\n"));
}

#[test]
fn plain_text_body_is_not_highlighted() {
    let subject = response(vec![header("content-type", b"text/plain")], "{\"a\":1}");
    let rendered = render(&subject).unwrap();
    assert_eq!(rendered.body, Body::Raw("{\"a\":1}".to_string()));
    assert_eq!(rendered.body.text(), "{\"a\":1}");
}

#[test]
fn header_line_is_name_colon_value() {
    let subject = response(vec![header("content-type", b"text/html")], "");
    let rendered = render(&subject).unwrap();
    assert_eq!(
        without_colours(&headers_block(&rendered.headers)),
        "content-type: text/html\n\n"
    );
}
