use ics_agenda::calendar::event::Event;
use ics_agenda::http::file_server::asset_path;
use ics_agenda::http::file_server::content_type_for;
use ics_agenda::http::file_server::get_content_type;
use ics_agenda::http::file_server::path_extension;
use ics_agenda::http::file_server::serve_contents;
use ics_agenda::http::html::Html;
use ics_agenda::http::page::escape_html;
use ics_agenda::http::page::extract_time;
use ics_agenda::http::page::format_date;
use ics_agenda::http::page::generate_index_html;
use ics_agenda::http::page::render_index;
use ics_agenda::http::page::respond_with_page;
use ics_agenda::http::page::NO_EVENTS;
use ics_agenda::http::page::PAGE_END;
use ics_agenda::http::page::PAGE_HEAD;
use ics_agenda::http::page::PAGE_SCRIPT;
use ics_agenda::http::response::compose_response;
use ics_agenda::http::response::create_html_response;
use ics_agenda::http::response::create_response;
use ics_agenda::http::server::asset_response;
use ics_agenda::http::server::bad_request_response;
use ics_agenda::http::server::first_line_of;
use ics_agenda::http::server::last_update_response;
use ics_agenda::http::server::method_not_allowed_response;
use ics_agenda::http::server::not_found_response;
use ics_agenda::http::server::request_line;
use ics_agenda::http::server::route_file;
use ics_agenda::http::server::route_request;
use ics_agenda::http::server::Route;
use ics_agenda::http::upcoming::is_upcoming;
use ics_agenda::http::upcoming::select_upcoming;
use ics_agenda::http::upcoming::upcoming_events;
use ics_agenda::http::upcoming::Instant;

fn event(title: &str, start: &str, end: &str, location: &str, description: &str) -> Event {
    Event {
        title: title.to_string(),
        start_date: start.to_string(),
        end_date: end.to_string(),
        location: location.to_string(),
        description: description.to_string(),
        calendar_id: String::new(),
    }
}

fn at(secs: i64, nanos: u32) -> Instant {
    Instant { secs, nanos }
}

#[test]
fn response_has_status_line_headers_and_body() {
    assert_eq!(
        create_response(200, "OK", "text/plain", b"hello"),
        "HTTP/1.1 200 OK\r\nContent-Type: text/plain\r\nContent-Length: 5\r\n\r\nhello"
    );
    assert_eq!(
        create_response(404, "Not found", "text/plain", b""),
        "HTTP/1.1 404 Not found\r\nContent-Type: text/plain\r\nContent-Length: 0\r\n\r\n"
    );
}

#[test]
fn response_length_is_that_of_the_bytes() {
    assert_eq!(
        create_response(200, "OK", "text/plain", "caf\u{e9}".as_bytes()),
        "HTTP/1.1 200 OK\r\nContent-Type: text/plain\r\nContent-Length: 5\r\n\r\ncaf\u{e9}"
    );
}

#[test]
fn response_body_that_is_not_utf8_is_read_lossily() {
    assert_eq!(
        create_response(200, "OK", "image/png", &[0x89, b'P', b'N', b'G', 0xff]),
        "HTTP/1.1 200 OK\r\nContent-Type: image/png\r\nContent-Length: 5\r\n\r\n\u{fffd}PNG\u{fffd}"
    );
}

#[test]
fn html_response_announces_type_and_byte_length() {
    let html = Html { content_type: "text/html".to_string(), content: "<p>\u{20ac}5</p>".to_string() };
    assert_eq!(
        create_html_response(200, "Ok", html),
        "HTTP/1.1 200 Ok\r\nContent-Type: text/html\r\nContent-Length: 11\r\n\r\n<p>\u{20ac}5</p>"
    );
    let empty = Html { content_type: String::new(), content: String::new() };
    assert_eq!(create_html_response(65535, "", empty), "HTTP/1.1 65535 \r\nContent-Type: \r\nContent-Length: 0\r\n\r\n");
}

#[test]
fn html_clone_is_equal() {
    let html = Html { content_type: "text/css".to_string(), content: "a{}".to_string() };
    assert_eq!(html.clone(), html);
}

#[test]
fn request_line_is_the_first_line() {
    assert_eq!(request_line(b"GET / HTTP/1.1\r\nHost: x\r\n\r\n"), "GET / HTTP/1.1");
    assert_eq!(request_line(b"GET / HTTP/1.1\nHost: x\n"), "GET / HTTP/1.1");
    assert_eq!(request_line(b"GET /\r\r\nHost"), "GET /\r");
    assert_eq!(request_line(b"no newline\r"), "no newline\r");
    assert_eq!(request_line(b""), "");
    assert_eq!(request_line(b"\nrest"), "");
    assert_eq!(request_line(b"\r\nrest"), "");
    assert_eq!(request_line(&[b'G', 0xff, b'\n']), "G\u{fffd}");
}

#[test]
fn request_line_agrees_with_std_lines() {
    let samples: [&[u8]; 6] = [b"a\r\nb", b"\r", b"a\nb\nc", b"abc", b"a\r\n", b"\n\n"];
    for s in samples {
        let text = String::from_utf8_lossy(s);
        assert_eq!(request_line(s), text.lines().next().unwrap_or(""));
    }
    let mut buffer = [0u8; 1024];
    buffer[..16].copy_from_slice(b"GET /x HTTP/1.1\n");
    assert_eq!(request_line(&buffer), "GET /x HTTP/1.1");
}

#[test]
fn requests_are_routed() {
    assert_eq!(route_request("GET / HTTP/1.1"), Route::Index);
    assert_eq!(route_request("GET /"), Route::Index);
    assert_eq!(route_request("  GET\t/api/last-update   HTTP/1.1"), Route::LastUpdate);
    assert_eq!(route_request("GET /style.css HTTP/1.1"), Route::Asset("/style.css".to_string()));
    assert_eq!(route_request("GET /api/last-update/ HTTP/1.1"), Route::Asset("/api/last-update/".to_string()));
    assert_eq!(route_request("POST / HTTP/1.1"), Route::MethodNotAllowed);
    assert_eq!(route_request("get / HTTP/1.1"), Route::MethodNotAllowed);
    assert_eq!(route_request("GET"), Route::BadRequest);
    assert_eq!(route_request(""), Route::BadRequest);
    assert_eq!(route_request("   "), Route::BadRequest);
    assert_eq!(route_request("POST"), Route::BadRequest);
}

#[test]
fn only_asset_routes_name_a_file() {
    assert_eq!(route_file(&Route::Asset("/style.css".to_string())), Some("public/style.css".to_string()));
    assert_eq!(route_file(&Route::Asset("x".to_string())), Some("publicx".to_string()));
    assert_eq!(route_file(&Route::Index), None);
    assert_eq!(route_file(&Route::LastUpdate), None);
    assert_eq!(route_file(&Route::BadRequest), None);
    assert_eq!(route_file(&Route::MethodNotAllowed), None);
}

#[test]
fn fixed_responses() {
    assert_eq!(
        bad_request_response(),
        "HTTP/1.1 400 Bad Request\r\nContent-Type: text/plain\r\nContent-Length: 11\r\n\r\nBad Request"
    );
    assert_eq!(
        method_not_allowed_response(),
        "HTTP/1.1 405 Method Not Allowed\r\nContent-Type: text/plain\r\nContent-Length: 18\r\n\r\nMethod Not Allowed"
    );
    assert_eq!(
        not_found_response(),
        "HTTP/1.1 404 Not found\r\nContent-Type: text/plain\r\nContent-Length: 9\r\n\r\nNot Found"
    );
}

#[test]
fn last_update_is_answered_as_json() {
    assert_eq!(
        last_update_response("2025-01-15T10:00:00+00:00"),
        "HTTP/1.1 200 OK\r\nContent-Type: application/json\r\nContent-Length: 43\r\n\r\n{\"last_update\":\"2025-01-15T10:00:00+00:00\"}"
    );
    assert_eq!(
        last_update_response(""),
        "HTTP/1.1 200 OK\r\nContent-Type: application/json\r\nContent-Length: 18\r\n\r\n{\"last_update\":\"\"}"
    );
}

#[test]
fn asset_is_served_or_not_found() {
    let html = Html { content_type: "text/css".to_string(), content: "a{}".to_string() };
    assert_eq!(
        asset_response(Some(html)),
        "HTTP/1.1 200 Ok\r\nContent-Type: text/css\r\nContent-Length: 3\r\n\r\na{}"
    );
    assert_eq!(asset_response(None), not_found_response());
}

#[test]
fn request_paths_stand_for_files_below_public() {
    assert_eq!(asset_path("/"), "public/index.html");
    assert_eq!(asset_path("/style.css"), "public/style.css");
    assert_eq!(asset_path("/a/b.js"), "public/a/b.js");
    assert_eq!(asset_path(""), "public");
    assert_eq!(asset_path("//"), "public//");
}

#[test]
fn content_types_go_by_extension() {
    assert_eq!(content_type_for(Some("html")), "text/html");
    assert_eq!(content_type_for(Some("css")), "text/css");
    assert_eq!(content_type_for(Some("js")), "application/javascript");
    assert_eq!(content_type_for(Some("json")), "application/json");
    assert_eq!(content_type_for(Some("png")), "image/png");
    assert_eq!(content_type_for(Some("jpg")), "image/jpeg");
    assert_eq!(content_type_for(Some("jpeg")), "image/jpeg");
    assert_eq!(content_type_for(Some("gif")), "image/gif");
    assert_eq!(content_type_for(Some("HTML")), "text/plain");
    assert_eq!(content_type_for(Some("txt")), "text/plain");
    assert_eq!(content_type_for(Some("")), "text/plain");
    assert_eq!(content_type_for(None), "text/plain");
}

#[test]
fn content_type_of_a_path_goes_by_its_file_name() {
    assert_eq!(get_content_type("public/index.html"), "text/html");
    assert_eq!(get_content_type("public/site.min.css"), "text/css");
    assert_eq!(get_content_type("public/photo.jpeg"), "image/jpeg");
    assert_eq!(get_content_type("public/archive.tar.gz"), "text/plain");
    assert_eq!(get_content_type("public/README"), "text/plain");
    assert_eq!(get_content_type("public/.html"), "text/plain");
    assert_eq!(get_content_type("public.d/file"), "text/plain");
    assert_eq!(get_content_type(""), "text/plain");
}

#[test]
fn file_contents_are_served_as_text() {
    assert_eq!(
        serve_contents("public/app.js", b"let x = 1;"),
        Html { content_type: "application/javascript".to_string(), content: "let x = 1;".to_string() }
    );
    assert_eq!(
        serve_contents("public/raw", &[0x80, b'a']),
        Html { content_type: "text/plain".to_string(), content: "\u{fffd}a".to_string() }
    );
}

#[test]
fn escape_html_writes_out_the_five_characters() {
    assert_eq!(escape_html("a & b < c > d \"e\"\nf"), "a &amp; b &lt; c &gt; d &quot;e&quot;<br>f");
    assert_eq!(escape_html("plain 'text'"), "plain 'text'");
    assert_eq!(escape_html(""), "");
    assert_eq!(escape_html("&amp;<br>"), "&amp;amp;&lt;br&gt;");
}

#[test]
fn escape_html_agrees_with_replacements_in_turn() {
    for s in ["<a href=\"x\">&</a>\n", "&&&", "\n\n", "&lt;", "<<>>\"\"", "caf\u{e9} & th\u{e9}"] {
        let expected = s
            .replace('&', "&amp;")
            .replace('<', "&lt;")
            .replace('>', "&gt;")
            .replace('"', "&quot;")
            .replace('\n', "<br>");
        assert_eq!(escape_html(s), expected);
    }
}

#[test]
fn format_date_names_day_and_month() {
    assert_eq!(format_date("2025-01-15"), "15. JANUARY");
    assert_eq!(format_date("2025-12-01"), "1. DECEMBER");
    assert_eq!(format_date("2025-02-29"), "29. FEBRUARY");
    assert_eq!(format_date("2025-06-+7"), "7. JUNE");
}

#[test]
fn format_date_of_odd_parts() {
    assert_eq!(format_date("2025-00-15"), "15. ");
    assert_eq!(format_date("2025-13-15"), "15. UNKNOWN");
    assert_eq!(format_date("2025-xx-yy"), "1. JANUARY");
    assert_eq!(format_date("2025--"), "1. JANUARY");
    assert_eq!(format_date("--"), "1. JANUARY");
    assert_eq!(format_date("2025-3-99999999999"), "1. MARCH");
    assert_eq!(format_date("a-99999999999999999999999-4294967295"), "4294967295. JANUARY");
}

#[test]
fn format_date_keeps_what_is_no_date() {
    assert_eq!(format_date("2025-01"), "2025-01");
    assert_eq!(format_date("2025-01-15-x"), "2025-01-15-x");
    assert_eq!(format_date("today"), "today");
    assert_eq!(format_date(""), "");
}

#[test]
fn extract_time_gives_hours_and_minutes() {
    assert_eq!(extract_time("2025-01-15 05:00:00"), "05:00");
    assert_eq!(extract_time("2025-01-15 23:59:59"), "23:59");
    assert_eq!(extract_time("  2025-01-15   7:05  "), "7:05");
    assert_eq!(extract_time("date 12 rest"), "12");
    assert_eq!(extract_time("date a:b:c:d"), "a:b");
    assert_eq!(extract_time("date :"), ":");
}

#[test]
fn extract_time_without_time_is_midnight() {
    assert_eq!(extract_time("2025-01-15"), "00:00");
    assert_eq!(extract_time(""), "00:00");
    assert_eq!(extract_time("   "), "00:00");
}

#[test]
fn end_decides_whether_an_event_is_upcoming() {
    let now = at(1_000, 500);
    assert!(is_upcoming(Some(at(1_000, 500)), now));
    assert!(is_upcoming(Some(at(1_000, 501)), now));
    assert!(is_upcoming(Some(at(1_001, 0)), now));
    assert!(!is_upcoming(Some(at(1_000, 499)), now));
    assert!(!is_upcoming(Some(at(999, 999_999_999)), now));
    assert!(!is_upcoming(None, now));
    assert!(is_upcoming(Some(at(-5, 0)), at(-6, 999)));
    assert!(is_upcoming(Some(at(i64::MAX, u32::MAX)), at(i64::MAX, u32::MAX)));
    assert!(!is_upcoming(Some(at(i64::MIN, 0)), at(i64::MIN, 1)));
}

#[test]
fn upcoming_events_are_selected_in_order() {
    let events = vec![
        event("past", "", "", "", ""),
        event("now", "", "", "", ""),
        event("unknown", "", "", "", ""),
        event("future", "", "", "", ""),
        event("no end given", "", "", "", ""),
    ];
    let ends = vec![Some(at(10, 0)), Some(at(20, 0)), None, Some(at(30, 0))];
    let ahead = select_upcoming(&events, &ends, at(20, 0));
    let titles: Vec<String> = ahead.iter().map(|e| e.title.clone()).collect();
    assert_eq!(titles, vec!["now", "future"]);
    assert_eq!(select_upcoming(&events, &vec![], at(0, 0)), vec![]);
    assert_eq!(select_upcoming(&vec![], &ends, at(0, 0)), vec![]);
}

#[test]
fn events_are_judged_by_their_end_in_local_time() {
    let events = vec![
        event("long past", "1999-01-01 10:00:00", "1999-01-01 11:00:00", "", ""),
        event("far ahead", "2999-01-01 10:00:00", "2999-01-01 11:00:00", "", ""),
        event("date only", "2999-01-01", "2999-01-02", "", ""),
        event("no end", "2999-01-01 10:00:00", "", "", ""),
        event("nonsense", "2999-01-01 10:00:00", "2999-13-01 10:00:00", "", ""),
    ];
    let now = at(1_750_000_000, 0);
    let ahead = upcoming_events(&events, now);
    let titles: Vec<String> = ahead.iter().map(|e| e.title.clone()).collect();
    assert_eq!(titles, vec!["far ahead"]);
}

fn expected_item(e: &Event) -> String {
    let dot = if !e.description.is_empty() && e.description.contains("video") { "video" } else { "active" };
    let mut html = format!(
        "        <div class=\"event-item\">\n            <div class=\"event-dot {}\"></div>\n            <div class=\"event-content\">\n                <span class=\"event-time\">{} - {}</span>\n                <span class=\"event-title\">{}</span>\n",
        dot,
        escape_html(&extract_time(&e.start_date)),
        escape_html(&extract_time(&e.end_date)),
        escape_html(&e.title)
    );
    if !e.location.is_empty() {
        html.push_str(&format!("\n                <div class=\"event-location\">{}</div>\n", escape_html(&e.location)));
    }
    if !e.description.is_empty() {
        html.push_str(&format!("\n                <div class=\"event-description\">{}</div>\n", escape_html(&e.description)));
    }
    html.push_str("            </div>\n        </div>\n");
    html
}

fn expected_page(events: &Vec<Event>, cap: usize) -> String {
    let shown: Vec<&Event> = events.iter().take(cap).collect();
    let mut html = String::from(PAGE_HEAD);
    if shown.is_empty() {
        html.push_str("<div class=\"no-events\">No events found. Check back later!</div>");
    } else {
        let mut last_date = String::new();
        for e in shown {
            let date_part = e.start_date.split_whitespace().next().unwrap_or("");
            if date_part != last_date {
                if !last_date.is_empty() {
                    html.push_str("    </div>\n");
                }
                html.push_str(&format!(
                    "    <div class=\"day-section\">\n        <div class=\"day-header\">{}</div>\n",
                    format_date(date_part)
                ));
                last_date = date_part.to_string();
            }
            html.push_str(&expected_item(e));
        }
        if !last_date.is_empty() {
            html.push_str("    </div>\n");
        }
    }
    html.push_str(PAGE_SCRIPT);
    html.push_str("</body></html>");
    html
}

#[test]
fn page_parts_are_as_they_should_be() {
    assert_eq!(PAGE_HEAD.len(), 3161);
    assert!(PAGE_HEAD.starts_with("<!DOCTYPE html>\n<html lang=\"en\">\n<head>\n    <meta charset=\"UTF-8\">\n"));
    assert!(PAGE_HEAD.ends_with("</head>\n<body>\n    <div class=\"header\">MY AGENDA</div>\n"));
    assert!(PAGE_HEAD.contains("    <title>MY AGENDA</title>\n    <style>\n        * {\n            margin: 0;\n"));
    assert_eq!(NO_EVENTS, "<div class=\"no-events\">No events found. Check back later!</div>");
    assert_eq!(PAGE_SCRIPT.len(), 900);
    assert!(PAGE_SCRIPT.starts_with("\n    <script>\n        // Get initial timestamp\n"));
    assert!(PAGE_SCRIPT.contains("fetch('/api/last-update')"));
    assert!(PAGE_SCRIPT.ends_with("        }, 60000); // Check every 60 seconds\n    </script>\n"));
    assert_eq!(PAGE_END, "</body></html>");
}

#[test]
fn page_without_events_says_so() {
    assert_eq!(render_index(&vec![], 10), format!("{}{}{}{}", PAGE_HEAD, NO_EVENTS, PAGE_SCRIPT, PAGE_END));
    assert_eq!(render_index(&vec![], 0), format!("{}{}{}{}", PAGE_HEAD, NO_EVENTS, PAGE_SCRIPT, PAGE_END));
}

#[test]
fn page_with_one_event() {
    let events = vec![event("Standup", "2025-01-15 05:00:00", "2025-01-15 05:30:00", "Room 1", "Daily video call")];
    let middle = "    <div class=\"day-section\">\n        <div class=\"day-header\">15. JANUARY</div>\n        <div class=\"event-item\">\n            <div class=\"event-dot video\"></div>\n            <div class=\"event-content\">\n                <span class=\"event-time\">05:00 - 05:30</span>\n                <span class=\"event-title\">Standup</span>\n\n                <div class=\"event-location\">Room 1</div>\n\n                <div class=\"event-description\">Daily video call</div>\n            </div>\n        </div>\n    </div>\n";
    assert_eq!(render_index(&events, 10), format!("{}{}{}{}", PAGE_HEAD, middle, PAGE_SCRIPT, PAGE_END));
    assert_eq!(render_index(&events, 1), format!("{}{}{}{}", PAGE_HEAD, middle, PAGE_SCRIPT, PAGE_END));
    assert_eq!(render_index(&events, 0), format!("{}{}{}{}", PAGE_HEAD, NO_EVENTS, PAGE_SCRIPT, PAGE_END));
}

#[test]
fn page_groups_events_by_day() {
    let events = vec![
        event("One", "2025-01-15 05:00:00", "2025-01-15 05:30:00", "", ""),
        event("Two <b>", "2025-01-15 09:00:00", "2025-01-15 10:00:00", "A & B", "line 1\nline 2"),
        event("Three", "2025-01-16", "2025-01-17", "", "no Video here"),
        event("Four", "2025-01-15 09:00:00", "bad", "", ""),
        event("Five", "", "", "", ""),
        event("Six", "   ", "", "", ""),
        event("Seven", "2025-02-01 00:00:00", "", "", "video"),
    ];
    let page = render_index(&events, 10);
    assert_eq!(page, expected_page(&events, 10));
    assert_eq!(page.matches("<div class=\"day-section\">").count(), 5);
    assert_eq!(page.matches("<div class=\"event-item\">").count(), 7);
    assert_eq!(page.matches("event-dot video").count(), 1);
    assert!(page.contains("<span class=\"event-title\">Two &lt;b&gt;</span>"));
    assert!(page.contains("<div class=\"event-description\">line 1<br>line 2</div>"));
}

#[test]
fn page_with_events_that_have_no_day() {
    let events = vec![event("Five", "", "", "", ""), event("Six", "\t", "", "here", "")];
    let page = render_index(&events, 10);
    assert_eq!(page, expected_page(&events, 10));
    assert_eq!(page.matches("<div class=\"day-section\">").count(), 0);
    assert!(page.contains("            </div>\n        </div>\n\n    <script>"));
}

#[test]
fn page_shows_no_more_events_than_the_cap() {
    let events: Vec<Event> =
        (0..25).map(|i| event(&format!("event {}", i), &format!("2025-01-{:02} 10:00:00", i + 1), "", "", "")).collect();
    for cap in [0usize, 1, 5, 10, 24, 25, 26, 1000, usize::MAX] {
        let page = render_index(&events, cap);
        assert_eq!(page, expected_page(&events, cap));
        let shown = if cap < 25 { cap } else { 25 };
        assert_eq!(page.matches("<div class=\"event-item\">").count(), shown);
        assert_eq!(page.contains("No events found"), shown == 0);
    }
    let page = render_index(&events, 5);
    assert!(page.contains("event 4<"));
    assert!(!page.contains("event 5<"));
    let five: Vec<Event> = events.iter().take(5).map(|e| e.clone()).collect();
    assert_eq!(render_index(&five, 5), page);
    assert_eq!(render_index(&five, 7), page);
}

#[test]
fn index_response_shows_the_first_events_ahead_up_to_the_cap() {
    let mut events: Vec<Event> = Vec::new();
    for i in 0..7 {
        events.push(event(&format!("ahead {}", i), "2999-01-01 10:00:00", "2999-01-01 11:00:00", "", ""));
        events.push(event(&format!("past {}", i), "1999-01-01 10:00:00", "1999-01-01 11:00:00", "", ""));
    }
    let ahead: Vec<Event> = events.iter().filter(|e| e.title.starts_with("ahead")).map(|e| e.clone()).collect();
    let response = generate_index_html(&events, at(1_750_000_000, 0), 5);
    assert_eq!(response, respond_with_page(render_index(&ahead, 5)));
    assert_eq!(response.matches("<div class=\"event-item\">").count(), 5);
    assert!(response.contains("ahead 4<"));
    assert!(!response.contains("ahead 5<"));
    assert!(!response.contains("past 0<"));
}

#[test]
fn page_is_sent_as_html() {
    assert_eq!(
        respond_with_page("<p>\u{e9}</p>".to_string()),
        "HTTP/1.1 200 OK\r\nContent-Type: text/html; charset=utf-8\r\nContent-Length: 9\r\n\r\n<p>\u{e9}</p>"
    );
    assert_eq!(
        respond_with_page(String::new()),
        "HTTP/1.1 200 OK\r\nContent-Type: text/html; charset=utf-8\r\nContent-Length: 0\r\n\r\n"
    );
}

#[test]
fn index_response_holds_the_events_ahead() {
    let events = vec![
        event("long past", "1999-01-01 10:00:00", "1999-01-01 11:00:00", "", ""),
        event("far ahead", "2999-01-01 10:00:00", "2999-01-01 11:00:00", "", ""),
    ];
    let now = at(1_750_000_000, 0);
    let response = generate_index_html(&events, now, 10);
    let ahead = vec![event("far ahead", "2999-01-01 10:00:00", "2999-01-01 11:00:00", "", "")];
    assert_eq!(response, respond_with_page(render_index(&ahead, 10)));
    let none = generate_index_html(&events, at(40_000_000_000, 0), 10);
    assert_eq!(none, respond_with_page(render_index(&vec![], 10)));
    let capped = generate_index_html(&events, now, 0);
    assert_eq!(capped, respond_with_page(render_index(&vec![], 0)));
}

#[test]
fn composed_response_announces_the_length_it_is_given() {
    assert_eq!(
        compose_response(200, "OK", "text/plain", 3, "\u{fffd}"),
        "HTTP/1.1 200 OK\r\nContent-Type: text/plain\r\nContent-Length: 3\r\n\r\n\u{fffd}"
    );
    assert_eq!(compose_response(0, "", "", 0, ""), "HTTP/1.1 0 \r\nContent-Type: \r\nContent-Length: 0\r\n\r\n");
}

#[test]
fn first_line_ends_at_the_first_newline() {
    assert_eq!(first_line_of("GET / HTTP/1.1\r\nHost: x"), "GET / HTTP/1.1");
    assert_eq!(first_line_of("one\ntwo\nthree"), "one");
    assert_eq!(first_line_of("only"), "only");
    assert_eq!(first_line_of("cr only\r"), "cr only\r");
    assert_eq!(first_line_of("\r\n"), "");
    assert_eq!(first_line_of(""), "");
}

#[test]
fn extension_is_what_stands_behind_the_last_full_stop_of_the_file_name() {
    assert_eq!(path_extension("public/index.html"), Some("html".to_string()));
    assert_eq!(path_extension("public/archive.tar.gz"), Some("gz".to_string()));
    assert_eq!(path_extension("public/name."), Some(String::new()));
    assert_eq!(path_extension("public/.hidden"), None);
    assert_eq!(path_extension("public/.hidden.css"), Some("css".to_string()));
    assert_eq!(path_extension("public.d/name"), None);
    assert_eq!(path_extension("public/style.css/"), Some("css".to_string()));
    assert_eq!(path_extension("public/style.css/."), Some("css".to_string()));
    assert_eq!(path_extension("public/style.css/.."), None);
    assert_eq!(path_extension(""), None);
    assert_eq!(path_extension("/"), None);
    assert_eq!(path_extension("."), None);
    assert_eq!(path_extension(".."), None);
    assert_eq!(path_extension("..."), Some(String::new()));
}

#[test]
fn extension_agrees_with_paths_cut_at_slashes() {
    let samples = [
        "", "/", "//", ".", "./", "./.", "..", "../", "a/..", "a/../", "...", "a", "a.b", "a.b.c", ".a", ".a.", ".a.b",
        "a.", "a..", "a..b", "..a", "..a.b", "a/b", "a.x/b", "a.x/b.y", "a.x/", "a.x//", "a.x/./", "a.x/.//.",
        "/a.x", "/.x", "//.x.y", "a b.c d", "a/b.c/d.", "public/index.html", "public//index.htm", "x/.././y.js",
        "caf\u{e9}.\u{e9}t\u{e9}", "a\\b.c/d", "a.b\\c", "./.a", "a/./.", "a/.b/.", "a/.b./.",
    ];
    for s in samples {
        let expected = std::path::Path::new(s).extension().and_then(|e| e.to_str()).map(|e| e.to_string());
        assert_eq!(path_extension(s), expected, "{:?}", s);
    }
}
