use vostok::gemtext::{GemLine, GemText, SequenceGenerator};
use vostok::history::{BrowserState, TabHistory};
use vostok::nav::{begin_navigation, continue_navigation, FetchOutcome, NavStep, Templates};
use vostok::response::{classify, parse_response, ProtocolError, Response, ResponseContent};
use vostok::tab::{derive_title, ActionRequired, Tab};
use vostok::trust::{TrustDecision, TrustPolicy, TrustStore};
use vostok::urls::navigate_intent;

fn templates() -> Templates {
    Templates {
        new_page: "# Welcome\nThis is a new tab.".to_string(),
        error_page: "# Error {{status}}\n{{message}}".to_string(),
    }
}

fn lines_of(t: &GemText) -> Vec<&GemLine> {
    t.0.iter().map(|p| &p.1).collect()
}

fn bytes(s: &str) -> FetchOutcome {
    FetchOutcome::Response(s.as_bytes().to_vec())
}

#[test]
fn classify_maps_every_status_class() {
    for status in 0u8..=255 {
        let r = classify(status, "meta".to_string(), "body".to_string());
        match status / 10 {
            1 => assert!(matches!(r, Ok(ResponseContent::InputExpected { .. }))),
            2 => assert!(matches!(r, Ok(ResponseContent::Success { .. }))),
            3 => assert!(matches!(r, Ok(ResponseContent::Redirection { .. }))),
            4 => assert!(matches!(r, Ok(ResponseContent::TemporaryFailure { .. }))),
            5 => assert!(matches!(r, Ok(ResponseContent::PermanentFailure { .. }))),
            6 => assert!(matches!(r, Ok(ResponseContent::ClientCertificates { .. }))),
            _ => assert_eq!(r, Err(ProtocolError::InvalidStatusClass)),
        }
    }
}

#[test]
fn classify_keeps_meta_and_body() {
    let r = classify(20, "text/gemini".to_string(), "hello".to_string()).unwrap();
    assert_eq!(
        r,
        ResponseContent::Success { mimetype: "text/gemini".to_string(), body: "hello".to_string() }
    );
    let r = classify(31, "gemini://elsewhere/".to_string(), String::new()).unwrap();
    assert_eq!(r, ResponseContent::Redirection { uri: "gemini://elsewhere/".to_string() });
}

#[test]
fn parse_response_happy_path() {
    let r: Response = parse_response("20 text/gemini\r\n# Hello\n\nWorld\n").unwrap();
    assert_eq!(r.status(), 20);
    assert_eq!(
        *r.content(),
        ResponseContent::Success {
            mimetype: "text/gemini".to_string(),
            body: "# Hello\n\nWorld\n".to_string()
        }
    );
}

#[test]
fn parse_response_without_optional_space() {
    let r = parse_response("51not found\r\ngone").unwrap();
    assert_eq!(r.status(), 51);
    assert_eq!(*r.content(), ResponseContent::PermanentFailure { error: "not found".to_string() });
}

#[test]
fn parse_response_rejects_bad_status_digits() {
    assert_eq!(parse_response("2x\r\n").unwrap_err(), ProtocolError::InvalidStatusLine);
    assert_eq!(parse_response("x2\r\n").unwrap_err(), ProtocolError::InvalidStatusLine);
    assert_eq!(parse_response("2").unwrap_err(), ProtocolError::InvalidStatusLine);
    assert_eq!(parse_response("").unwrap_err(), ProtocolError::InvalidStatusLine);
}

#[test]
fn parse_response_rejects_missing_crlf() {
    assert_eq!(parse_response("20 text/gemini\nbody").unwrap_err(), ProtocolError::MalformedResponse);
    assert_eq!(parse_response("20 text/gemini").unwrap_err(), ProtocolError::MalformedResponse);
}

#[test]
fn parse_response_rejects_unknown_class() {
    assert_eq!(parse_response("70 what\r\n").unwrap_err(), ProtocolError::InvalidStatusClass);
    assert_eq!(parse_response("09 what\r\n").unwrap_err(), ProtocolError::InvalidStatusClass);
}

#[test]
fn gemtext_empty_input_is_one_empty_text_line() {
    let mut ids = SequenceGenerator::new();
    let t = GemText::new("", &mut ids);
    assert_eq!(lines_of(&t), vec![&GemLine::Text(String::new())]);
}

#[test]
fn gemtext_plain_text_is_kept_exactly() {
    let mut ids = SequenceGenerator::new();
    let t = GemText::new("just some words", &mut ids);
    assert_eq!(lines_of(&t), vec![&GemLine::Text("just some words".to_string())]);
}

#[test]
fn gemtext_headings_and_links() {
    let mut ids = SequenceGenerator::new();
    let t = GemText::new(
        "# One\n##  Two\n### Three\n=> gemini://x/ A label\n=>gemini://y/\nplain",
        &mut ids,
    );
    let lines = lines_of(&t);
    assert_eq!(lines[0], &GemLine::Heading(1, "One".to_string()));
    assert_eq!(lines[1], &GemLine::Heading(2, "Two".to_string()));
    assert_eq!(lines[2], &GemLine::Heading(3, "Three".to_string()));
    assert_eq!(lines[3], &GemLine::Link("gemini://x/".to_string(), "A label".to_string()));
    assert_eq!(lines[4], &GemLine::Link("gemini://y/".to_string(), String::new()));
    assert_eq!(lines[5], &GemLine::Text("plain".to_string()));
}

#[test]
fn gemtext_preformatted_block() {
    let mut ids = SequenceGenerator::new();
    let t = GemText::new("```rust\nlet x = 1;\n\nlet y = 2;\n```\nafter", &mut ids);
    let lines = lines_of(&t);
    assert_eq!(
        lines[0],
        &GemLine::Preformatted("rust".to_string(), "let x = 1;\n\nlet y = 2;".to_string())
    );
    assert_eq!(lines[1], &GemLine::Text("after".to_string()));
}

#[test]
fn gemtext_unterminated_block_runs_to_end() {
    let mut ids = SequenceGenerator::new();
    let t = GemText::new("```alt\nverbatim", &mut ids);
    let lines = lines_of(&t);
    assert_eq!(lines, vec![&GemLine::Preformatted("alt".to_string(), "verbatim".to_string())]);
}

#[test]
fn gemtext_trailing_newline_terminates_the_last_line() {
    let mut ids = SequenceGenerator::new();
    let t = GemText::new("# Hello\n\nWorld\n", &mut ids);
    assert_eq!(
        lines_of(&t),
        vec![
            &GemLine::Heading(1, "Hello".to_string()),
            &GemLine::Text(String::new()),
            &GemLine::Text("World".to_string()),
        ]
    );
    let t = GemText::new("a\n", &mut ids);
    assert_eq!(lines_of(&t), vec![&GemLine::Text("a".to_string())]);
    let t = GemText::new("a\n\n", &mut ids);
    assert_eq!(
        lines_of(&t),
        vec![&GemLine::Text("a".to_string()), &GemLine::Text(String::new())]
    );
}

#[test]
fn gemtext_ids_are_fresh_and_increasing() {
    let mut ids = SequenceGenerator::new();
    let a = GemText::new("x\ny", &mut ids);
    let b = GemText::new("z", &mut ids);
    assert_eq!(a.0[0].0, 0);
    assert_eq!(a.0[1].0, 1);
    assert_eq!(b.0[0].0, 2);
}

#[test]
fn gemtext_raw_wraps_without_interpretation() {
    let mut ids = SequenceGenerator::new();
    let t = GemText::raw("# not a heading\n```".to_string(), &mut ids);
    assert_eq!(lines_of(&t), vec![&GemLine::Text("# not a heading\n```".to_string())]);
}

#[test]
fn derive_title_takes_first_heading_line() {
    assert_eq!(derive_title("plain\n# The Title \nrest"), Some("The Title".to_string()));
    assert_eq!(derive_title("## Sub"), Some("Sub".to_string()));
    assert_eq!(derive_title("### Deep"), Some("Deep".to_string()));
    assert_eq!(derive_title("##\nlater"), None);
    assert_eq!(derive_title("no heading at all"), None);
    assert_eq!(derive_title("#   \nlater\n# Real"), None);
}

#[test]
fn navigate_intent_prepends_scheme() {
    let u = navigate_intent("example.org/").unwrap();
    assert_eq!(u.scheme, "gemini");
    assert_eq!(u.host, "example.org");
    assert_eq!(u.serialized, "gemini://example.org/");
    let v = navigate_intent("gemini://example.org/page").unwrap();
    assert_eq!(v.serialized, "gemini://example.org/page");
}

#[test]
fn unknown_media_type_wraps_verbatim() {
    let mut ids = SequenceGenerator::new();
    let tpl = templates();
    let url = navigate_intent("example.org/").unwrap();
    let step = begin_navigation(url, &tpl, &mut ids);
    let state = match step {
        NavStep::Fetch(state) => state,
        _ => panic!("expected a fetch"),
    };
    assert_eq!(state.remaining, 32);
    assert_eq!(state.url.serialized, "gemini://example.org/");
    let step = continue_navigation(state, bytes("20 text/plain\r\nx"), &tpl, &mut ids);
    match step {
        NavStep::Done(t) => {
            assert_eq!(lines_of(&t.content), vec![&GemLine::Text("x".to_string())]);
        },
        _ => panic!("expected completion"),
    }
}

#[test]
fn end_to_end_gemini_document_and_title() {
    let mut ids = SequenceGenerator::new();
    let tpl = templates();
    let url = navigate_intent("example.org/").unwrap();
    let state = match begin_navigation(url, &tpl, &mut ids) {
        NavStep::Fetch(state) => state,
        _ => panic!("expected a fetch"),
    };
    let step = continue_navigation(state, bytes("20 text/gemini\r\n# Hello\n\nWorld\n"), &tpl, &mut ids);
    match step {
        NavStep::Done(t) => {
            assert_eq!(t.title, "Hello");
            assert_eq!(t.url.serialized, "gemini://example.org/");
            assert_eq!(t.display_url, "example.org/");
            assert_eq!(
                lines_of(&t.content),
                vec![
                    &GemLine::Heading(1, "Hello".to_string()),
                    &GemLine::Text(String::new()),
                    &GemLine::Text("World".to_string()),
                ]
            );
        },
        _ => panic!("expected completion"),
    }
}

#[test]
fn mimetype_parameters_are_stripped() {
    let mut ids = SequenceGenerator::new();
    let tpl = templates();
    let url = navigate_intent("example.org/").unwrap();
    let state = match begin_navigation(url, &tpl, &mut ids) {
        NavStep::Fetch(state) => state,
        _ => panic!("expected a fetch"),
    };
    let step = continue_navigation(
        state,
        bytes("20 text/gemini; charset=utf-8\r\n# Parsed"),
        &tpl,
        &mut ids,
    );
    match step {
        NavStep::Done(t) => {
            assert_eq!(t.title, "Parsed");
            assert_eq!(lines_of(&t.content), vec![&GemLine::Heading(1, "Parsed".to_string())]);
        },
        _ => panic!("expected completion"),
    }
}

#[test]
fn title_falls_back_to_url_when_no_heading() {
    let mut ids = SequenceGenerator::new();
    let tpl = templates();
    let url = navigate_intent("example.org/").unwrap();
    let state = match begin_navigation(url, &tpl, &mut ids) {
        NavStep::Fetch(state) => state,
        _ => panic!("expected a fetch"),
    };
    let step = continue_navigation(state, bytes("20 text/gemini\r\nno heading"), &tpl, &mut ids);
    match step {
        NavStep::Done(t) => assert_eq!(t.title, "example.org/"),
        _ => panic!("expected completion"),
    }
}

#[test]
fn malformed_response_becomes_error_tab_with_status_zero() {
    let mut ids = SequenceGenerator::new();
    let tpl = templates();
    let url = navigate_intent("example.org/").unwrap();
    let state = match begin_navigation(url, &tpl, &mut ids) {
        NavStep::Fetch(state) => state,
        _ => panic!("expected a fetch"),
    };
    let step = continue_navigation(state, bytes("2x\r\n"), &tpl, &mut ids);
    match step {
        NavStep::Done(t) => {
            assert_eq!(t.title, "invalid status line");
            let lines = lines_of(&t.content);
            assert_eq!(lines[0], &GemLine::Heading(1, "Error 0".to_string()));
            assert_eq!(lines[1], &GemLine::Text("invalid status line".to_string()));
        },
        _ => panic!("expected completion"),
    }
}

#[test]
fn invalid_utf8_becomes_error_tab() {
    let mut ids = SequenceGenerator::new();
    let tpl = templates();
    let url = navigate_intent("example.org/").unwrap();
    let state = match begin_navigation(url, &tpl, &mut ids) {
        NavStep::Fetch(state) => state,
        _ => panic!("expected a fetch"),
    };
    let step = continue_navigation(
        state,
        FetchOutcome::Response(vec![0xff, 0xfe, 0x20]),
        &tpl,
        &mut ids,
    );
    match step {
        NavStep::Done(t) => assert_eq!(t.title, "invalid response encoding"),
        _ => panic!("expected completion"),
    }
}

#[test]
fn transport_failure_becomes_error_tab() {
    let mut ids = SequenceGenerator::new();
    let tpl = templates();
    let url = navigate_intent("example.org/").unwrap();
    let state = match begin_navigation(url, &tpl, &mut ids) {
        NavStep::Fetch(state) => state,
        _ => panic!("expected a fetch"),
    };
    let step = continue_navigation(
        state,
        FetchOutcome::Failed("connection refused".to_string()),
        &tpl,
        &mut ids,
    );
    match step {
        NavStep::Done(t) => {
            assert_eq!(t.title, "connection refused");
            let lines = lines_of(&t.content);
            assert_eq!(lines[0], &GemLine::Heading(1, "Error 0".to_string()));
        },
        _ => panic!("expected completion"),
    }
}

#[test]
fn input_statuses_ask_the_user() {
    let mut ids = SequenceGenerator::new();
    let tpl = templates();
    for (line, want_sensitive) in [("10 Enter name\r\n", false), ("11 Enter name\r\n", true)] {
        let url = navigate_intent("example.org/").unwrap();
        let state = match begin_navigation(url, &tpl, &mut ids) {
            NavStep::Fetch(state) => state,
            _ => panic!("expected a fetch"),
        };
        let step = continue_navigation(state, bytes(line), &tpl, &mut ids);
        match step {
            NavStep::Input(ActionRequired::Input { prompt, sensitive }) => {
                assert_eq!(prompt, "Enter name");
                assert_eq!(sensitive, want_sensitive);
            },
            _ => panic!("expected an input request"),
        }
    }
}

#[test]
fn redirects_are_followed_and_resolved_relatively() {
    let mut ids = SequenceGenerator::new();
    let tpl = templates();
    let url = navigate_intent("example.org/start").unwrap();
    let state = match begin_navigation(url, &tpl, &mut ids) {
        NavStep::Fetch(state) => state,
        _ => panic!("expected a fetch"),
    };
    let step = continue_navigation(state, bytes("30 /other\r\n"), &tpl, &mut ids);
    match step {
        NavStep::Fetch(st) => {
            assert_eq!(st.url.serialized, "gemini://example.org/other");
            assert_eq!(st.remaining, 31);
        },
        _ => panic!("expected another fetch"),
    }
}

#[test]
fn redirect_loop_terminates_with_fallback() {
    let mut ids = SequenceGenerator::new();
    let tpl = templates();
    let url = navigate_intent("gemini://a.example/").unwrap();
    let state = match begin_navigation(url, &tpl, &mut ids) {
        NavStep::Fetch(state) => state,
        _ => panic!("expected a fetch"),
    };
    let state = match continue_navigation(state, bytes("30 gemini://b.example/\r\n"), &tpl, &mut ids)
    {
        NavStep::Fetch(st) => st,
        _ => panic!("expected another fetch"),
    };
    assert_eq!(state.url.serialized, "gemini://b.example/");
    let step = continue_navigation(state, bytes("30 gemini://a.example/\r\n"), &tpl, &mut ids);
    match step {
        NavStep::Done(t) => {
            // the fallback tab: empty document, URL-derived title
            assert!(t.content.0.is_empty());
            assert_eq!(t.title, "a.example/");
            assert_eq!(t.url.serialized, "gemini://a.example/");
        },
        _ => panic!("a redirect loop must end the navigation"),
    }
}

#[test]
fn redirect_chain_stops_at_the_bound() {
    let mut ids = SequenceGenerator::new();
    let tpl = templates();
    let url = navigate_intent("gemini://h0.example/").unwrap();
    let mut state = match begin_navigation(url, &tpl, &mut ids) {
        NavStep::Fetch(state) => state,
        _ => panic!("expected a fetch"),
    };
    let mut fetches = 1u32;
    loop {
        let target = format!("30 gemini://h{fetches}.example/\r\n");
        match continue_navigation(state, bytes(&target), &tpl, &mut ids) {
            NavStep::Fetch(st) => {
                state = st;
                fetches += 1;
            },
            NavStep::Done(t) => {
                assert!(t.content.0.is_empty());
                break;
            },
            _ => panic!("unexpected step"),
        }
        assert!(fetches <= 32, "the chain must stop within the fetch bound");
    }
    assert_eq!(fetches, 32);
}

#[test]
fn failure_statuses_render_the_template() {
    let mut ids = SequenceGenerator::new();
    let tpl = templates();
    let url = navigate_intent("example.org/").unwrap();
    let state = match begin_navigation(url, &tpl, &mut ids) {
        NavStep::Fetch(state) => state,
        _ => panic!("expected a fetch"),
    };
    let step = continue_navigation(state, bytes("41 server busy\r\n"), &tpl, &mut ids);
    match step {
        NavStep::Done(t) => {
            assert_eq!(t.title, "server busy");
            let lines = lines_of(&t.content);
            assert_eq!(lines[0], &GemLine::Heading(1, "Error 41".to_string()));
            assert_eq!(lines[1], &GemLine::Text("server busy".to_string()));
        },
        _ => panic!("expected completion"),
    }
}

#[test]
fn client_certificates_are_an_explicit_failure() {
    let mut ids = SequenceGenerator::new();
    let tpl = templates();
    let url = navigate_intent("example.org/").unwrap();
    let state = match begin_navigation(url, &tpl, &mut ids) {
        NavStep::Fetch(state) => state,
        _ => panic!("expected a fetch"),
    };
    let step = continue_navigation(state, bytes("60 cert please\r\n"), &tpl, &mut ids);
    match step {
        NavStep::Done(t) => assert_eq!(t.title, "client certificates are not implemented"),
        _ => panic!("expected completion"),
    }
}

#[test]
fn empty_media_type_is_an_error() {
    let mut ids = SequenceGenerator::new();
    let tpl = templates();
    let url = navigate_intent("example.org/").unwrap();
    let state = match begin_navigation(url, &tpl, &mut ids) {
        NavStep::Fetch(state) => state,
        _ => panic!("expected a fetch"),
    };
    let step = continue_navigation(state, bytes("20\r\nbody"), &tpl, &mut ids);
    match step {
        NavStep::Done(t) => assert_eq!(t.title, "empty media type"),
        _ => panic!("expected completion"),
    }
}

#[test]
fn internal_pages_resolve_without_network() {
    let mut ids = SequenceGenerator::new();
    let tpl = templates();
    let url = vostok::urls::about_new_url();
    assert_eq!(url.scheme, "about");
    match begin_navigation(url, &tpl, &mut ids) {
        NavStep::Done(t) => {
            assert_eq!(t.title, "New Tab");
            assert_eq!(t.display_url, "");
            let lines = lines_of(&t.content);
            assert_eq!(lines[0], &GemLine::Heading(1, "Welcome".to_string()));
        },
        _ => panic!("an internal page must resolve synchronously"),
    }
    let bogus = vostok::urls::Url {
        serialized: "about://bogus".to_string(),
        scheme: "about".to_string(),
        host: "bogus".to_string(),
    };
    match begin_navigation(bogus, &tpl, &mut ids) {
        NavStep::Done(t) => {
            assert_eq!(t.title, "Unknown browser page 'bogus'");
            assert_eq!(t.display_url, "");
        },
        _ => panic!("an internal page must resolve synchronously"),
    }
}

#[test]
fn request_line_is_url_then_crlf() {
    let u = navigate_intent("example.org/").unwrap();
    assert_eq!(vostok::urls::request_line(&u), "gemini://example.org/\r\n");
}

#[test]
fn submit_input_reissues_with_encoded_query() {
    let u = navigate_intent("example.org/search").unwrap();
    let v = vostok::urls::submit_input(&u, "hello world").unwrap();
    assert_eq!(v.serialized, "gemini://example.org/search?hello%20world");
    assert_eq!(v.scheme, "gemini");
    assert_eq!(v.host, "example.org");
    let w = vostok::urls::submit_input(&u, "plain").unwrap();
    assert_eq!(w.serialized, "gemini://example.org/search?plain");
}

#[test]
fn protocol_url_without_host_is_an_error() {
    let mut ids = SequenceGenerator::new();
    let tpl = templates();
    let hostless = vostok::urls::Url {
        serialized: "gemini:///page".to_string(),
        scheme: "gemini".to_string(),
        host: String::new(),
    };
    match begin_navigation(hostless, &tpl, &mut ids) {
        NavStep::Done(t) => assert_eq!(t.title, "URL has no host"),
        _ => panic!("a hostless URL must not reach the network"),
    }
}

#[test]
fn unsupported_scheme_is_an_error() {
    let mut ids = SequenceGenerator::new();
    let tpl = templates();
    let url = navigate_intent("gemini://example.org/").unwrap();
    let https = vostok::urls::Url {
        serialized: "https://example.org/".to_string(),
        scheme: "https".to_string(),
        host: url.host.clone(),
    };
    match begin_navigation(https, &tpl, &mut ids) {
        NavStep::Done(t) => assert_eq!(t.title, "unsupported URL scheme"),
        _ => panic!("expected completion"),
    }
}

#[test]
fn history_branches_on_navigation() {
    let mut ids = SequenceGenerator::new();
    let t0 = Tab::new(navigate_intent("t0.example/").unwrap(), &mut ids);
    let t1 = Tab::new(navigate_intent("t1.example/").unwrap(), &mut ids);
    let t2 = Tab::new(navigate_intent("t2.example/").unwrap(), &mut ids);
    let mut h = TabHistory::new(t0);
    assert_eq!(h.cursor, 0);
    h.navigate(t1);
    assert_eq!(h.entries.len(), 2);
    assert_eq!(h.cursor, 1);
    h.back();
    assert_eq!(h.cursor, 0);
    h.navigate(t2);
    assert_eq!(h.entries.len(), 2);
    assert_eq!(h.cursor, 1);
    assert_eq!(h.entries[0].title, "t0.example/");
    assert_eq!(h.entries[1].title, "t2.example/");
    assert_eq!(h.current().title, "t2.example/");
}

#[test]
fn history_cursor_moves_stay_in_bounds() {
    let mut ids = SequenceGenerator::new();
    let t0 = Tab::new(navigate_intent("t0.example/").unwrap(), &mut ids);
    let t1 = Tab::new(navigate_intent("t1.example/").unwrap(), &mut ids);
    let mut h = TabHistory::new(t0);
    h.back();
    assert_eq!(h.cursor, 0);
    h.forward();
    assert_eq!(h.cursor, 0);
    h.navigate(t1);
    h.forward();
    assert_eq!(h.cursor, 1);
    h.back();
    h.back();
    assert_eq!(h.cursor, 0);
}

#[test]
fn browser_state_tracks_tabs() {
    let mut ids = SequenceGenerator::new();
    let t0 = Tab::new(navigate_intent("t0.example/").unwrap(), &mut ids);
    let t1 = Tab::new(navigate_intent("t1.example/").unwrap(), &mut ids);
    let t2 = Tab::new(navigate_intent("t2.example/").unwrap(), &mut ids);
    let mut b = BrowserState::new(t0);
    b.add_tab(t1);
    assert_eq!(b.active, 1);
    assert_eq!(b.tabs.len(), 2);
    b.navigate_active(t2);
    assert_eq!(b.active_history().entries.len(), 2);
    assert_eq!(b.active_history().current().title, "t2.example/");
    b.back_active();
    assert_eq!(b.active_history().current().title, "t1.example/");
    b.forward_active();
    assert_eq!(b.active_history().current().title, "t2.example/");
    b.set_active(0);
    assert_eq!(b.active_history().current().title, "t0.example/");
}

#[test]
fn error_page_substitutes_placeholders_literally() {
    let mut ids = SequenceGenerator::new();
    let url = navigate_intent("example.org/").unwrap();
    let t = Tab::new_error(url, 51, "not found".to_string(), "E{{status}}:{{message}}", &mut ids);
    assert_eq!(t.title, "not found");
    assert_eq!(lines_of(&t.content), vec![&GemLine::Text("E51:not found".to_string())]);
}

#[test]
fn trust_accept_all_accepts_everything() {
    let mut store = TrustStore::new();
    let d = store.evaluate(TrustPolicy::AcceptAll, "example.org", &vec![1, 2, 3]);
    assert_eq!(d, TrustDecision::Accepted);
    assert!(store.pins.is_empty());
}

#[test]
fn trust_pins_on_first_use_and_rejects_mismatch() {
    let mut store = TrustStore::new();
    let first = store.evaluate(TrustPolicy::PinnedByHost, "example.org", &vec![1, 2, 3]);
    assert_eq!(first, TrustDecision::Accepted);
    let same = store.evaluate(TrustPolicy::PinnedByHost, "example.org", &vec![1, 2, 3]);
    assert_eq!(same, TrustDecision::Accepted);
    let changed = store.evaluate(TrustPolicy::PinnedByHost, "example.org", &vec![9, 9, 9]);
    assert_eq!(changed, TrustDecision::Rejected);
    let other = store.evaluate(TrustPolicy::PinnedByHost, "other.example", &vec![9, 9, 9]);
    assert_eq!(other, TrustDecision::Accepted);
    assert_eq!(store.pins.len(), 2);
}
