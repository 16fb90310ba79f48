use papra_vector_search::ui::{result_initial, results_heading, ReplyStep, SearchPage, SubmitAction};

fn signed_in_page(query: &str) -> SearchPage {
    let mut page = SearchPage::new();
    assert!(page.receive_sign_in("https://app.example", "https://app.example", Some("tok".to_owned())));
    page.set_query(query.to_owned());
    page
}

#[test]
fn fresh_page_offers_sign_in() {
    let page = SearchPage::new();
    assert!(page.auth_enabled);
    assert!(!page.shows_sign_out());
    assert!(!page.shows_search_form());
    assert!(!page.shows_empty_notice());
    assert_eq!(page.submit_label(), "Search");
}

#[test]
fn submit_before_sign_in_is_refused() {
    let mut page = SearchPage::new();
    page.set_query("  hello ".to_owned());
    assert!(matches!(page.submit(), SubmitAction::Refused));
    assert_eq!(page.error.as_deref(), Some("Sign in with Google before searching."));
    assert!(page.has_searched);
    assert!(!page.loading);
}

#[test]
fn submit_without_auth_needs_no_token() {
    let mut page = SearchPage::new();
    page.set_auth_enabled(false);
    page.set_query("hello".to_owned());
    assert!(page.shows_search_form());
    match page.submit() {
        SubmitAction::Send { query, authorization } => {
            assert_eq!(query, "hello");
            assert_eq!(authorization, None);
        }
        SubmitAction::Refused => panic!("search was refused"),
    }
}

#[test]
fn submit_sends_trimmed_query_with_bearer_token() {
    let mut page = signed_in_page("  project launch notes \n");
    match page.submit() {
        SubmitAction::Send { query, authorization } => {
            assert_eq!(query, "project launch notes");
            assert_eq!(authorization.as_deref(), Some("Bearer tok"));
        }
        SubmitAction::Refused => panic!("search was refused"),
    }
    assert!(page.loading);
    assert_eq!(page.error, None);
    assert_eq!(page.submit_label(), "Searching\u{2026}");
}

#[test]
fn submit_refuses_blank_and_overlong_queries() {
    let mut page = signed_in_page("   ");
    assert!(matches!(page.submit(), SubmitAction::Refused));
    assert_eq!(page.error.as_deref(), Some("Searches must contain 1 to 1,000 characters."));

    let mut page = signed_in_page(&"é".repeat(1001));
    assert!(matches!(page.submit(), SubmitAction::Refused));
    assert_eq!(page.error.as_deref(), Some("Searches must contain 1 to 1,000 characters."));

    let mut page = signed_in_page(&"é".repeat(1000));
    assert!(matches!(page.submit(), SubmitAction::Send { .. }));
}

#[test]
fn unreachable_service_ends_the_search() {
    let mut page = signed_in_page("q");
    page.submit();
    assert_eq!(page.on_status(None), ReplyStep::Done);
    assert!(!page.loading);
    assert_eq!(page.error.as_deref(), Some("The search service could not be reached."));
}

#[test]
fn unauthorized_reply_signs_out_and_reopens_login() {
    let mut page = signed_in_page("q");
    page.submit();
    assert_eq!(page.on_status(Some(401)), ReplyStep::OpenLogin);
    assert_eq!(page.token, None);
    assert!(!page.loading);
    assert_eq!(page.error.as_deref(), Some("Your session expired. Please sign in again."));
    assert!(!page.shows_sign_out());
    assert!(!page.shows_search_form());
}

#[test]
fn failed_reply_shows_service_error() {
    let mut page = signed_in_page("q");
    page.submit();
    assert_eq!(page.on_status(Some(500)), ReplyStep::Done);
    assert_eq!(page.error.as_deref(), Some("The search service returned an error. Try again."));
    assert_eq!(page.on_status(Some(302)), ReplyStep::Done);
}

#[test]
fn successful_reply_reads_results() {
    let mut page = signed_in_page("q");
    page.submit();
    assert_eq!(page.on_status(Some(200)), ReplyStep::ReadBody);
    assert!(page.loading);
    page.on_results(Some(3));
    assert!(!page.loading);
    assert_eq!(page.result_count, 3);
    assert!(!page.shows_empty_notice());

    let mut page = signed_in_page("q");
    page.submit();
    page.on_status(Some(204));
    page.on_results(Some(0));
    assert!(page.shows_empty_notice());
}

#[test]
fn unreadable_results_show_invalid_reply() {
    let mut page = signed_in_page("q");
    page.submit();
    page.on_status(Some(200));
    page.on_results(None);
    assert!(!page.loading);
    assert_eq!(page.error.as_deref(), Some("The search response was invalid."));
    assert_eq!(page.result_count, 0);
}

#[test]
fn sign_in_messages_need_a_trusted_origin() {
    let mut page = SearchPage::new();
    assert!(!page.receive_sign_in("https://evil.example", "https://app.example", Some("x".to_owned())));
    assert_eq!(page.token, None);
    assert!(!page.receive_sign_in("https://app.example", "https://app.example", None));
    assert!(page.receive_sign_in("https://app.example", "https://app.example", Some("a".to_owned())));
    assert_eq!(page.token.as_deref(), Some("a"));
    assert!(page.receive_sign_in("http://localhost:3000", "https://app.example", Some("b".to_owned())));
    assert!(page.receive_sign_in("http://127.0.0.1:3000", "https://app.example", Some("c".to_owned())));
    assert_eq!(page.token.as_deref(), Some("c"));
    assert!(page.shows_sign_out());
}

#[test]
fn log_out_clears_token_and_results() {
    let mut page = signed_in_page("q");
    page.submit();
    page.on_status(Some(200));
    page.on_results(Some(2));
    page.log_out();
    assert_eq!(page.token, None);
    assert_eq!(page.result_count, 0);
    assert!(!page.has_searched);
    assert!(!page.shows_search_form());
    assert!(!page.shows_empty_notice());
}

#[test]
fn result_card_texts() {
    assert_eq!(results_heading(3), "3 found");
    assert_eq!(results_heading(0), "0 found");
    assert_eq!(result_initial("Budget 2026"), "B");
    assert_eq!(result_initial("Économie"), "É");
    assert_eq!(result_initial(""), "DOC");
}
