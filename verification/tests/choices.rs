use abbey::autosave::AutosaveScheduler;
use abbey::choices::{
    bearer, conclude_append, display_title, flow_saved_notice, move_request, page_at,
    parse_duration_choice,
    parse_move_target, publish_ready, publish_result, publish_url, words_label, Page,
};
use abbey::settings::{color_scheme_of, ColorScheme};
use abbey::storage::StoreError;

#[test]
fn the_navigation_rows_lead_to_their_pages() {
    assert_eq!(page_at(0), Some(Page::Writing));
    assert_eq!(page_at(1), Some(Page::FlowHistory));
    assert_eq!(page_at(2), Some(Page::Projects));
    assert_eq!(page_at(3), Some(Page::Archive));
    assert_eq!(page_at(4), None);
    assert_eq!(page_at(-1), None);
}

#[test]
fn the_duration_dialog_offers_four_lengths() {
    assert_eq!(parse_duration_choice("5"), Some(5));
    assert_eq!(parse_duration_choice("10"), Some(10));
    assert_eq!(parse_duration_choice("15"), Some(15));
    assert_eq!(parse_duration_choice("20"), Some(20));
    assert_eq!(parse_duration_choice("cancel"), None);
    assert_eq!(parse_duration_choice("25"), None);
    assert_eq!(parse_duration_choice(" 5"), None);
    assert_eq!(parse_duration_choice(""), None);
}

#[test]
fn a_move_request_names_a_composition_and_a_folder() {
    assert_eq!(
        parse_move_target("c1::f1"),
        Some(("c1".to_string(), Some("f1".to_string())))
    );
    assert_eq!(parse_move_target("c1::"), Some(("c1".to_string(), None)));
    assert_eq!(parse_move_target("::"), Some(("".to_string(), None)));
    assert_eq!(
        parse_move_target("a:::b"),
        Some(("a".to_string(), Some(":b".to_string())))
    );
    assert_eq!(parse_move_target("c1"), None);
    assert_eq!(parse_move_target("c1:f1"), None);
    assert_eq!(parse_move_target("a::b::c"), None);
    assert_eq!(parse_move_target("a::::b"), None);
    assert_eq!(parse_move_target(""), None);
}

#[test]
fn an_untitled_composition_is_shown_as_such() {
    assert_eq!(display_title(""), "Untitled");
    assert_eq!(display_title("My Essay"), "My Essay");
    assert_eq!(display_title(" "), " ");
}

#[test]
fn the_writer_is_told_how_the_flow_was_stored() {
    assert_eq!(flow_saved_notice(Ok(()), 42), "Flow saved! 42 words written");
    assert_eq!(flow_saved_notice(Ok(()), 0), "Flow saved! 0 words written");
    assert_eq!(flow_saved_notice(Err(StoreError::Io), 42), "Failed to save flow");
}

#[test]
fn a_failed_journal_leaves_the_stored_flow_stored() {
    let both = conclude_append(Ok(()), Ok(()));
    assert!(both.record_stored && both.journal_written);
    assert_eq!(both.error, None);
    let journal_failed = conclude_append(Ok(()), Err(StoreError::Io));
    assert!(journal_failed.record_stored);
    assert!(!journal_failed.journal_written);
    assert_eq!(journal_failed.error, Some(StoreError::Io));
    let save_failed = conclude_append(Err(StoreError::Decode), Ok(()));
    assert!(!save_failed.record_stored);
    assert!(!save_failed.journal_written);
    assert_eq!(save_failed.error, Some(StoreError::Decode));
}

#[test]
fn a_failed_flush_is_reported_and_blocks_nothing() {
    let mut scheduler = AutosaveScheduler::new();
    let step = scheduler.notify_changed();
    assert!(scheduler.timer_fired(step.arm));
    assert_eq!(scheduler.flush_finished(Err(StoreError::Io)), Some(StoreError::Io));
    assert!(!scheduler.is_armed());
    assert!(scheduler.can_arm());
    let next = scheduler.notify_changed();
    assert_eq!(next.cancel, None);
    assert!(scheduler.timer_fired(next.arm));
    assert_eq!(scheduler.flush_finished(Ok(())), None);
}

#[test]
fn publishing_needs_an_endpoint_and_a_key() {
    assert!(publish_ready("https://x", "key"));
    assert!(!publish_ready("", "key"));
    assert!(!publish_ready("https://x", ""));
    assert_eq!(publish_url("https://x", ""), "https://x");
    assert_eq!(publish_url("https://x", "blog"), "https://x/micropub");
    assert_eq!(bearer("secret"), "Bearer secret");
    assert_eq!(publish_result(true, "200 OK"), Ok(()));
    assert_eq!(
        publish_result(false, "500 Internal Server Error"),
        Err("Server returned status: 500 Internal Server Error".to_string())
    );
}

#[test]
fn themes_ask_for_their_color_scheme() {
    assert_eq!(color_scheme_of("system-light"), ColorScheme::ForceLight);
    assert_eq!(color_scheme_of("system-dark"), ColorScheme::ForceDark);
    assert_eq!(color_scheme_of("newspaper"), ColorScheme::ForceLight);
    assert_eq!(color_scheme_of("parchment"), ColorScheme::ForceLight);
    assert_eq!(color_scheme_of("anything else"), ColorScheme::Default);
}

#[test]
fn the_editor_shows_its_words() {
    assert_eq!(words_label(0), "0 words");
    assert_eq!(words_label(1), "1 words");
    assert_eq!(words_label(1234), "1234 words");
}

#[test]
fn a_move_request_is_read_as_it_was_written() {
    assert_eq!(move_request("c1", Some("f1")), "c1::f1");
    assert_eq!(move_request("c1", None), "c1::");
    let id = "3f2b8c1e-0000-4000-8000-123456789abc";
    let folder = "9a9a9a9a-1111-4111-8111-abcdefabcdef";
    assert_eq!(
        parse_move_target(&move_request(id, Some(folder))),
        Some((id.to_string(), Some(folder.to_string())))
    );
    assert_eq!(parse_move_target(&move_request(id, None)), Some((id.to_string(), None)));
}
