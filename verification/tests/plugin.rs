use prelearning::plugin::{next_action, observed_properties, subtitle_entry, PluginAction, PluginEvent};

#[test]
fn observes_subtitles_and_file_name() {
    let props = observed_properties();
    assert_eq!(props, vec![(1, "sub-text".to_owned()), (2, "filename".to_owned())]);
}

#[test]
fn events_lead_to_actions() {
    assert!(matches!(next_action(PluginEvent::Shutdown), PluginAction::Stop));
    assert!(matches!(next_action(PluginEvent::Other), PluginAction::Nothing));
    let sub = PluginEvent::PropertyChange { id: 1, name: "sub-text".to_owned(), data: Some("猫".to_owned()) };
    match next_action(sub) {
        PluginAction::AddSubtitle(Some(t)) => assert_eq!(t, "猫"),
        other => panic!("unexpected {:?}", other),
    }
    let file = PluginEvent::PropertyChange { id: 2, name: "filename".to_owned(), data: None };
    assert!(matches!(next_action(file), PluginAction::ClearSubtitles));
}

#[test]
fn subtitle_lines_cleaned_and_copied() {
    assert_eq!(
        subtitle_entry("%s猫が\u{3000}\n好き"),
        Some(("猫が\n好き".to_owned(), "猫が好き".to_owned()))
    );
    assert_eq!(subtitle_entry("%s\u{3000}"), None);
}
