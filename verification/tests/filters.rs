use moss::filters::{choice_clicked, server_updates, status_updates, CheckBox, Filters, VersionCheckerFilter};

#[test]
fn choices_toggle_between_two_options_and_neither() {
    assert_eq!(choice_clicked(None, true), Some(true));
    assert_eq!(choice_clicked(Some(true), true), None);
    assert_eq!(choice_clicked(Some(true), false), Some(false));
    assert_eq!(choice_clicked(Some(false), false), None);
}

#[test]
fn status_and_server_choices_send_two_filters() {
    assert_eq!(status_updates(Some(false)), vec![(Filters::Enabled, true), (Filters::Disabled, false)]);
    assert_eq!(status_updates(Some(true)), vec![(Filters::Enabled, false), (Filters::Disabled, true)]);
    assert_eq!(status_updates(None), vec![(Filters::Enabled, false), (Filters::Disabled, false)]);
    assert_eq!(
        server_updates(Some(true)),
        vec![(Filters::AutoUpdateAvailable, true), (Filters::AutoUpdateUnsupported, false)]
    );
    assert_eq!(
        server_updates(Some(false)),
        vec![(Filters::AutoUpdateAvailable, false), (Filters::AutoUpdateUnsupported, true)]
    );
}

#[test]
fn version_checker_heading() {
    let mut v = VersionCheckerFilter::default();
    assert_eq!(v.heading_box(), CheckBox::Empty);
    let sent = v.heading_clicked();
    assert_eq!(sent.len(), 7);
    assert!(sent.iter().all(|(_, on)| *on));
    assert_eq!(sent[6], (Filters::Discrepancy, true));
    assert_eq!(v.heading_box(), CheckBox::Filled);
    assert_eq!(v.option_clicked(Filters::Minor), Some((Filters::Minor, false)));
    assert!(!v.minor);
    assert_eq!(v.heading_box(), CheckBox::Indeterminate);
    let sent = v.heading_clicked();
    assert!(sent.iter().all(|(_, on)| !*on));
    assert_eq!(v, VersionCheckerFilter::default());
    assert_eq!(v.option_clicked(Filters::Enabled), None);
    assert_eq!(v, VersionCheckerFilter::default());
}
