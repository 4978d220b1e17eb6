use spider::apps::{get_app_details, AppDetails, SettingsStore};
use spider::launcher::{
    create_app, desktop_entry, install_app, portal_error_message, reinstall_app, save_details,
    uninstall_app, Action, CreateError, Event, Flow, ReinstallError, SaveOutcome, Stage,
};
use spider::strmap::StrMap;

fn empty_store() -> SettingsStore {
    SettingsStore { app_ids: Vec::new(), apps_settings: StrMap::new() }
}

fn sample(id: &str) -> AppDetails {
    AppDetails::new(id.to_string(), "Example".to_string(), "https://example.com/".to_string())
}

fn step(flow: &mut Flow, event: Event, store: &mut SettingsStore) -> Action {
    flow.step(event, store).action
}

fn fail_message(action: Action) -> String {
    match action {
        Action::Fail { message } => message,
        other => panic!("expected a failure, got {:?}", other),
    }
}

#[test]
fn launcher_descriptor_text() {
    let d = sample("abcdefghij");
    assert_eq!(
        desktop_entry(&d),
        "[Desktop Entry]\nName=Example\nTerminal=false\nType=Application\nCategories=Network;\nExec=env spider abcdefghij"
    );
}

#[test]
fn portal_messages_for_the_user() {
    assert_eq!(portal_error_message(None), "unknown");
    assert_eq!(
        portal_error_message(Some("Dynamic launcher icon failed validation".to_string())),
        "Invalid icon, maybe bad size or format"
    );
    assert_eq!(portal_error_message(Some("Something else".to_string())), "Something else");
    assert_eq!(portal_error_message(Some(String::new())), "");
}

#[test]
fn install_saves_the_record_after_the_portal_confirmed() {
    let mut store = empty_store();
    let mut flow = install_app(sample("abcdefghij"), vec![1, 2, 3]);
    assert_eq!(flow.stage, Stage::Start);
    match step(&mut flow, Event::Started, &mut store) {
        Action::PrepareInstall { title, icon } => {
            assert_eq!(title, "Example");
            assert_eq!(icon, vec![1, 2, 3]);
        }
        other => panic!("unexpected {:?}", other),
    }
    assert_eq!(flow.stage, Stage::AwaitPrepare);
    assert!(store.app_ids.is_empty());
    match step(&mut flow, Event::Granted("token-1".to_string()), &mut store) {
        Action::InstallLauncher { token, desktop_id, desktop_entry } => {
            assert_eq!(token, "token-1");
            assert_eq!(desktop_id, "io.github.zaedus.spider.abcdefghij.desktop");
            assert!(desktop_entry.ends_with("Exec=env spider abcdefghij"));
            assert!(desktop_entry.starts_with("[Desktop Entry]\nName=Example\n"));
        }
        other => panic!("unexpected {:?}", other),
    }
    assert_eq!(flow.stage, Stage::AwaitInstall);
    assert!(store.app_ids.is_empty());
    assert!(get_app_details(&store, "abcdefghij").is_none());
    assert!(matches!(step(&mut flow, Event::Succeeded, &mut store), Action::Finish));
    assert_eq!(flow.stage, Stage::Done);
    assert_eq!(store.app_ids, vec!["abcdefghij".to_string()]);
    let saved = get_app_details(&store, "abcdefghij").unwrap();
    assert_eq!(saved.title, "Example");
    assert_eq!(saved.url, "https://example.com/");
}

#[test]
fn refused_install_leaves_no_record() {
    let mut store = empty_store();
    let mut flow = install_app(sample("abcdefghij"), vec![1]);
    step(&mut flow, Event::Started, &mut store);
    let refused = Event::Refused(Some("Dynamic launcher icon failed validation".to_string()));
    assert_eq!(
        fail_message(step(&mut flow, refused, &mut store)),
        "Invalid icon, maybe bad size or format"
    );
    assert_eq!(flow.stage, Stage::Failed);
    assert!(store.app_ids.is_empty());
    assert_eq!(store.apps_settings.len(), 0);
    assert_eq!(fail_message(step(&mut flow, Event::Succeeded, &mut store)), "unexpected event");
    assert!(store.app_ids.is_empty());
}

#[test]
fn cancelled_install_leaves_no_record() {
    let mut store = empty_store();
    let mut flow = install_app(sample("abcdefghij"), vec![1]);
    step(&mut flow, Event::Started, &mut store);
    assert_eq!(fail_message(step(&mut flow, Event::Failed("cancelled".to_string()), &mut store)), "cancelled");
    assert!(store.app_ids.is_empty());
    let mut flow = install_app(sample("abcdefghij"), vec![1]);
    step(&mut flow, Event::Started, &mut store);
    step(&mut flow, Event::Granted("t".to_string()), &mut store);
    assert_eq!(fail_message(step(&mut flow, Event::Failed("portal died".to_string()), &mut store)), "portal died");
    assert!(store.app_ids.is_empty());
    let mut flow = install_app(sample("abcdefghij"), vec![1]);
    step(&mut flow, Event::Started, &mut store);
    assert_eq!(fail_message(step(&mut flow, Event::Refused(None), &mut store)), "unknown");
}

#[test]
fn reports_out_of_turn_end_the_flow() {
    let mut store = empty_store();
    let mut flow = install_app(sample("abcdefghij"), vec![1]);
    assert_eq!(fail_message(step(&mut flow, Event::Succeeded, &mut store)), "unexpected event");
    assert_eq!(flow.stage, Stage::Failed);
    let mut flow = install_app(sample("abcdefghij"), vec![1]);
    step(&mut flow, Event::Started, &mut store);
    assert_eq!(fail_message(step(&mut flow, Event::Succeeded, &mut store)), "unexpected event");
    assert!(store.app_ids.is_empty());
    let mut flow = Flow { stage: Stage::Start, remove: None, install: None, icon: None };
    assert_eq!(fail_message(step(&mut flow, Event::Started, &mut store)), "nothing to do");
}

#[test]
fn uninstall_deletes_the_record_when_the_launcher_is_gone() {
    let mut store = empty_store();
    sample("abcdefghij").save(&mut store);
    sample("klmnopqrst").save(&mut store);
    let mut flow = uninstall_app("abcdefghij");
    let first = flow.step(Event::Started, &mut store);
    assert!(!first.write_store);
    match first.action {
        Action::RemoveLauncher { desktop_id } => {
            assert_eq!(desktop_id, "io.github.zaedus.spider.abcdefghij.desktop")
        }
        other => panic!("unexpected {:?}", other),
    }
    assert_eq!(store.app_ids.len(), 2);
    let second = flow.step(Event::Succeeded, &mut store);
    assert!(second.write_store);
    match second.action {
        Action::RemoveDirs { id } => assert_eq!(id, "abcdefghij"),
        other => panic!("unexpected {:?}", other),
    }
    assert_eq!(store.app_ids, vec!["klmnopqrst".to_string()]);
    assert!(get_app_details(&store, "abcdefghij").is_none());
    let third = flow.step(Event::Succeeded, &mut store);
    assert!(!third.write_store);
    assert!(matches!(third.action, Action::Finish));
    assert_eq!(flow.stage, Stage::Done);
    assert_eq!(store.app_ids, vec!["klmnopqrst".to_string()]);
}

#[test]
fn failed_launcher_removal_keeps_the_record() {
    let mut store = empty_store();
    sample("abcdefghij").save(&mut store);
    let mut flow = uninstall_app("abcdefghij");
    step(&mut flow, Event::Started, &mut store);
    let failed = flow.step(Event::Failed("no portal".to_string()), &mut store);
    assert!(!failed.write_store);
    assert_eq!(fail_message(failed.action), "no portal");
    assert_eq!(flow.stage, Stage::Failed);
    assert_eq!(store.app_ids, vec!["abcdefghij".to_string()]);
    assert!(get_app_details(&store, "abcdefghij").is_some());
}

#[test]
fn failed_directory_removal_does_not_bring_the_record_back() {
    let mut store = empty_store();
    sample("abcdefghij").save(&mut store);
    let mut flow = uninstall_app("abcdefghij");
    step(&mut flow, Event::Started, &mut store);
    step(&mut flow, Event::Succeeded, &mut store);
    assert!(store.app_ids.is_empty());
    let last = flow.step(Event::Failed("busy".to_string()), &mut store);
    assert!(!last.write_store);
    assert!(matches!(last.action, Action::Finish));
    assert_eq!(flow.stage, Stage::Done);
    assert!(store.app_ids.is_empty());
    assert!(get_app_details(&store, "abcdefghij").is_none());
}

#[test]
fn reinstall_of_a_current_identifier_keeps_it() {
    let mut store = empty_store();
    sample("abcdefghij").with_window_state(640, 480, false).save(&mut store);
    let mut flow = reinstall_app(&store, "abcdefghij").unwrap();
    assert_eq!(flow.remove, None);
    assert_eq!(flow.install.as_ref().unwrap().id, "abcdefghij");
    match step(&mut flow, Event::Started, &mut store) {
        Action::FetchIcon { desktop_id } => {
            assert_eq!(desktop_id, "io.github.zaedus.spider.abcdefghij.desktop")
        }
        other => panic!("unexpected {:?}", other),
    }
    match step(&mut flow, Event::Icon(vec![7, 7]), &mut store) {
        Action::PrepareInstall { title, icon } => {
            assert_eq!(title, "Example");
            assert_eq!(icon, vec![7, 7]);
        }
        other => panic!("unexpected {:?}", other),
    }
    assert!(matches!(
        step(&mut flow, Event::Granted("t".to_string()), &mut store),
        Action::InstallLauncher { .. }
    ));
    assert!(matches!(step(&mut flow, Event::Succeeded, &mut store), Action::Finish));
    assert_eq!(store.app_ids, vec!["abcdefghij".to_string()]);
    assert_eq!(get_app_details(&store, "abcdefghij").unwrap().window_width, 640);
}

#[test]
fn reinstall_of_an_older_identifier_migrates_it() {
    let mut store = empty_store();
    let mut old = sample("My Old Web App");
    old.window_width = 900;
    old.save(&mut store);
    let mut flow = reinstall_app(&store, "My Old Web App").unwrap();
    assert_eq!(flow.remove, Some("My Old Web App".to_string()));
    let new_id = flow.install.as_ref().unwrap().id.clone();
    assert_eq!(new_id.len(), 10);
    assert!(new_id.chars().all(|c| ('a'..='z').contains(&c)));
    match step(&mut flow, Event::Started, &mut store) {
        Action::FetchIcon { desktop_id } => {
            assert_eq!(desktop_id, "io.github.zaedus.spider.My Old Web App.desktop")
        }
        other => panic!("unexpected {:?}", other),
    }
    match step(&mut flow, Event::Icon(vec![5]), &mut store) {
        Action::CopyDirs { old_id, new_id: to } => {
            assert_eq!(old_id, "My Old Web App");
            assert_eq!(to, new_id);
        }
        other => panic!("unexpected {:?}", other),
    }
    assert_eq!(flow.stage, Stage::AwaitCopy);
    match step(&mut flow, Event::Succeeded, &mut store) {
        Action::PrepareInstall { title, icon } => {
            assert_eq!(title, "Example");
            assert_eq!(icon, vec![5]);
        }
        other => panic!("unexpected {:?}", other),
    }
    match step(&mut flow, Event::Granted("t".to_string()), &mut store) {
        Action::InstallLauncher { desktop_id, .. } => {
            assert_eq!(desktop_id, format!("io.github.zaedus.spider.{}.desktop", new_id))
        }
        other => panic!("unexpected {:?}", other),
    }
    assert_eq!(store.app_ids, vec!["My Old Web App".to_string()]);
    let installed = flow.step(Event::Succeeded, &mut store);
    assert!(installed.write_store);
    match installed.action {
        Action::RemoveLauncher { desktop_id } => {
            assert_eq!(desktop_id, "io.github.zaedus.spider.My Old Web App.desktop")
        }
        other => panic!("unexpected {:?}", other),
    }
    assert_eq!(store.app_ids, vec!["My Old Web App".to_string(), new_id.clone()]);
    assert!(get_app_details(&store, "My Old Web App").is_some());
    let removed = flow.step(Event::Succeeded, &mut store);
    assert!(removed.write_store);
    assert!(matches!(removed.action, Action::RemoveDirs { .. }));
    assert_eq!(store.app_ids, vec![new_id.clone()]);
    assert!(matches!(step(&mut flow, Event::Succeeded, &mut store), Action::Finish));
    assert_eq!(store.app_ids, vec![new_id.clone()]);
    let moved = get_app_details(&store, &new_id).unwrap();
    assert_eq!(moved.window_width, 900);
    assert_eq!(moved.title, "Example");
    assert!(get_app_details(&store, "My Old Web App").is_none());
}

#[test]
fn refused_install_during_migration_leaves_the_old_app_intact() {
    let mut store = empty_store();
    sample("legacy").with_window_state(700, 500, false).save(&mut store);
    let mut flow = reinstall_app(&store, "legacy").unwrap();
    let new_id = flow.install.as_ref().unwrap().id.clone();
    step(&mut flow, Event::Started, &mut store);
    step(&mut flow, Event::Icon(vec![5]), &mut store);
    assert!(matches!(
        step(&mut flow, Event::Succeeded, &mut store),
        Action::PrepareInstall { .. }
    ));
    let refused = flow.step(Event::Failed("cancelled".to_string()), &mut store);
    assert!(!refused.write_store);
    assert_eq!(fail_message(refused.action), "cancelled");
    assert_eq!(flow.stage, Stage::Failed);
    assert_eq!(store.app_ids, vec!["legacy".to_string()]);
    assert_eq!(get_app_details(&store, "legacy").unwrap().window_width, 700);
    assert!(!store.apps_settings.contains_key(&new_id));

    let mut flow = reinstall_app(&store, "legacy").unwrap();
    step(&mut flow, Event::Started, &mut store);
    step(&mut flow, Event::Icon(vec![5]), &mut store);
    step(&mut flow, Event::Succeeded, &mut store);
    step(&mut flow, Event::Granted("t".to_string()), &mut store);
    assert_eq!(
        fail_message(step(&mut flow, Event::Failed("portal died".to_string()), &mut store)),
        "portal died"
    );
    assert_eq!(store.app_ids, vec!["legacy".to_string()]);
    assert!(get_app_details(&store, "legacy").is_some());
}

#[test]
fn failed_copy_leaves_the_old_app_and_does_not_list_the_new_identifier() {
    let mut store = empty_store();
    sample("legacy").save(&mut store);
    let mut flow = reinstall_app(&store, "legacy").unwrap();
    let new_id = flow.install.as_ref().unwrap().id.clone();
    step(&mut flow, Event::Started, &mut store);
    assert!(matches!(step(&mut flow, Event::Icon(vec![5]), &mut store), Action::CopyDirs { .. }));
    assert_eq!(
        fail_message(step(&mut flow, Event::Failed("disk full".to_string()), &mut store)),
        "disk full"
    );
    assert_eq!(flow.stage, Stage::Failed);
    assert_eq!(store.app_ids, vec!["legacy".to_string()]);
    assert!(!store.app_ids.contains(&new_id));
    assert!(!store.apps_settings.contains_key(&new_id));
    assert!(get_app_details(&store, "legacy").is_some());
    assert_eq!(fail_message(step(&mut flow, Event::Succeeded, &mut store)), "unexpected event");
    assert_eq!(store.app_ids, vec!["legacy".to_string()]);
}

#[test]
fn failed_icon_fetch_ends_the_reinstall() {
    let mut store = empty_store();
    sample("legacy").save(&mut store);
    let mut flow = reinstall_app(&store, "legacy").unwrap();
    step(&mut flow, Event::Started, &mut store);
    assert_eq!(fail_message(step(&mut flow, Event::Failed("no icon".to_string()), &mut store)), "no icon");
    assert_eq!(store.app_ids, vec!["legacy".to_string()]);
}

#[test]
fn reinstall_of_an_unknown_app_fails() {
    let store = empty_store();
    assert_eq!(reinstall_app(&store, "abcdefghij").unwrap_err(), ReinstallError::UnknownApp);
    assert_eq!(ReinstallError::UnknownApp.message(), "failed to get app details");
}

#[test]
fn planned_reinstall_uses_the_fresh_identifier_only_for_older_formats() {
    let flow = Flow::reinstall(sample("abcdefghij"), "zzzzzzzzzz".to_string());
    assert_eq!(flow.remove, None);
    assert_eq!(flow.install.unwrap().id, "abcdefghij");
    let flow = Flow::reinstall(sample("old"), "zzzzzzzzzz".to_string());
    assert_eq!(flow.remove, Some("old".to_string()));
    let install = flow.install.unwrap();
    assert_eq!(install.id, "zzzzzzzzzz");
    assert_eq!(install.title, "Example");
    assert_eq!(flow.icon, None);
}

#[test]
fn creating_an_app_draws_an_identifier_and_installs() {
    let mut store = empty_store();
    sample("abcdefghij").save(&mut store);
    let mut flow = create_app(
        &store.app_ids,
        "New".to_string(),
        "https://new.example/".to_string(),
        Some(vec![4, 2]),
    )
    .unwrap();
    let details = flow.install.as_ref().unwrap();
    let id = details.id.clone();
    assert_eq!(id.len(), 10);
    assert!(id.chars().all(|c| ('a'..='z').contains(&c)));
    assert_ne!(id, "abcdefghij");
    assert_eq!(details.title, "New");
    assert_eq!(details.url, "https://new.example/");
    assert_eq!(details.window_width, 400);
    assert_eq!(flow.remove, None);
    assert_eq!(flow.icon, Some(vec![4, 2]));
    assert!(matches!(step(&mut flow, Event::Started, &mut store), Action::PrepareInstall { .. }));
    step(&mut flow, Event::Granted("t".to_string()), &mut store);
    assert!(matches!(step(&mut flow, Event::Succeeded, &mut store), Action::Finish));
    assert_eq!(store.app_ids, vec!["abcdefghij".to_string(), id.clone()]);
    assert_eq!(get_app_details(&store, &id).unwrap().title, "New");
    assert_eq!(
        create_app(&store.app_ids, "".to_string(), "https://x.example/".to_string(), Some(vec![1]))
            .unwrap_err(),
        CreateError::InvalidInput
    );
    assert_eq!(
        create_app(&store.app_ids, "T".to_string(), "x.example".to_string(), Some(vec![1]))
            .unwrap_err(),
        CreateError::InvalidInput
    );
    assert_eq!(
        create_app(&store.app_ids, "T".to_string(), "https://x.example/".to_string(), None)
            .unwrap_err(),
        CreateError::InvalidInput
    );
}

#[test]
fn saving_edits_by_their_significance() {
    let mut store = empty_store();
    let current = sample("abcdefghij").with_icon(vec![1]);
    current.save(&mut store);
    let same = current.edited(current.url.clone(), current.title.clone(), true, None);
    assert!(matches!(save_details(&current, same, &mut store), SaveOutcome::Unchanged));
    let settings = current.edited("https://other.example/".to_string(), current.title.clone(), false, None);
    assert!(matches!(save_details(&current, settings, &mut store), SaveOutcome::Saved));
    let stored = get_app_details(&store, "abcdefghij").unwrap();
    assert_eq!(stored.url, "https://other.example/");
    assert_eq!(stored.has_titlebar_color, false);
    let renamed = current.edited(current.url.clone(), "Renamed".to_string(), true, None);
    match save_details(&current, renamed, &mut store) {
        SaveOutcome::Reinstall(flow) => {
            assert_eq!(flow.install.unwrap().title, "Renamed");
            assert_eq!(flow.icon, Some(vec![1]));
            assert_eq!(flow.stage, Stage::Start);
        }
        other => panic!("unexpected {:?}", other),
    }
    assert_eq!(get_app_details(&store, "abcdefghij").unwrap().title, "Example");
    let new_icon = current.edited(current.url.clone(), current.title.clone(), true, Some(vec![8]));
    assert_eq!(new_icon.icon, Some(vec![8]));
    assert!(matches!(save_details(&current, new_icon, &mut store), SaveOutcome::Reinstall(_)));
    let bare = sample("abcdefghij");
    let renamed = bare.edited(bare.url.clone(), "Renamed".to_string(), true, None);
    assert!(matches!(save_details(&bare, renamed, &mut store), SaveOutcome::MissingIcon));
}
