use spider::apps::{get_app_details, AppsSettings, AttrTable, SettingsStore};
use spider::dirs::{clean_app_dirs, copy_app_dir, DirEntry, DirListing};
use spider::launcher::{create_app, reinstall_app, uninstall_app, Action, Event, Flow};
use spider::strmap::StrMap;
use spider::util::{
    accept_page, get_website_meta, icon_candidates, parse_url, FetchError, FetchedIcon, ImageSize,
};
use std::collections::HashMap;

type RawSettings = HashMap<String, HashMap<String, String>>;

/// A stand-in for the desktop: launchers, storage directories and the
/// settings as they would lie on disk.
struct Desktop {
    app_ids: Vec<String>,
    settings: RawSettings,
    launchers: HashMap<String, (String, Vec<u8>)>,
    data_dirs: Vec<String>,
    cache_dirs: Vec<String>,
    fail_copy: bool,
    dirs_busy: bool,
    deny: bool,
    writes: usize,
}

impl Desktop {
    fn new() -> Self {
        Desktop {
            app_ids: Vec::new(),
            settings: RawSettings::new(),
            launchers: HashMap::new(),
            data_dirs: Vec::new(),
            cache_dirs: Vec::new(),
            fail_copy: false,
            dirs_busy: false,
            deny: false,
            writes: 0,
        }
    }

    fn load_store(&self) -> SettingsStore {
        let mut apps_settings: AppsSettings = StrMap::new();
        for (id, attrs) in &self.settings {
            let mut table: AttrTable = StrMap::new();
            for (key, value) in attrs {
                table.insert(key.clone(), value.clone());
            }
            apps_settings.insert(id.clone(), table);
        }
        SettingsStore { app_ids: self.app_ids.clone(), apps_settings }
    }

    fn write_store(&mut self, store: &SettingsStore) {
        let mut raw = RawSettings::new();
        for (id, table) in store.apps_settings.entries() {
            let mut attrs = HashMap::new();
            for (key, value) in table.entries() {
                attrs.insert(key.clone(), value.clone());
            }
            raw.insert(id.clone(), attrs);
        }
        self.app_ids = store.app_ids.clone();
        self.settings = raw;
        self.writes += 1;
    }

    fn roots(&self) -> Vec<DirListing> {
        let list = |root: &str, names: &Vec<String>| DirListing {
            root: root.to_string(),
            entries: Some(
                names.iter().map(|n| DirEntry { name: n.clone(), is_dir: true }).collect(),
            ),
        };
        vec![list("/data", &self.data_dirs), list("/cache", &self.cache_dirs)]
    }

    fn dirs_of(&mut self, root: &str) -> &mut Vec<String> {
        if root == "/data" {
            &mut self.data_dirs
        } else {
            &mut self.cache_dirs
        }
    }

    fn run(&mut self, mut flow: Flow) -> Result<(), String> {
        let mut store = self.load_store();
        let mut event = Event::Started;
        loop {
            let step = flow.step(event, &mut store);
            if step.write_store {
                self.write_store(&store);
            }
            event = match step.action {
                Action::Finish => return Ok(()),
                Action::Fail { message } => return Err(message),
                Action::FetchIcon { desktop_id } => match self.launchers.get(&desktop_id) {
                    Some((_, icon)) => Event::Icon(icon.clone()),
                    None => Event::Failed("no such launcher".to_string()),
                },
                Action::CopyDirs { old_id, new_id } => {
                    if self.fail_copy {
                        Event::Failed("copy failed".to_string())
                    } else {
                        for job in copy_app_dir(&self.roots(), &old_id, &new_id) {
                            let to = job.to.clone();
                            self.dirs_of(&job.root).push(to);
                        }
                        Event::Succeeded
                    }
                }
                Action::RemoveLauncher { desktop_id } => match self.launchers.remove(&desktop_id) {
                    Some(_) => Event::Succeeded,
                    None => Event::Failed("no such launcher".to_string()),
                },
                Action::RemoveDirs { id } => {
                    if self.dirs_busy {
                        Event::Failed("directory is busy".to_string())
                    } else {
                        self.data_dirs.retain(|d| *d != id);
                        self.cache_dirs.retain(|d| *d != id);
                        Event::Succeeded
                    }
                }
                Action::PrepareInstall { title, icon } => {
                    if self.deny {
                        Event::Failed("cancelled".to_string())
                    } else if icon.is_empty() {
                        Event::Refused(Some("Dynamic launcher icon failed validation".to_string()))
                    } else {
                        Event::Granted(format!("token for {}", title))
                    }
                }
                Action::InstallLauncher { token, desktop_id, desktop_entry } => {
                    assert!(token.starts_with("token for "));
                    self.launchers.insert(desktop_id, (desktop_entry, vec![1]));
                    Event::Succeeded
                }
            };
        }
    }
}

fn png_bytes(w: u32, h: u32) -> Vec<u8> {
    let img = image::DynamicImage::ImageRgba8(image::RgbaImage::new(w, h));
    let mut out = std::io::Cursor::new(Vec::new());
    img.write_to(&mut out, image::ImageFormat::Png).unwrap();
    out.into_inner()
}

#[test]
fn submitting_a_url_creates_an_installed_app() {
    let html = "<html><head><title>Example Domain</title>\
<link rel=\"icon\" href=\"/icon-64.png\"></head><body></body></html>";
    let url = parse_url("https://example.com").unwrap();
    assert_eq!(url, "https://example.com/");
    let png = png_bytes(64, 64);
    let candidates = icon_candidates(&url, html);
    assert_eq!(
        candidates,
        vec![
            "https://example.com/icon-64.png",
            "https://example.com/favicon.ico",
            "https://example.com/favicon.png"
        ]
    );
    let fetched: Vec<FetchedIcon> = candidates
        .into_iter()
        .map(|u| {
            let response = if u == "https://example.com/icon-64.png" {
                (200, png.clone())
            } else {
                (404, b"<svg>not found</svg>".to_vec())
            };
            FetchedIcon::from_response(u, Some(response))
        })
        .collect();
    assert_eq!(fetched[0].body, Some(png.clone()));
    assert_eq!(fetched[1].body, None);
    assert_eq!(fetched[2].body, None);
    let html = &accept_page(200, html.to_string()).unwrap();
    let meta = get_website_meta(html, &fetched).unwrap();
    assert_eq!(meta.title, "Example Domain");
    assert_eq!(meta.icon.size, ImageSize::Sized((64, 64)));
    assert_eq!(meta.icon.buffer, png);

    let mut desktop = Desktop::new();
    let flow = create_app(
        &desktop.load_store().app_ids,
        meta.title.clone(),
        url.clone(),
        Some(meta.icon.buffer.clone()),
    )
    .unwrap();
    let id = flow.install.as_ref().unwrap().id.clone();
    assert_eq!(id.chars().count(), 10);
    assert_eq!(desktop.run(flow), Ok(()));
    assert_eq!(desktop.app_ids, vec![id.clone()]);
    assert_eq!(desktop.writes, 1);
    let launcher = desktop.launchers.get(&format!("io.github.zaedus.spider.{}.desktop", id)).unwrap();
    assert!(launcher.0.contains("Name=Example Domain\n"));
    assert!(launcher.0.ends_with(&format!("Exec=env spider {}", id)));
    let record = get_app_details(&desktop.load_store(), &id).unwrap();
    assert_eq!(record.id, id);
    assert_eq!(record.url, "https://example.com/");
    assert_eq!(record.title, "Example Domain");
    assert_eq!(desktop.settings[&id]["windowwidth"], "400");
}

#[test]
fn denied_or_rejected_creation_leaves_nothing_behind() {
    let mut desktop = Desktop::new();
    desktop.deny = true;
    let flow =
        create_app(&Vec::new(), "T".to_string(), "https://t.example/".to_string(), Some(vec![1]))
            .unwrap();
    assert_eq!(desktop.run(flow), Err("cancelled".to_string()));
    assert!(desktop.app_ids.is_empty());
    assert!(desktop.launchers.is_empty());
    assert_eq!(desktop.writes, 0);
    desktop.deny = false;
    let flow =
        create_app(&Vec::new(), "T".to_string(), "https://t.example/".to_string(), Some(Vec::new()))
            .unwrap();
    assert_eq!(desktop.run(flow), Err("Invalid icon, maybe bad size or format".to_string()));
    assert!(desktop.settings.is_empty());
}

#[test]
fn deleting_an_app_removes_launcher_directories_and_record() {
    let mut desktop = Desktop::new();
    let flow =
        create_app(&Vec::new(), "T".to_string(), "https://t.example/".to_string(), Some(vec![1]))
            .unwrap();
    let id = flow.install.as_ref().unwrap().id.clone();
    desktop.run(flow).unwrap();
    desktop.data_dirs.push(id.clone());
    desktop.cache_dirs.push(id.clone());
    assert_eq!(desktop.run(uninstall_app(&id)), Ok(()));
    assert!(desktop.app_ids.is_empty());
    assert!(desktop.settings.is_empty());
    assert!(desktop.launchers.is_empty());
    assert!(desktop.data_dirs.is_empty() && desktop.cache_dirs.is_empty());
    assert_eq!(desktop.run(uninstall_app(&id)), Err("no such launcher".to_string()));
}

#[test]
fn busy_directories_do_not_keep_a_deleted_app_listed() {
    let mut desktop = Desktop::new();
    let flow =
        create_app(&Vec::new(), "T".to_string(), "https://t.example/".to_string(), Some(vec![1]))
            .unwrap();
    let id = flow.install.as_ref().unwrap().id.clone();
    desktop.run(flow).unwrap();
    desktop.data_dirs.push(id.clone());
    desktop.dirs_busy = true;
    assert_eq!(desktop.run(uninstall_app(&id)), Ok(()));
    assert!(desktop.app_ids.is_empty());
    assert!(desktop.settings.is_empty());
    assert!(desktop.launchers.is_empty());
    assert_eq!(desktop.data_dirs, vec![id.clone()]);
    desktop.dirs_busy = false;
    for stale in clean_app_dirs(&desktop.roots(), &desktop.load_store().app_ids) {
        let name = stale.name.clone();
        desktop.dirs_of(&stale.root).retain(|d| *d != name);
    }
    assert!(desktop.data_dirs.is_empty());
}

#[test]
fn answers_that_do_not_tell_success_are_no_page_and_no_icon() {
    assert_eq!(accept_page(200, "<html/>".to_string()), Ok("<html/>".to_string()));
    assert_eq!(accept_page(299, "x".to_string()), Ok("x".to_string()));
    assert_eq!(accept_page(404, "x".to_string()), Err(FetchError::Status(404)));
    assert_eq!(accept_page(199, "x".to_string()), Err(FetchError::Status(199)));
    assert_eq!(accept_page(300, "x".to_string()), Err(FetchError::Status(300)));
    assert_eq!(FetchError::Status(503).message(), "the server answered with status 503");
    let icon = FetchedIcon::from_response("u".to_string(), Some((204, vec![1])));
    assert_eq!(icon.body, Some(vec![1]));
    let icon = FetchedIcon::from_response("u".to_string(), Some((500, vec![1])));
    assert_eq!(icon.body, None);
    assert_eq!(icon.url, "u");
    let icon = FetchedIcon::from_response("u".to_string(), None);
    assert_eq!(icon.body, None);
    let page = "<html><head><title>T</title></head></html>";
    let error_page_at_svg_path = vec![FetchedIcon::from_response(
        "https://example.com/missing.svg".to_string(),
        Some((404, b"<html>not found</html>".to_vec())),
    )];
    assert!(get_website_meta(page, &error_page_at_svg_path).is_err());
}

#[test]
fn denied_migration_leaves_the_old_app_installed() {
    let mut desktop = Desktop::new();
    desktop.app_ids.push("old".to_string());
    let mut attrs = HashMap::new();
    attrs.insert("url".to_string(), "https://old.example/".to_string());
    attrs.insert("title".to_string(), "Old".to_string());
    desktop.settings.insert("old".to_string(), attrs);
    desktop
        .launchers
        .insert("io.github.zaedus.spider.old.desktop".to_string(), ("entry".to_string(), vec![9]));
    desktop.data_dirs.push("old".to_string());
    desktop.deny = true;
    let flow = reinstall_app(&desktop.load_store(), "old").unwrap();
    let new_id = flow.install.as_ref().unwrap().id.clone();
    assert_eq!(desktop.run(flow), Err("cancelled".to_string()));
    assert_eq!(desktop.app_ids, vec!["old".to_string()]);
    assert!(desktop.launchers.contains_key("io.github.zaedus.spider.old.desktop"));
    assert!(desktop.data_dirs.contains(&"old".to_string()));
    assert!(!desktop.settings.contains_key(&new_id));
    assert_eq!(get_app_details(&desktop.load_store(), "old").unwrap().title, "Old");
    assert_eq!(desktop.writes, 0);
}

#[test]
fn migration_moves_an_app_to_a_fresh_identifier() {
    let mut desktop = Desktop::new();
    desktop.app_ids.push("old".to_string());
    let mut attrs = HashMap::new();
    attrs.insert("url".to_string(), "https://old.example/".to_string());
    attrs.insert("title".to_string(), "Old".to_string());
    desktop.settings.insert("old".to_string(), attrs);
    desktop
        .launchers
        .insert("io.github.zaedus.spider.old.desktop".to_string(), ("entry".to_string(), vec![9]));
    desktop.data_dirs.push("old".to_string());
    let flow = reinstall_app(&desktop.load_store(), "old").unwrap();
    let new_id = flow.install.as_ref().unwrap().id.clone();
    assert_eq!(desktop.run(flow), Ok(()));
    assert_eq!(desktop.app_ids, vec![new_id.clone()]);
    assert_eq!(desktop.data_dirs, vec![new_id.clone()]);
    assert!(desktop.launchers.contains_key(&format!("io.github.zaedus.spider.{}.desktop", new_id)));
    assert!(!desktop.launchers.contains_key("io.github.zaedus.spider.old.desktop"));
    assert_eq!(get_app_details(&desktop.load_store(), &new_id).unwrap().title, "Old");
}

#[test]
fn failed_migration_copy_leaves_the_old_app_intact() {
    let mut desktop = Desktop::new();
    desktop.app_ids.push("old".to_string());
    let mut attrs = HashMap::new();
    attrs.insert("url".to_string(), "https://old.example/".to_string());
    attrs.insert("title".to_string(), "Old".to_string());
    desktop.settings.insert("old".to_string(), attrs);
    desktop
        .launchers
        .insert("io.github.zaedus.spider.old.desktop".to_string(), ("entry".to_string(), vec![9]));
    desktop.data_dirs.push("old".to_string());
    desktop.fail_copy = true;
    let flow = reinstall_app(&desktop.load_store(), "old").unwrap();
    let new_id = flow.install.as_ref().unwrap().id.clone();
    assert_eq!(desktop.run(flow), Err("copy failed".to_string()));
    assert_eq!(desktop.app_ids, vec!["old".to_string()]);
    assert!(!desktop.settings.contains_key(&new_id));
    assert_eq!(desktop.data_dirs, vec!["old".to_string()]);
    assert!(desktop.launchers.contains_key("io.github.zaedus.spider.old.desktop"));
    assert_eq!(desktop.writes, 0);
}

#[test]
fn startup_sweep_removes_directories_of_deleted_apps() {
    let mut desktop = Desktop::new();
    desktop.app_ids = vec!["a".to_string(), "c".to_string()];
    desktop.data_dirs = vec!["a".to_string(), "b".to_string(), "c".to_string()];
    desktop.cache_dirs = vec!["b".to_string()];
    for stale in clean_app_dirs(&desktop.roots(), &desktop.load_store().app_ids) {
        let name = stale.name.clone();
        desktop.dirs_of(&stale.root).retain(|d| *d != name);
    }
    assert_eq!(desktop.data_dirs, vec!["a".to_string(), "c".to_string()]);
    assert!(desktop.cache_dirs.is_empty());
}
