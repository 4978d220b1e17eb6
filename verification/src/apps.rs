//! App records and the settings store that keeps them.

use crate::strmap::StrMap;
use crate::text::{
    bool_str, bool_text, contains, i32_text, int_text, lemma_i32_text_roundtrip, owned,
    parse_bool, parse_i32, position, str_eq, text_i32, texts,
};
use vstd::prelude::*;
use vstd::std_specs::cmp::PartialEqSpecImpl;
use vstd::string::StringExecFns;

verus! {

/// The identifier of the application that hosts the web apps.
pub const APP_ID: &'static str = "io.github.zaedus.spider";

/// The width and the height of a window that has never been resized.
pub const DEFAULT_WINDOW_SIZE: i32 = 400;

/// The key of the URL that an app opens.
pub const KEY_URL: &'static str = "url";

/// The key of the title of an app.
pub const KEY_TITLE: &'static str = "title";

/// The key of the setting that lets a page colour the titlebar.
pub const KEY_HAS_TITLEBAR_COLOR: &'static str = "hastitlebarcolor";

/// The key of the last width of the window.
pub const KEY_WINDOW_WIDTH: &'static str = "windowwidth";

/// The key of the last height of the window.
pub const KEY_WINDOW_HEIGHT: &'static str = "windowheight";

/// The key of the setting that tells whether the window was maximized.
pub const KEY_WINDOW_MAXIMIZE: &'static str = "windowmaximize";

/// The key of the user agent that an app sends, where it has its own.
pub const KEY_USER_AGENT: &'static str = "useragent";

/// The attributes of one app, as they are stored: text under text keys.
pub type AttrTable = StrMap<String>;

/// The attribute tables of all apps, by app identifier.
pub type AppsSettings = StrMap<StrMap<String>>;

/// The description of one web app.
#[derive(Debug)]
pub struct AppDetails {
    pub id: String,
    pub url: String,
    pub title: String,
    pub icon: Option<Vec<u8>>,
    pub has_titlebar_color: bool,
    pub window_width: i32,
    pub window_height: i32,
    pub window_maximize: bool,
    pub user_agent: Option<String>,
}

/// What an `AppDetails` holds, as mathematical values.
pub struct AppDetailsView {
    pub id: Seq<char>,
    pub url: Seq<char>,
    pub title: Seq<char>,
    pub icon: Option<Seq<u8>>,
    pub has_titlebar_color: bool,
    pub window_width: i32,
    pub window_height: i32,
    pub window_maximize: bool,
    pub user_agent: Option<Seq<char>>,
}

/// The bytes of an optional buffer.
pub open spec fn opt_bytes(b: Option<Vec<u8>>) -> Option<Seq<u8>> {
    match b {
        Some(b) => Some(b@),
        None => None,
    }
}

/// The characters of an optional string.
pub open spec fn opt_chars(s: Option<String>) -> Option<Seq<char>> {
    match s {
        Some(s) => Some(s@),
        None => None,
    }
}

impl View for AppDetails {
    type V = AppDetailsView;

    open spec fn view(&self) -> AppDetailsView {
        AppDetailsView {
            id: self.id@,
            url: self.url@,
            title: self.title@,
            icon: opt_bytes(self.icon),
            has_titlebar_color: self.has_titlebar_color,
            window_width: self.window_width,
            window_height: self.window_height,
            window_maximize: self.window_maximize,
            user_agent: opt_chars(self.user_agent),
        }
    }
}

/// The record that a new app starts from: empty texts, no icon, titlebar
/// colouring on, a window of the default size that is not maximized, and no
/// user agent of its own.
pub open spec fn default_details() -> AppDetailsView {
    AppDetailsView {
        id: Seq::empty(),
        url: Seq::empty(),
        title: Seq::empty(),
        icon: None,
        has_titlebar_color: true,
        window_width: DEFAULT_WINDOW_SIZE,
        window_height: DEFAULT_WINDOW_SIZE,
        window_maximize: false,
        user_agent: None,
    }
}

/// The part of a record that counts when two records are compared: all but
/// the window geometry.
pub open spec fn significant(d: AppDetailsView) -> (
    Seq<char>,
    Seq<char>,
    Seq<char>,
    Option<Seq<u8>>,
    bool,
    Option<Seq<char>>,
) {
    (d.id, d.url, d.title, d.icon, d.has_titlebar_color, d.user_agent)
}

fn clone_opt_bytes(b: &Option<Vec<u8>>) -> (r: Option<Vec<u8>>)
    ensures
        opt_bytes(r) == opt_bytes(*b),
{
    match b {
        Some(b) => Some(b.clone()),
        None => None,
    }
}

fn clone_opt_string(s: &Option<String>) -> (r: Option<String>)
    ensures
        opt_chars(r) == opt_chars(*s),
{
    match s {
        Some(s) => Some(s.clone()),
        None => None,
    }
}

fn bytes_eq(a: &Vec<u8>, b: &Vec<u8>) -> (r: bool)
    ensures
        r == (a@ == b@),
{
    if a.len() != b.len() {
        return false;
    }
    let mut i: usize = 0;
    while i < a.len()
        invariant
            i <= a.len(),
            a.len() == b.len(),
            forall|k: int| 0 <= k < i ==> a[k] == b[k],
        decreases a.len() - i,
    {
        if a[i] != b[i] {
            return false;
        }
        i += 1;
    }
    assert(a@ =~= b@);
    true
}

fn opt_bytes_eq(a: &Option<Vec<u8>>, b: &Option<Vec<u8>>) -> (r: bool)
    ensures
        r == (opt_bytes(*a) == opt_bytes(*b)),
{
    match (a, b) {
        (Some(a), Some(b)) => bytes_eq(a, b),
        (None, None) => true,
        _ => false,
    }
}

fn opt_string_eq(a: &Option<String>, b: &Option<String>) -> (r: bool)
    ensures
        r == (opt_chars(*a) == opt_chars(*b)),
{
    match (a, b) {
        (Some(a), Some(b)) => *a == *b,
        (None, None) => true,
        _ => false,
    }
}

impl Clone for AppDetails {
    fn clone(&self) -> (r: Self)
        ensures
            r@ == self@,
    {
        AppDetails {
            id: self.id.clone(),
            url: self.url.clone(),
            title: self.title.clone(),
            icon: clone_opt_bytes(&self.icon),
            has_titlebar_color: self.has_titlebar_color,
            window_width: self.window_width,
            window_height: self.window_height,
            window_maximize: self.window_maximize,
            user_agent: clone_opt_string(&self.user_agent),
        }
    }
}

impl Default for AppDetails {
    fn default() -> (r: Self)
        ensures
            r@ == default_details(),
    {
        AppDetails {
            id: String::new(),
            url: String::new(),
            title: String::new(),
            icon: None,
            has_titlebar_color: true,
            window_width: DEFAULT_WINDOW_SIZE,
            window_height: DEFAULT_WINDOW_SIZE,
            window_maximize: false,
            user_agent: None,
        }
    }
}

/// The attribute table under which a record is stored. The icon is not part
/// of it, and the user agent only where the record has one.
pub open spec fn attr_table(d: AppDetailsView) -> Map<Seq<char>, Seq<char>> {
    let base = Map::<Seq<char>, Seq<char>>::empty().insert(KEY_URL@, d.url).insert(
        KEY_TITLE@,
        d.title,
    ).insert(KEY_HAS_TITLEBAR_COLOR@, bool_text(d.has_titlebar_color)).insert(
        KEY_WINDOW_WIDTH@,
        int_text(d.window_width as int),
    ).insert(KEY_WINDOW_HEIGHT@, int_text(d.window_height as int)).insert(
        KEY_WINDOW_MAXIMIZE@,
        bool_text(d.window_maximize),
    );
    match d.user_agent {
        Some(user_agent) => base.insert(KEY_USER_AGENT@, user_agent),
        None => base,
    }
}

/// The number stored under `key`, or `default` where the key is missing or
/// its text is no `i32`.
pub open spec fn stored_i32(table: Map<Seq<char>, Seq<char>>, key: Seq<char>, default: i32) -> i32 {
    if table.contains_key(key) {
        match text_i32(table[key]) {
            Some(n) => n,
            None => default,
        }
    } else {
        default
    }
}

/// The record that an attribute table describes, for the app `id`. There is
/// none unless the table holds both a URL and a title. Titlebar colouring is
/// on unless the table says `false`; the window has the default size unless
/// the table holds a number; it is maximized only if the table says `true`.
pub open spec fn details_of(id: Seq<char>, table: Map<Seq<char>, Seq<char>>) -> Option<
    AppDetailsView,
> {
    if table.contains_key(KEY_URL@) && table.contains_key(KEY_TITLE@) {
        Some(
            AppDetailsView {
                id,
                url: table[KEY_URL@],
                title: table[KEY_TITLE@],
                icon: None,
                has_titlebar_color: !(table.contains_key(KEY_HAS_TITLEBAR_COLOR@)
                    && table[KEY_HAS_TITLEBAR_COLOR@] == "false"@),
                window_width: stored_i32(table, KEY_WINDOW_WIDTH@, DEFAULT_WINDOW_SIZE),
                window_height: stored_i32(table, KEY_WINDOW_HEIGHT@, DEFAULT_WINDOW_SIZE),
                window_maximize: table.contains_key(KEY_WINDOW_MAXIMIZE@)
                    && table[KEY_WINDOW_MAXIMIZE@] == "true"@,
                user_agent: if table.contains_key(KEY_USER_AGENT@) {
                    Some(table[KEY_USER_AGENT@])
                } else {
                    None
                },
            },
        )
    } else {
        None
    }
}

/// The settings store: the list of known app identifiers and, for each app,
/// its attribute table.
pub struct SettingsStore {
    pub app_ids: Vec<String>,
    pub apps_settings: AppsSettings,
}

/// What a `SettingsStore` holds, as mathematical values.
pub struct StoreView {
    pub app_ids: Seq<Seq<char>>,
    pub apps_settings: Map<Seq<char>, Map<Seq<char>, Seq<char>>>,
}

impl View for SettingsStore {
    type V = StoreView;

    open spec fn view(&self) -> StoreView {
        StoreView { app_ids: texts(self.app_ids@), apps_settings: self.apps_settings@ }
    }
}

/// `s` without the first occurrence of `x`.
pub open spec fn remove_first(s: Seq<Seq<char>>, x: Seq<char>) -> Seq<Seq<char>>
    decreases s.len(),
{
    if s.len() == 0 {
        s
    } else if s[0] == x {
        s.drop_first()
    } else {
        seq![s[0]] + remove_first(s.drop_first(), x)
    }
}

/// The store after a record was saved: its identifier is known, once, and
/// its attribute table replaces what was stored for it.
pub open spec fn saved(store: StoreView, d: AppDetailsView) -> StoreView {
    StoreView {
        app_ids: if store.app_ids.contains(d.id) {
            store.app_ids
        } else {
            store.app_ids.push(d.id)
        },
        apps_settings: store.apps_settings.insert(d.id, attr_table(d)),
    }
}

/// The store after the app `id` was deleted: the first occurrence of the
/// identifier and the attribute table are gone.
pub open spec fn deleted(store: StoreView, id: Seq<char>) -> StoreView {
    StoreView {
        app_ids: remove_first(store.app_ids, id),
        apps_settings: store.apps_settings.remove(id),
    }
}

/// The record that the store holds for the app `id`, if any.
pub open spec fn stored_details(store: StoreView, id: Seq<char>) -> Option<AppDetailsView> {
    if store.apps_settings.contains_key(id) {
        details_of(id, store.apps_settings[id])
    } else {
        None
    }
}

/// Whether the store is consistent: no identifier is listed twice, and the
/// listed identifiers are exactly those with an attribute table.
pub open spec fn consistent(store: StoreView) -> bool {
    &&& store.app_ids.no_duplicates()
    &&& forall|id: Seq<char>| store.app_ids.contains(id) <==> store.apps_settings.contains_key(id)
}

/// The mathematical value of an optional record.
pub open spec fn opt_details(d: Option<AppDetails>) -> Option<AppDetailsView> {
    match d {
        Some(d) => Some(d@),
        None => None,
    }
}

/// The lengths of the attribute keys and of the boolean texts, which tell
/// them apart.
pub proof fn lemma_key_lengths()
    ensures
        KEY_URL@.len() == 3,
        KEY_TITLE@.len() == 5,
        KEY_HAS_TITLEBAR_COLOR@.len() == 16,
        KEY_WINDOW_WIDTH@.len() == 11,
        KEY_WINDOW_HEIGHT@.len() == 12,
        KEY_WINDOW_MAXIMIZE@.len() == 14,
        KEY_USER_AGENT@.len() == 9,
        "true"@.len() == 4,
        "false"@.len() == 5,
{
    reveal_strlit("url");
    reveal_strlit("title");
    reveal_strlit("hastitlebarcolor");
    reveal_strlit("windowwidth");
    reveal_strlit("windowheight");
    reveal_strlit("windowmaximize");
    reveal_strlit("useragent");
    reveal_strlit("true");
    reveal_strlit("false");
}

impl AppDetails {
    /// A record with the given identifier, title and URL, and the defaults
    /// for everything else.
    pub fn new(id: String, title: String, url: String) -> (r: Self)
        ensures
            r@ == (AppDetailsView { id: id@, url: url@, title: title@, ..default_details() }),
    {
        AppDetails {
            id,
            url,
            title,
            icon: None,
            has_titlebar_color: true,
            window_width: DEFAULT_WINDOW_SIZE,
            window_height: DEFAULT_WINDOW_SIZE,
            window_maximize: false,
            user_agent: None,
        }
    }

    /// The attribute table under which this record is stored.
    pub fn to_hashmap(&self) -> (table: AttrTable)
        ensures
            table@ == attr_table(self@),
    {
        let mut table: AttrTable = StrMap::new();
        table.insert(owned(KEY_URL), self.url.clone());
        table.insert(owned(KEY_TITLE), self.title.clone());
        table.insert(owned(KEY_HAS_TITLEBAR_COLOR), bool_str(self.has_titlebar_color));
        table.insert(owned(KEY_WINDOW_WIDTH), i32_text(self.window_width));
        table.insert(owned(KEY_WINDOW_HEIGHT), i32_text(self.window_height));
        table.insert(owned(KEY_WINDOW_MAXIMIZE), bool_str(self.window_maximize));
        match &self.user_agent {
            Some(user_agent) => {
                table.insert(owned(KEY_USER_AGENT), user_agent.clone());
            },
            None => {},
        }
        table
    }

    /// This record with `icon` as its icon.
    pub fn with_icon(self, icon: Vec<u8>) -> (r: Self)
        ensures
            r@ == (AppDetailsView { icon: Some(icon@), ..self@ }),
    {
        AppDetails {
            id: self.id,
            url: self.url,
            title: self.title,
            icon: Some(icon),
            has_titlebar_color: self.has_titlebar_color,
            window_width: self.window_width,
            window_height: self.window_height,
            window_maximize: self.window_maximize,
            user_agent: self.user_agent,
        }
    }

    /// This record with the geometry that a window reports when it closes.
    pub fn with_window_state(self, width: i32, height: i32, maximize: bool) -> (r: Self)
        ensures
            r@ == (AppDetailsView {
                window_width: width,
                window_height: height,
                window_maximize: maximize,
                ..self@
            }),
    {
        AppDetails {
            id: self.id,
            url: self.url,
            title: self.title,
            icon: self.icon,
            has_titlebar_color: self.has_titlebar_color,
            window_width: width,
            window_height: height,
            window_maximize: maximize,
            user_agent: self.user_agent,
        }
    }

    /// This record as the user edited it: with the URL, the title and the
    /// titlebar setting that were entered, and with the newly chosen icon
    /// where one was chosen.
    pub fn edited(
        &self,
        url: String,
        title: String,
        has_titlebar_color: bool,
        new_icon: Option<Vec<u8>>,
    ) -> (r: Self)
        ensures
            r@ == (AppDetailsView {
                url: url@,
                title: title@,
                has_titlebar_color,
                icon: match new_icon {
                    Some(icon) => Some(icon@),
                    None => self@.icon,
                },
                ..self@
            }),
    {
        let icon = match new_icon {
            Some(icon) => Some(icon),
            None => clone_opt_bytes(&self.icon),
        };
        AppDetails {
            id: self.id.clone(),
            url,
            title,
            icon,
            has_titlebar_color,
            window_width: self.window_width,
            window_height: self.window_height,
            window_maximize: self.window_maximize,
            user_agent: clone_opt_string(&self.user_agent),
        }
    }

    /// Saves this record in the store: lists its identifier unless it is
    /// listed, and stores its attribute table in place of any earlier one.
    pub fn save(&self, store: &mut SettingsStore)
        ensures
            final(store)@ == saved(old(store)@, self@),
    {
        if !contains(&store.app_ids, self.id.as_str()) {
            store.app_ids.push(self.id.clone());
            assert(texts(store.app_ids@) =~= texts(old(store).app_ids@).push(self.id@));
        }
        store.apps_settings.insert(self.id.clone(), self.to_hashmap());
    }
}

/// `remove_first` takes out the element at the index of the first occurrence.
proof fn lemma_remove_first(s: Seq<Seq<char>>, x: Seq<char>, i: int)
    requires
        0 <= i < s.len(),
        s[i] == x,
        forall|k: int| 0 <= k < i ==> s[k] != x,
    ensures
        remove_first(s, x) == s.remove(i),
    decreases i,
{
    if i == 0 {
        assert(s.drop_first() =~= s.remove(0));
    } else {
        let t = s.drop_first();
        assert forall|k: int| 0 <= k < i - 1 implies t[k] != x by {
            assert(t[k] == s[k + 1]);
        }
        lemma_remove_first(t, x, i - 1);
        assert(seq![s[0]] + t.remove(i - 1) =~= s.remove(i));
    }
}

/// `remove_first` changes nothing where the element does not occur.
proof fn lemma_remove_first_absent(s: Seq<Seq<char>>, x: Seq<char>)
    requires
        !s.contains(x),
    ensures
        remove_first(s, x) == s,
    decreases s.len(),
{
    if s.len() > 0 {
        assert(s[0] != x);
        let t = s.drop_first();
        assert forall|k: int| 0 <= k < t.len() implies t[k] != x by {
            assert(t[k] == s[k + 1]);
        }
        lemma_remove_first_absent(t, x);
        assert(seq![s[0]] + t =~= s);
    }
}

/// Deletes the record of the app `id` from the store. Nothing changes where
/// the store does not know the app.
pub fn delete_app_details(store: &mut SettingsStore, id: &str)
    ensures
        final(store)@ == deleted(old(store)@, id@),
{
    match position(&store.app_ids, id) {
        Some(i) => {
            proof {
                let s = texts(store.app_ids@);
                assert forall|k: int| 0 <= k < i implies s[k] != id@ by {
                    assert(s[k] == store.app_ids[k]@);
                }
                lemma_remove_first(s, id@, i as int);
            }
            store.app_ids.remove(i);
            assert(texts(store.app_ids@) =~= texts(old(store).app_ids@).remove(i as int));
        },
        None => {
            proof {
                lemma_remove_first_absent(texts(store.app_ids@), id@);
            }
        },
    }
    if store.apps_settings.contains_key(id) {
        store.apps_settings.remove(id);
    } else {
        assert(store.apps_settings@.remove(id@) =~= store.apps_settings@);
    }
}

fn stored_number(table: &AttrTable, key: &str, default: i32) -> (r: i32)
    ensures
        r == stored_i32(table@, key@, default),
{
    match table.get(key) {
        Some(text) => match parse_i32(text.as_str()) {
            Some(n) => n,
            None => default,
        },
        None => default,
    }
}

/// The record that the store holds for the app `id`: `None` where the store
/// does not know the app, or holds no URL or no title for it.
pub fn get_app_details(store: &SettingsStore, id: &str) -> (r: Option<AppDetails>)
    ensures
        opt_details(r) == stored_details(store@, id@),
{
    let table = match store.apps_settings.get(id) {
        Some(table) => table,
        None => {
            return None;
        },
    };
    let url = match table.get(KEY_URL) {
        Some(url) => url.clone(),
        None => {
            return None;
        },
    };
    let title = match table.get(KEY_TITLE) {
        Some(title) => title.clone(),
        None => {
            return None;
        },
    };
    let has_titlebar_color = match table.get(KEY_HAS_TITLEBAR_COLOR) {
        Some(text) => !str_eq(text.as_str(), "false"),
        None => true,
    };
    let window_maximize = match table.get(KEY_WINDOW_MAXIMIZE) {
        Some(text) => match parse_bool(text.as_str()) {
            Some(b) => b,
            None => false,
        },
        None => false,
    };
    let user_agent = match table.get(KEY_USER_AGENT) {
        Some(text) => Some(text.clone()),
        None => None,
    };
    proof {
        lemma_key_lengths();
    }
    Some(
        AppDetails {
            id: owned(id),
            url,
            title,
            icon: None,
            has_titlebar_color,
            window_width: stored_number(table, KEY_WINDOW_WIDTH, DEFAULT_WINDOW_SIZE),
            window_height: stored_number(table, KEY_WINDOW_HEIGHT, DEFAULT_WINDOW_SIZE),
            window_maximize,
            user_agent,
        },
    )
}

/// A saved record is read back as it was saved, but for the icon, which the
/// store does not keep.
pub proof fn lemma_save_then_get(store: StoreView, d: AppDetailsView)
    ensures
        stored_details(saved(store, d), d.id) == Some(AppDetailsView { icon: None, ..d }),
{
    lemma_key_lengths();
    lemma_i32_text_roundtrip(d.window_width);
    lemma_i32_text_roundtrip(d.window_height);
    let table = attr_table(d);
    assert(saved(store, d).apps_settings[d.id] == table);
}

/// A saved record is listed, and what was listed before stays listed: an
/// identifier that is drawn fresh against the store after the save differs
/// from the saved one and from all earlier ones.
pub proof fn lemma_saved_is_listed(store: StoreView, d: AppDetailsView)
    ensures
        saved(store, d).app_ids.contains(d.id),
        forall|id: Seq<char>| store.app_ids.contains(id) ==> saved(store, d).app_ids.contains(id),
{
    if !store.app_ids.contains(d.id) {
        let after = store.app_ids.push(d.id);
        assert(after[store.app_ids.len() as int] == d.id);
        assert forall|id: Seq<char>| store.app_ids.contains(id) implies after.contains(id) by {
            let i = choose|i: int| 0 <= i < store.app_ids.len() && store.app_ids[i] == id;
            assert(after[i] == id);
        }
    }
}

/// Saving a record leaves the records of all other apps as they were.
pub proof fn lemma_save_keeps_others(store: StoreView, d: AppDetailsView, other: Seq<char>)
    requires
        other != d.id,
    ensures
        stored_details(saved(store, d), other) == stored_details(store, other),
        saved(store, d).app_ids.contains(other) == store.app_ids.contains(other),
{
    if !store.app_ids.contains(d.id) {
        let after = store.app_ids.push(d.id);
        if after.contains(other) {
            let i = choose|i: int| 0 <= i < after.len() && after[i] == other;
            assert(store.app_ids[i] == other);
        }
        if store.app_ids.contains(other) {
            let i = choose|i: int| 0 <= i < store.app_ids.len() && store.app_ids[i] == other;
            assert(after[i] == other);
        }
    }
}

/// Deleting an app that the store does not know changes nothing.
pub proof fn lemma_delete_unknown(store: StoreView, id: Seq<char>)
    requires
        !store.app_ids.contains(id),
        !store.apps_settings.contains_key(id),
    ensures
        deleted(store, id) == store,
{
    lemma_remove_first_absent(store.app_ids, id);
    assert(store.apps_settings.remove(id) =~= store.apps_settings);
}

/// After an app is deleted from a consistent store, the store holds no
/// record of it and does not list it.
pub proof fn lemma_delete_forgets(store: StoreView, id: Seq<char>)
    requires
        consistent(store),
    ensures
        stored_details(deleted(store, id), id) is None,
        !deleted(store, id).app_ids.contains(id),
{
    let s = store.app_ids;
    if s.contains(id) {
        let i = lemma_first_occurrence(s, id);
        lemma_remove_first(s, id, i);
        let t = s.remove(i);
        if t.contains(id) {
            let j = choose|j: int| 0 <= j < t.len() && t[j] == id;
            let j2 = if j < i {
                j
            } else {
                j + 1
            };
            assert(s[j2] == id);
            assert(s[i] == id);
        }
    } else {
        lemma_remove_first_absent(s, id);
    }
}

/// The index of the first occurrence of an element that occurs.
proof fn lemma_first_occurrence(s: Seq<Seq<char>>, x: Seq<char>) -> (i: int)
    requires
        s.contains(x),
    ensures
        0 <= i < s.len(),
        s[i] == x,
        forall|k: int| 0 <= k < i ==> s[k] != x,
    decreases s.len(),
{
    if s[0] == x {
        0
    } else {
        let t = s.drop_first();
        let w = choose|w: int| 0 <= w < s.len() && s[w] == x;
        assert(t[w - 1] == x);
        let j = lemma_first_occurrence(t, x);
        assert forall|k: int| 0 <= k < j + 1 implies s[k] != x by {
            if k > 0 {
                assert(t[k - 1] == s[k]);
            }
        }
        j + 1
    }
}

/// Saving and deleting keep a consistent store consistent.
pub proof fn lemma_consistency_kept(store: StoreView, d: AppDetailsView, id: Seq<char>)
    requires
        consistent(store),
    ensures
        consistent(saved(store, d)),
        consistent(deleted(store, id)),
{
    // saved
    let a = saved(store, d);
    if !store.app_ids.contains(d.id) {
        let after = store.app_ids.push(d.id);
        assert forall|i: int, j: int| 0 <= i < after.len() && 0 <= j < after.len() && i
            != j implies after[i] != after[j] by {
            if i < store.app_ids.len() && j < store.app_ids.len() {
                assert(store.app_ids[i] != store.app_ids[j]);
            } else if i < store.app_ids.len() {
                assert(store.app_ids.contains(store.app_ids[i]));
            } else {
                assert(store.app_ids.contains(store.app_ids[j]));
            }
        }
        assert(after[after.len() - 1] == d.id);
    }
    assert forall|x: Seq<char>| a.app_ids.contains(x) <==> a.apps_settings.contains_key(x) by {
        if x != d.id {
            lemma_save_keeps_others(store, d, x);
        } else if !store.app_ids.contains(d.id) {
            assert(store.app_ids.push(d.id)[store.app_ids.len() as int] == d.id);
        }
    }
    // deleted
    let b = deleted(store, id);
    let s = store.app_ids;
    if s.contains(id) {
        let i = lemma_first_occurrence(s, id);
        lemma_remove_first(s, id, i);
        let t = s.remove(i);
        assert forall|p: int, q: int| 0 <= p < t.len() && 0 <= q < t.len() && p != q implies t[p]
            != t[q] by {
            let p_old = if p < i {
                p
            } else {
                p + 1
            };
            let q_old = if q < i {
                q
            } else {
                q + 1
            };
            assert(s[p_old] != s[q_old]);
        }
        assert forall|x: Seq<char>| t.contains(x) <==> b.apps_settings.contains_key(x) by {
            if t.contains(x) {
                let j = choose|j: int| 0 <= j < t.len() && t[j] == x;
                let j2 = if j < i {
                    j
                } else {
                    j + 1
                };
                assert(s[j2] == x);
                assert(s.contains(x));
                if x == id {
                    assert(s[i] == s[j2]);
                }
            }
            if b.apps_settings.contains_key(x) {
                assert(s.contains(x));
                let j = choose|j: int| 0 <= j < s.len() && s[j] == x;
                let j2 = if j < i {
                    j
                } else {
                    j - 1
                };
                assert(t[j2] == x);
            }
        }
    } else {
        lemma_remove_first_absent(s, id);
        assert forall|x: Seq<char>| s.contains(x) <==> b.apps_settings.contains_key(x) by {}
    }
}

impl PartialEq for AppDetails {
    /// Whether two records agree in all that counts: everything but the
    /// window geometry.
    fn eq(&self, other: &Self) -> (r: bool) {
        self.id == other.id && self.url == other.url && self.title == other.title && opt_bytes_eq(
            &self.icon,
            &other.icon,
        ) && self.has_titlebar_color == other.has_titlebar_color && opt_string_eq(
            &self.user_agent,
            &other.user_agent,
        )
    }
}

impl PartialEqSpecImpl for AppDetails {
    open spec fn obeys_eq_spec() -> bool {
        true
    }

    open spec fn eq_spec(&self, other: &Self) -> bool {
        significant(self@) == significant(other@)
    }
}

/// How much two records differ.
#[derive(Debug, Clone, Copy, PartialEq, Eq, Structural)]
pub enum DiffSignificance {
    /// They agree in all that counts.
    NoDifference,
    /// Settings differ: saving the record is enough.
    Settings,
    /// The title or the icon differs: the launcher must be installed anew.
    DesktopReinstall,
}

/// How much the edited record `unsaved` differs from the record `current`.
pub open spec fn significance(current: AppDetailsView, unsaved: AppDetailsView) -> DiffSignificance {
    if significant(current) == significant(unsaved) {
        DiffSignificance::NoDifference
    } else if unsaved.title != current.title || unsaved.icon != current.icon {
        DiffSignificance::DesktopReinstall
    } else {
        DiffSignificance::Settings
    }
}

/// How much the edited record `unsaved` differs from the record `current`.
pub fn diff_significance(current: &AppDetails, unsaved: &AppDetails) -> (r: DiffSignificance)
    ensures
        r == significance(current@, unsaved@),
{
    if current.eq(unsaved) {
        DiffSignificance::NoDifference
    } else if !(unsaved.title == current.title) || !opt_bytes_eq(&unsaved.icon, &current.icon) {
        DiffSignificance::DesktopReinstall
    } else {
        DiffSignificance::Settings
    }
}

/// The name of the launcher file of the app `id`.
pub open spec fn desktop_id(id: Seq<char>) -> Seq<char> {
    APP_ID@ + "."@ + id + ".desktop"@
}

/// The name of the launcher file of the app `id`.
pub fn id_to_desktop(id: &str) -> (r: String)
    ensures
        r@ == desktop_id(id@),
{
    let mut r = owned(APP_ID);
    r.append(".");
    r.append(id);
    r.append(".desktop");
    r
}

/// The identifier under which the program runs: that of the host for the
/// management window, and the host's identifier, a dot and the app's
/// identifier where the first argument names a known app.
pub open spec fn instance_id(arg: Option<Seq<char>>, app_ids: Seq<Seq<char>>) -> Seq<char> {
    match arg {
        Some(id) => if app_ids.contains(id) {
            APP_ID@ + "."@ + id
        } else {
            APP_ID@
        },
        None => APP_ID@,
    }
}

/// The identifier under which the program runs, given its first argument.
pub fn application_id(arg: Option<&str>, app_ids: &Vec<String>) -> (r: String)
    ensures
        r@ == instance_id(
            match arg {
                Some(id) => Some(id@),
                None => None,
            },
            texts(app_ids@),
        ),
{
    match arg {
        Some(id) => if contains(app_ids, id) {
            let mut r = owned(APP_ID);
            r.append(".");
            r.append(id);
            r
        } else {
            owned(APP_ID)
        },
        None => owned(APP_ID),
    }
}

/// The identifiers and titles of the listed apps, in the order of the list;
/// an identifier without a stored title is left out.
pub open spec fn listing(ids: Seq<Seq<char>>, settings: Map<Seq<char>, Map<Seq<char>, Seq<char>>>) -> Seq<
    (Seq<char>, Seq<char>),
>
    decreases ids.len(),
{
    if ids.len() == 0 {
        Seq::empty()
    } else {
        let r = listing(ids.drop_last(), settings);
        let id = ids.last();
        if settings.contains_key(id) && settings[id].contains_key(KEY_TITLE@) {
            r.push((id, settings[id][KEY_TITLE@]))
        } else {
            r
        }
    }
}

/// The characters of a list of pairs of strings.
pub open spec fn pair_texts(v: Seq<(String, String)>) -> Seq<(Seq<char>, Seq<char>)> {
    v.map_values(|p: (String, String)| (p.0@, p.1@))
}

/// The identifiers and titles of the known apps.
pub fn list_applications(store: &SettingsStore) -> (out: Vec<(String, String)>)
    ensures
        pair_texts(out@) == listing(store@.app_ids, store@.apps_settings),
{
    let ghost ids = texts(store.app_ids@);
    let mut out: Vec<(String, String)> = Vec::new();
    let mut i: usize = 0;
    assert(ids.take(0) =~= Seq::<Seq<char>>::empty());
    while i < store.app_ids.len()
        invariant
            i <= store.app_ids.len(),
            ids == texts(store.app_ids@),
            pair_texts(out@) == listing(ids.take(i as int), store.apps_settings@),
        decreases store.app_ids.len() - i,
    {
        proof {
            let t = ids.take(i + 1);
            assert(t.drop_last() =~= ids.take(i as int));
            assert(t.last() == store.app_ids[i as int]@);
        }
        let id = &store.app_ids[i];
        match store.apps_settings.get(id.as_str()) {
            Some(table) => match table.get(KEY_TITLE) {
                Some(title) => {
                    let ghost before = pair_texts(out@);
                    out.push((id.clone(), title.clone()));
                    assert(pair_texts(out@) =~= before.push((id@, title@)));
                },
                None => {},
            },
            None => {},
        }
        i += 1;
    }
    assert(ids.take(store.app_ids.len() as int) =~= ids);
    out
}

} // verus!
