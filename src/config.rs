//! Server settings, read from a TOML document with defaults for what it leaves
//! out, fixed at startup and shared read-only by every connection.
use vstd::prelude::*;

use crate::text::{chars_of, push_char, push_str, same_as_str, string_of};

verus! {

/// The settings the server runs with.
#[derive(Clone, Debug)]
pub struct Config {
    pub address: String,
    pub port: String,
    /// `address:port`.
    pub address_full: String,
    pub thread_count: usize,
    pub test_param: usize,
    /// The directory that static requests are served from.
    pub static_dir: String,
    /// The URL prefix that marks a request as static; it ends with `/`.
    pub static_url: String,
    pub gzip_min_size: usize,
    pub gzip_max_size: usize,
    pub gzip_file_types: Vec<String>,
}

/// What a setting of the configuration document holds, as far as it is read:
/// an integer, a string, an array (each item a string or not), or other.
#[derive(Debug)]
pub enum Setting {
    Int(i64),
    Str(String),
    Items(Vec<Option<String>>),
    Other,
}

/// A setting as plain values.
pub enum SettingView {
    Int(int),
    Str(Seq<char>),
    Items(Seq<Option<Seq<char>>>),
    Other,
}

/// The strings of array items, where they are strings.
pub open spec fn items_view(v: Seq<Option<String>>) -> Seq<Option<Seq<char>>> {
    Seq::new(
        v.len(),
        |k: int|
            match v[k] {
                Some(s) => Some(s@),
                None => None,
            },
    )
}

impl View for Setting {
    type V = SettingView;

    open spec fn view(&self) -> SettingView {
        match self {
            Setting::Int(i) => SettingView::Int(*i as int),
            Setting::Str(s) => SettingView::Str(s@),
            Setting::Items(v) => SettingView::Items(items_view(v@)),
            Setting::Other => SettingView::Other,
        }
    }
}

/// The view of a setting that may be absent.
pub open spec fn opt_view(o: Option<&Setting>) -> Option<SettingView> {
    match o {
        Some(s) => Some(s@),
        None => None,
    }
}

/// The settings of a document as plain values, in document order.
pub open spec fn settings_view(u: Seq<(String, Setting)>) -> Seq<(Seq<char>, SettingView)> {
    Seq::new(u.len(), |k: int| (u[k].0@, u[k].1@))
}

/// Relies on `toml::Table`'s `FromStr` and on the variants of `toml::Value`:
/// the top-level settings of the TOML document `doc`, in document order (the
/// table keeps insertion order), or `None` where `doc` is not TOML.
pub uninterp spec fn settings_of(doc: Seq<char>) -> Option<Seq<(Seq<char>, SettingView)>>;

/// Relies on `toml::Table`'s `FromStr`, its iteration, and `toml::Value::as_str`
/// for array items: the top-level settings of `s`, each read as a `Setting`.
#[verifier::external_body]
fn parse_settings(s: &str) -> (r: Option<Vec<(String, Setting)>>)
    ensures
        match r {
            Some(v) => settings_of(s@) == Some(settings_view(v@)),
            None => settings_of(s@) is None,
        },
{
    let t = s.parse::<toml::Table>().ok()?;
    Some(t.into_iter().map(|(k, v)| (k, match v {
        toml::Value::Integer(i) => Setting::Int(i),
        toml::Value::String(s) => Setting::Str(s),
        toml::Value::Array(a) => Setting::Items(a.iter().map(|x| x.as_str().map(String::from)).collect()),
        _ => Setting::Other,
    })).collect())
}

/// What is wrong with a configuration.
#[derive(Debug, PartialEq, Eq, Clone, Copy)]
pub enum ConfigErrorKind {
    /// The document is not TOML.
    Parse,
    /// A required setting is absent.
    Required,
    /// A setting has no value and no default.
    Missing,
    /// A setting that should be a number is not one.
    NotANumber,
    /// A number is negative or too large.
    OutOfRange,
    /// A setting that should be a string is not one.
    NotAString,
    /// A setting that should be an array is not one.
    NotAnArray,
    /// An array holds something other than strings.
    NotStrings,
    /// An array holds an empty string.
    EmptyString,
}

/// A configuration error and the setting it concerns.
#[derive(Debug)]
pub struct ConfigError {
    pub kind: ConfigErrorKind,
    pub param: String,
}

/// The value a setting takes: the one given, else the default.
pub open spec fn chosen(user: Option<SettingView>, def: Option<SettingView>) -> Option<SettingView> {
    if user is Some {
        user
    } else {
        def
    }
}

/// The numeric setting, or what is wrong with it.
pub open spec fn num_result(user: Option<SettingView>, def: Option<SettingView>, required: bool) -> Result<
    int,
    ConfigErrorKind,
> {
    if required && user is None {
        Err(ConfigErrorKind::Required)
    } else {
        match chosen(user, def) {
            Some(SettingView::Int(i)) => if 0 <= i <= usize::MAX {
                Ok(i)
            } else {
                Err(ConfigErrorKind::OutOfRange)
            },
            Some(_) => Err(ConfigErrorKind::NotANumber),
            None => Err(ConfigErrorKind::Missing),
        }
    }
}

/// The string setting, or what is wrong with it.
pub open spec fn str_result(user: Option<SettingView>, def: Option<SettingView>, required: bool) -> Result<
    Seq<char>,
    ConfigErrorKind,
> {
    if required && user is None {
        Err(ConfigErrorKind::Required)
    } else {
        match chosen(user, def) {
            Some(SettingView::Str(s)) => Ok(s),
            Some(_) => Err(ConfigErrorKind::NotAString),
            None => Err(ConfigErrorKind::Missing),
        }
    }
}

/// The strings of an array's items, or what is wrong with them.
pub open spec fn strings_result(items: Seq<Option<Seq<char>>>) -> Result<Seq<Seq<char>>, ConfigErrorKind> {
    if exists|k: int| 0 <= k < items.len() && (#[trigger] items[k]) is None {
        Err(ConfigErrorKind::NotStrings)
    } else if exists|k: int| 0 <= k < items.len() && (#[trigger] items[k])->0.len() == 0 {
        Err(ConfigErrorKind::EmptyString)
    } else {
        Ok(Seq::new(items.len(), |k: int| items[k]->0))
    }
}

/// The array-of-strings setting, or what is wrong with it.
pub open spec fn arr_result(user: Option<SettingView>, def: Option<SettingView>, required: bool) -> Result<
    Seq<Seq<char>>,
    ConfigErrorKind,
> {
    if required && user is None {
        Err(ConfigErrorKind::Required)
    } else {
        match chosen(user, def) {
            Some(SettingView::Items(items)) => strings_result(items),
            Some(_) => Err(ConfigErrorKind::NotAnArray),
            None => Err(ConfigErrorKind::Missing),
        }
    }
}

/// An error of kind `k` about the setting `name`.
pub open spec fn is_error(e: ConfigError, k: ConfigErrorKind, name: Seq<char>) -> bool {
    e.kind == k && e.param@ == name
}

/// The strings `v` are exactly `s`.
pub open spec fn strings_eq(v: Seq<String>, s: Seq<Seq<char>>) -> bool {
    v.len() == s.len() && forall|k: int| 0 <= k < s.len() ==> (#[trigger] v[k])@ == s[k]
}

fn config_error(kind: ConfigErrorKind, name: &str) -> (e: ConfigError)
    ensures
        is_error(e, kind, name@),
{
    ConfigError { kind, param: string_of(chars_of(name).as_slice()) }
}

/// The setting that stands first under `key` in `u`, from position `i` on.
pub open spec fn setting_from(u: Seq<(Seq<char>, SettingView)>, key: Seq<char>, i: int) -> Option<
    SettingView,
>
    decreases u.len() - i,
{
    if i < 0 || i >= u.len() {
        None
    } else if u[i].0 == key {
        Some(u[i].1)
    } else {
        setting_from(u, key, i + 1)
    }
}

/// The setting `key` of the settings `u`.
pub open spec fn setting(u: Seq<(Seq<char>, SettingView)>, key: Seq<char>) -> Option<SettingView> {
    setting_from(u, key, 0)
}

/// The setting `key` of `u`.
fn find_setting<'a>(u: &'a Vec<(String, Setting)>, key: &str) -> (r: Option<&'a Setting>)
    ensures
        opt_view(r) == setting(settings_view(u@), key@),
{
    let ghost sv = settings_view(u@);
    let mut i: usize = 0;
    while i < u.len()
        invariant
            i <= u@.len(),
            sv == settings_view(u@),
            setting(sv, key@) == setting_from(sv, key@, i as int),
        decreases u@.len() - i,
    {
        let k = chars_of(u[i].0.as_str());
        if same_as_str(k.as_slice(), key) {
            return Some(&u[i].1);
        }
        i = i + 1;
    }
    None
}

/// The value that a setting left out of the document takes.
pub open spec fn default_view(key: Seq<char>) -> Option<SettingView> {
    if key == "address"@ {
        Some(SettingView::Str("127.0.0.1"@))
    } else if key == "port"@ {
        Some(SettingView::Str("8000"@))
    } else if key == "thread_count"@ {
        Some(SettingView::Int(3))
    } else if key == "test_param"@ {
        Some(SettingView::Int(5))
    } else if key == "static_dir"@ {
        Some(SettingView::Str(Seq::empty()))
    } else if key == "static_url"@ {
        Some(SettingView::Str("/static/"@))
    } else if key == "gzip_min_size"@ {
        Some(SettingView::Int(1024))
    } else if key == "gzip_max_size"@ {
        Some(SettingView::Int(1048576))
    } else if key == "gzip_file_types"@ {
        Some(SettingView::Items(seq![Some("js"@), Some("txt"@), Some("html"@), Some("css"@)]))
    } else {
        None
    }
}

/// The default of the setting `key`.
pub fn default_setting(key: &str) -> (r: Option<Setting>)
    ensures
        match r {
            Some(s) => default_view(key@) == Some(s@),
            None => default_view(key@) is None,
        },
{
    let k = chars_of(key);
    let k = k.as_slice();
    if same_as_str(k, "address") {
        Some(Setting::Str("127.0.0.1".to_owned()))
    } else if same_as_str(k, "port") {
        Some(Setting::Str("8000".to_owned()))
    } else if same_as_str(k, "thread_count") {
        Some(Setting::Int(3))
    } else if same_as_str(k, "test_param") {
        Some(Setting::Int(5))
    } else if same_as_str(k, "static_dir") {
        Some(Setting::Str(String::new()))
    } else if same_as_str(k, "static_url") {
        Some(Setting::Str("/static/".to_owned()))
    } else if same_as_str(k, "gzip_min_size") {
        Some(Setting::Int(1024))
    } else if same_as_str(k, "gzip_max_size") {
        Some(Setting::Int(1048576))
    } else if same_as_str(k, "gzip_file_types") {
        let v: Vec<Option<String>> = vec![
            Some("js".to_owned()),
            Some("txt".to_owned()),
            Some("html".to_owned()),
            Some("css".to_owned()),
        ];
        let s = Setting::Items(v);
        assert(s@ == SettingView::Items(seq![Some("js"@), Some("txt"@), Some("html"@), Some("css"@)])) by {
            assert(items_view(v@) =~= seq![Some("js"@), Some("txt"@), Some("html"@), Some("css"@)]);
        }
        Some(s)
    } else {
        None
    }
}

/// A numeric setting: the value given, else the default; a required setting
/// must be given.
pub fn get_config_param_num(
    def: Option<&Setting>,
    user: Option<&Setting>,
    param: &str,
    is_required: bool,
) -> (r: Result<usize, ConfigError>)
    ensures
        match (r, num_result(opt_view(user), opt_view(def), is_required)) {
            (Ok(v), Ok(n)) => v == n,
            (Err(e), Err(k)) => is_error(e, k, param@),
            _ => false,
        },
{
    if is_required && user.is_none() {
        return Err(config_error(ConfigErrorKind::Required, param));
    }
    let p = match user {
        Some(u) => Some(u),
        None => def,
    };
    match p {
        Some(Setting::Int(i)) => {
            if 0 <= *i && *i as u64 <= usize::MAX as u64 {
                Ok(*i as usize)
            } else {
                Err(config_error(ConfigErrorKind::OutOfRange, param))
            }
        },
        Some(_) => Err(config_error(ConfigErrorKind::NotANumber, param)),
        None => Err(config_error(ConfigErrorKind::Missing, param)),
    }
}

/// A string setting: the value given, else the default; a required setting
/// must be given.
pub fn get_config_param_str(
    def: Option<&Setting>,
    user: Option<&Setting>,
    param: &str,
    is_required: bool,
) -> (r: Result<String, ConfigError>)
    ensures
        match (r, str_result(opt_view(user), opt_view(def), is_required)) {
            (Ok(v), Ok(s)) => v@ == s,
            (Err(e), Err(k)) => is_error(e, k, param@),
            _ => false,
        },
{
    if is_required && user.is_none() {
        return Err(config_error(ConfigErrorKind::Required, param));
    }
    let p = match user {
        Some(u) => Some(u),
        None => def,
    };
    match p {
        Some(Setting::Str(s)) => Ok(string_of(chars_of(s.as_str()).as_slice())),
        Some(_) => Err(config_error(ConfigErrorKind::NotAString, param)),
        None => Err(config_error(ConfigErrorKind::Missing, param)),
    }
}

/// The strings of an array setting whose items, read as strings, are `items`:
/// an item that is not a string, or is empty, is an error.
pub fn get_config_param_strings(items: &Vec<Option<String>>, param: &str) -> (r: Result<
    Vec<String>,
    ConfigError,
>)
    ensures
        match (r, strings_result(items_view(items@))) {
            (Ok(v), Ok(s)) => strings_eq(v@, s),
            (Err(e), Err(k)) => is_error(e, k, param@),
            _ => false,
        },
{
    let ghost iv = items_view(items@);
    let mut i: usize = 0;
    while i < items.len()
        invariant
            i <= items@.len(),
            iv == items_view(items@),
            forall|k: int| 0 <= k < i ==> (#[trigger] iv[k]) is Some,
        decreases items@.len() - i,
    {
        if items[i].is_none() {
            assert(iv[i as int] is None);
            return Err(config_error(ConfigErrorKind::NotStrings, param));
        }
        i = i + 1;
    }
    let mut out: Vec<String> = Vec::new();
    let mut j: usize = 0;
    while j < items.len()
        invariant
            j <= items@.len(),
            iv == items_view(items@),
            forall|k: int| 0 <= k < items@.len() ==> (#[trigger] iv[k]) is Some,
            forall|k: int| 0 <= k < j ==> (#[trigger] iv[k])->0.len() > 0,
            out@.len() == j,
            forall|k: int| 0 <= k < j ==> (#[trigger] out@[k])@ == iv[k]->0,
        decreases items@.len() - j,
    {
        let s = match &items[j] {
            Some(s) => s,
            None => {
                assert(iv[j as int] is None);
                return Err(config_error(ConfigErrorKind::NotStrings, param));
            },
        };
        if s.as_str().is_empty() {
            assert(iv[j as int]->0.len() == 0);
            return Err(config_error(ConfigErrorKind::EmptyString, param));
        }
        out.push(string_of(chars_of(s.as_str()).as_slice()));
        j = j + 1;
    }
    assert(strings_eq(out@, strings_result(iv)->Ok_0));
    Ok(out)
}

/// An array setting of strings: the value given, else the default; a required
/// setting must be given, the value must be an array, and each of its items a
/// string that is not empty.
pub fn get_config_param_arr(
    def: Option<&Setting>,
    user: Option<&Setting>,
    param: &str,
    is_required: bool,
) -> (r: Result<Vec<String>, ConfigError>)
    ensures
        match (r, arr_result(opt_view(user), opt_view(def), is_required)) {
            (Ok(v), Ok(s)) => strings_eq(v@, s),
            (Err(e), Err(k)) => is_error(e, k, param@),
            _ => false,
        },
{
    if is_required && user.is_none() {
        return Err(config_error(ConfigErrorKind::Required, param));
    }
    let p = match user {
        Some(u) => Some(u),
        None => def,
    };
    match p {
        Some(Setting::Items(a)) => get_config_param_strings(a, param),
        Some(_) => Err(config_error(ConfigErrorKind::NotAnArray, param)),
        None => Err(config_error(ConfigErrorKind::Missing, param)),
    }
}

/// The URL prefix `u` ending with `/`.
pub open spec fn with_slash(u: Seq<char>) -> Seq<char> {
    if u.len() > 0 && u.last() == '/' {
        u
    } else {
        u.push('/')
    }
}

/// The configuration made of these settings: `address_full` joins address and
/// port with `:`, and the static prefix is given a trailing `/` where it lacks one.
pub fn build_config(
    address: String,
    port: String,
    thread_count: usize,
    test_param: usize,
    static_dir: String,
    static_url: String,
    gzip_min_size: usize,
    gzip_max_size: usize,
    gzip_file_types: Vec<String>,
) -> (c: Config)
    ensures
        c.address@ == address@,
        c.port@ == port@,
        c.address_full@ == address@ + seq![':'] + port@,
        c.thread_count == thread_count,
        c.test_param == test_param,
        c.static_dir@ == static_dir@,
        c.static_url@ == with_slash(static_url@),
        c.gzip_min_size == gzip_min_size,
        c.gzip_max_size == gzip_max_size,
        c.gzip_file_types@ == gzip_file_types@,
{
    let mut address_full = String::new();
    push_str(&mut address_full, address.as_str());
    push_char(&mut address_full, ':');
    push_str(&mut address_full, port.as_str());
    let u = chars_of(static_url.as_str());
    let mut url = static_url;
    if !(u.len() > 0 && u[u.len() - 1] == '/') {
        push_char(&mut url, '/');
    }
    Config {
        address,
        port,
        address_full,
        thread_count,
        test_param,
        static_dir,
        static_url: url,
        gzip_min_size,
        gzip_max_size,
        gzip_file_types,
    }
}


/// A configuration as plain values.
pub struct ConfigView {
    pub address: Seq<char>,
    pub port: Seq<char>,
    pub address_full: Seq<char>,
    pub thread_count: int,
    pub test_param: int,
    pub static_dir: Seq<char>,
    pub static_url: Seq<char>,
    pub gzip_min_size: int,
    pub gzip_max_size: int,
    pub gzip_file_types: Seq<Seq<char>>,
}

/// The configuration that the settings `u` give, each setting taken from `u`
/// or else from its default; or the first failing setting, in the order
/// address, port, thread_count, test_param, static_dir, static_url,
/// gzip_min_size, gzip_max_size, gzip_file_types, with what is wrong with it.
/// `static_dir` and `static_url` are required.
pub open spec fn config_result(u: Seq<(Seq<char>, SettingView)>) -> Result<
    ConfigView,
    (ConfigErrorKind, Seq<char>),
> {
    let address = str_result(setting(u, "address"@), default_view("address"@), false);
    let port = str_result(setting(u, "port"@), default_view("port"@), false);
    let thread_count = num_result(setting(u, "thread_count"@), default_view("thread_count"@), false);
    let test_param = num_result(setting(u, "test_param"@), default_view("test_param"@), false);
    let static_dir = str_result(setting(u, "static_dir"@), default_view("static_dir"@), true);
    let static_url = str_result(setting(u, "static_url"@), default_view("static_url"@), true);
    let gzip_min_size = num_result(setting(u, "gzip_min_size"@), default_view("gzip_min_size"@), false);
    let gzip_max_size = num_result(setting(u, "gzip_max_size"@), default_view("gzip_max_size"@), false);
    let gzip_file_types = arr_result(setting(u, "gzip_file_types"@), default_view("gzip_file_types"@), false);
    if address is Err {
        Err((address->Err_0, "address"@))
    } else if port is Err {
        Err((port->Err_0, "port"@))
    } else if thread_count is Err {
        Err((thread_count->Err_0, "thread_count"@))
    } else if test_param is Err {
        Err((test_param->Err_0, "test_param"@))
    } else if static_dir is Err {
        Err((static_dir->Err_0, "static_dir"@))
    } else if static_url is Err {
        Err((static_url->Err_0, "static_url"@))
    } else if gzip_min_size is Err {
        Err((gzip_min_size->Err_0, "gzip_min_size"@))
    } else if gzip_max_size is Err {
        Err((gzip_max_size->Err_0, "gzip_max_size"@))
    } else if gzip_file_types is Err {
        Err((gzip_file_types->Err_0, "gzip_file_types"@))
    } else {
        Ok(
            ConfigView {
                address: address->Ok_0,
                port: port->Ok_0,
                address_full: address->Ok_0 + seq![':'] + port->Ok_0,
                thread_count: thread_count->Ok_0,
                test_param: test_param->Ok_0,
                static_dir: static_dir->Ok_0,
                static_url: with_slash(static_url->Ok_0),
                gzip_min_size: gzip_min_size->Ok_0,
                gzip_max_size: gzip_max_size->Ok_0,
                gzip_file_types: gzip_file_types->Ok_0,
            },
        )
    }
}

/// `r` is the configuration, or the error, that `s` describes.
pub open spec fn config_agrees(r: Result<Config, ConfigError>, s: Result<ConfigView, (ConfigErrorKind, Seq<char>)>) -> bool {
    match (r, s) {
        (Ok(c), Ok(m)) => {
            &&& c.address@ == m.address
            &&& c.port@ == m.port
            &&& c.address_full@ == m.address_full
            &&& c.thread_count == m.thread_count
            &&& c.test_param == m.test_param
            &&& c.static_dir@ == m.static_dir
            &&& c.static_url@ == m.static_url
            &&& c.gzip_min_size == m.gzip_min_size
            &&& c.gzip_max_size == m.gzip_max_size
            &&& strings_eq(c.gzip_file_types@, m.gzip_file_types)
        },
        (Err(e), Err((k, p))) => is_error(e, k, p),
        _ => false,
    }
}

/// The configuration that the settings `u` of a document give, with the
/// defaults for what they leave out.
pub fn config_from_settings(u: &Vec<(String, Setting)>) -> (r: Result<Config, ConfigError>)
    ensures
        config_agrees(r, config_result(settings_view(u@))),
{
    let address = match get_config_param_str(
        default_setting("address").as_ref(),
        find_setting(u, "address"),
        "address",
        false,
    ) {
        Ok(v) => v,
        Err(e) => {
            return Err(e);
        },
    };
    let port = match get_config_param_str(
        default_setting("port").as_ref(),
        find_setting(u, "port"),
        "port",
        false,
    ) {
        Ok(v) => v,
        Err(e) => {
            return Err(e);
        },
    };
    let thread_count = match get_config_param_num(
        default_setting("thread_count").as_ref(),
        find_setting(u, "thread_count"),
        "thread_count",
        false,
    ) {
        Ok(v) => v,
        Err(e) => {
            return Err(e);
        },
    };
    let test_param = match get_config_param_num(
        default_setting("test_param").as_ref(),
        find_setting(u, "test_param"),
        "test_param",
        false,
    ) {
        Ok(v) => v,
        Err(e) => {
            return Err(e);
        },
    };
    let static_dir = match get_config_param_str(
        default_setting("static_dir").as_ref(),
        find_setting(u, "static_dir"),
        "static_dir",
        true,
    ) {
        Ok(v) => v,
        Err(e) => {
            return Err(e);
        },
    };
    let static_url = match get_config_param_str(
        default_setting("static_url").as_ref(),
        find_setting(u, "static_url"),
        "static_url",
        true,
    ) {
        Ok(v) => v,
        Err(e) => {
            return Err(e);
        },
    };
    let gzip_min_size = match get_config_param_num(
        default_setting("gzip_min_size").as_ref(),
        find_setting(u, "gzip_min_size"),
        "gzip_min_size",
        false,
    ) {
        Ok(v) => v,
        Err(e) => {
            return Err(e);
        },
    };
    let gzip_max_size = match get_config_param_num(
        default_setting("gzip_max_size").as_ref(),
        find_setting(u, "gzip_max_size"),
        "gzip_max_size",
        false,
    ) {
        Ok(v) => v,
        Err(e) => {
            return Err(e);
        },
    };
    let gzip_file_types = match get_config_param_arr(
        default_setting("gzip_file_types").as_ref(),
        find_setting(u, "gzip_file_types"),
        "gzip_file_types",
        false,
    ) {
        Ok(v) => v,
        Err(e) => {
            return Err(e);
        },
    };
    Ok(
        build_config(
            address,
            port,
            thread_count,
            test_param,
            static_dir,
            static_url,
            gzip_min_size,
            gzip_max_size,
            gzip_file_types,
        ),
    )
}

/// The configuration that the TOML document `contents` gives: an error of kind
/// `Parse` where it is not TOML, else as `config_from_settings` says of its
/// settings.
pub fn config_from_str(contents: &str) -> (r: Result<Config, ConfigError>)
    ensures
        settings_of(contents@) is None ==> (r matches Err(e) && is_error(e, ConfigErrorKind::Parse, Seq::empty())),
        settings_of(contents@) matches Some(u) ==> config_agrees(r, config_result(u)),
{
    match parse_settings(contents) {
        Some(u) => config_from_settings(&u),
        None => {
            let e = ConfigError { kind: ConfigErrorKind::Parse, param: String::new() };
            Err(e)
        },
    }
}

} // verus!
