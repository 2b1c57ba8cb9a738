//! The platform's global settings, with their default values.
use vstd::prelude::*;

verus! {

/// The default settings, as (key, value) pairs in a fixed order.
pub open spec fn default_settings() -> Seq<(Seq<char>, Seq<char>)> {
    seq![
        ("font.family"@, "微软雅黑"@),
        ("font.size"@, "12"@),
        ("log.active"@, "True"@),
        ("log.level"@, "CRITICAL"@),
        ("log.console"@, "True"@),
        ("log.file"@, "True"@),
        ("email.server"@, "smtp.qq.com"@),
        ("email.port"@, "465"@),
        ("email.username"@, ""@),
        ("email.password"@, ""@),
        ("email.sender"@, ""@),
        ("email.receiver"@, ""@),
        ("datafeed.name"@, ""@),
        ("datafeed.username"@, ""@),
        ("datafeed.password"@, ""@),
        ("database.timezone"@, "LOCAL"@),
        ("database.name"@, "sqlite"@),
        ("database.database"@, "database.db"@),
        ("database.host"@, ""@),
        ("database.port"@, "0"@),
        ("database.user"@, ""@),
        ("database.password"@, ""@),
    ]
}

/// The settings as (key, value) pairs; keys are unique.
pub fn get_settings() -> (r: Vec<(String, String)>)
    ensures
        r@.len() == default_settings().len(),
        forall|i: int| 0 <= i < r@.len() ==> (#[trigger] r@[i]).0@ == default_settings()[i].0 && r@[i].1@ == default_settings()[i].1,
{
    let mut r: Vec<(String, String)> = Vec::new();
    r.push(("font.family".to_owned(), "微软雅黑".to_owned()));
    r.push(("font.size".to_owned(), "12".to_owned()));
    r.push(("log.active".to_owned(), "True".to_owned()));
    r.push(("log.level".to_owned(), "CRITICAL".to_owned()));
    r.push(("log.console".to_owned(), "True".to_owned()));
    r.push(("log.file".to_owned(), "True".to_owned()));
    r.push(("email.server".to_owned(), "smtp.qq.com".to_owned()));
    r.push(("email.port".to_owned(), "465".to_owned()));
    r.push(("email.username".to_owned(), "".to_owned()));
    r.push(("email.password".to_owned(), "".to_owned()));
    r.push(("email.sender".to_owned(), "".to_owned()));
    r.push(("email.receiver".to_owned(), "".to_owned()));
    r.push(("datafeed.name".to_owned(), "".to_owned()));
    r.push(("datafeed.username".to_owned(), "".to_owned()));
    r.push(("datafeed.password".to_owned(), "".to_owned()));
    r.push(("database.timezone".to_owned(), "LOCAL".to_owned()));
    r.push(("database.name".to_owned(), "sqlite".to_owned()));
    r.push(("database.database".to_owned(), "database.db".to_owned()));
    r.push(("database.host".to_owned(), "".to_owned()));
    r.push(("database.port".to_owned(), "0".to_owned()));
    r.push(("database.user".to_owned(), "".to_owned()));
    r.push(("database.password".to_owned(), "".to_owned()));
    r
}

/// The value of setting `key`, if there is such a setting.
pub fn get_setting(key: &str) -> (r: Option<String>)
    ensures
        r matches Some(v) ==> exists|i: int| 0 <= i < default_settings().len() && default_settings()[i].0 == key@
            && #[trigger] default_settings()[i].1 == v@,
        r is None ==> forall|i: int| 0 <= i < default_settings().len() ==> #[trigger] default_settings()[i].0 != key@,
{
    let settings = get_settings();
    let n = settings.len();
    let mut i: usize = 0;
    while i < n
        invariant
            n == settings@.len(),
            n == default_settings().len(),
            i <= n,
            forall|j: int| 0 <= j < settings@.len() ==> (#[trigger] settings@[j]).0@ == default_settings()[j].0 && settings@[j].1@ == default_settings()[j].1,
            forall|j: int| 0 <= j < i ==> #[trigger] default_settings()[j].0 != key@,
        decreases n - i,
    {
        if crate::constant::str_eq(settings[i].0.as_str(), key) {
            assert(default_settings()[i as int].1 == settings@[i as int].1@);
            return Some(settings[i].1.clone());
        }
        i += 1;
    }
    None
}

} // verus!
