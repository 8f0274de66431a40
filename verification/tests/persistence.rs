use playground_bot::commands::set_backtrace;
use playground_bot::commands::set_build_type;
use playground_bot::commands::set_channel;
use playground_bot::commands::set_edition;
use playground_bot::commands::set_mode;
use playground_bot::prefs::BuildType;
use playground_bot::prefs::Channel;
use playground_bot::prefs::Edition;
use playground_bot::prefs::Mode;
use playground_bot::storage::load_users_data;
use playground_bot::storage::save_users_data;
use playground_bot::store::get_user_data;
use playground_bot::store::Users;

#[test]
fn empty_store_saves_as_empty_object() {
    let users = Users::new();
    assert_eq!(save_users_data(&users), "{}");
}

#[test]
fn one_record_saves_exactly() {
    let mut users = Users::new();
    set_channel(5, &mut users, "beta");
    assert_eq!(
        save_users_data(&users),
        "{\"5\":{\"backtrace\":false,\"channel\":\"beta\",\"crateType\":\"bin\",\"edition\":\"2018\",\"mode\":\"debug\",\"tests\":false}}"
    );
}

#[test]
fn save_then_load_reproduces_every_record() {
    let mut users = Users::new();
    set_channel(1, &mut users, "beta");
    set_mode(1, &mut users, "release");
    set_edition(2, &mut users, "2015");
    set_backtrace(3, &mut users, "enabled");
    set_build_type(4, &mut users, "test");
    set_channel(u64::MAX, &mut users, "nightly");

    let text = save_users_data(&users);
    let loaded = load_users_data(Some(text.as_str()));

    for id in [1u64, 2, 3, 4, 5, u64::MAX] {
        assert_eq!(get_user_data(id, &loaded), get_user_data(id, &users));
    }
    let r1 = get_user_data(1, &loaded);
    assert_eq!(r1.channel, Channel::Beta);
    assert_eq!(r1.mode, Mode::Release);
    assert_eq!(get_user_data(2, &loaded).edition, Edition::E2015);
    assert!(get_user_data(3, &loaded).backtrace);
    let r4 = get_user_data(4, &loaded);
    assert!(r4.tests);
    assert_eq!(r4.crate_type, BuildType::Lib);
    assert_eq!(get_user_data(u64::MAX, &loaded).channel, Channel::Nightly);
}

#[test]
fn load_missing_file_yields_empty_store() {
    let loaded = load_users_data(None);
    assert_eq!(save_users_data(&loaded), "{}");
}

#[test]
fn load_corrupt_text_yields_empty_store() {
    for bad in [
        "",
        "not json at all",
        "[1,2,3]",
        "{\"5\":{\"backtrace\":false}}",
        "{\"x\":{\"backtrace\":false,\"channel\":\"beta\",\"crateType\":\"bin\",\"edition\":\"2018\",\"mode\":\"debug\",\"tests\":false}}",
        "{\"5\":{\"backtrace\":false,\"channel\":\"beta\",\"crateType\":\"bin\",\"edition\":\"2018\",\"mode\":\"debug\",\"tests\":false}} trailing",
    ] {
        let loaded = load_users_data(Some(bad));
        assert_eq!(save_users_data(&loaded), "{}", "text: {}", bad);
    }
}

#[test]
fn load_empty_object_yields_empty_store() {
    let loaded = load_users_data(Some("{}"));
    assert_eq!(save_users_data(&loaded), "{}");
}

#[test]
fn load_duplicate_user_id_is_corrupt() {
    let one = "\"5\":{\"backtrace\":false,\"channel\":\"beta\",\"crateType\":\"bin\",\"edition\":\"2018\",\"mode\":\"debug\",\"tests\":false}";
    let text = format!("{{{},{}}}", one, one);
    let loaded = load_users_data(Some(text.as_str()));
    assert_eq!(save_users_data(&loaded), "{}");
}

#[test]
fn load_accepts_two_saved_records() {
    let mut users = Users::new();
    set_channel(10, &mut users, "beta");
    set_channel(20, &mut users, "nightly");
    let text = save_users_data(&users);
    let loaded = load_users_data(Some(text.as_str()));
    assert_eq!(get_user_data(10, &loaded).channel, Channel::Beta);
    assert_eq!(get_user_data(20, &loaded).channel, Channel::Nightly);
    assert_eq!(save_users_data(&loaded), text);
}
