use prefs_store::locale::language_from;
use prefs_store::read::read_preferences;
use prefs_store::store::GlobalPreferences;
use prefs_store::types::{
    default_preferences, Bookmark, FilenamePattern, GraphicsBackend, Opt, PowerPreference,
    StorageBackend, WarningKind,
};

fn no_cli() -> Opt {
    Opt { graphics: None, power: None, volume: None, storage: None }
}

fn load_empty(cli: Opt) -> GlobalPreferences {
    GlobalPreferences::load(cli, None, None).expect("load without files").0
}

#[test]
fn fresh_defaults_have_expected_fields() {
    let d = default_preferences();
    assert_eq!(d.volume, 1000);
    assert_eq!(d.volume as f32 / 1000.0, 1.0);
    assert_eq!(d.mute, false);
    assert_eq!(d.output_device, None);
    assert_eq!(d.graphics_backend, GraphicsBackend::Auto);
    assert_eq!(d.graphics_power_preference, PowerPreference::High);
    assert_eq!(d.storage.backend, StorageBackend::Disk);
}

#[test]
fn load_without_files_uses_default_backend() {
    let store = load_empty(no_cli());
    assert_eq!(store.graphics_backends(), GraphicsBackend::Auto);
    assert_eq!(store.preferred_volume(), 1000);
    assert_eq!(store.mute(), false);
}

#[test]
fn cli_override_wins_over_persisted_value() {
    let text = b"graphics_backend = \"gl\"\nvolume = 0.25\n".to_vec();
    let cli = Opt {
        graphics: Some(GraphicsBackend::Vulkan),
        power: Some(PowerPreference::Low),
        volume: Some(750),
        storage: Some(StorageBackend::Memory),
    };
    let (store, _) = GlobalPreferences::load(cli, Some(text), None).expect("load");
    assert_eq!(store.graphics_backends(), GraphicsBackend::Vulkan);
    assert_eq!(store.graphics_power_preference(), PowerPreference::Low);
    assert_eq!(store.preferred_volume(), 750);
    assert_eq!(store.storage_backend(), StorageBackend::Memory);
}

#[test]
fn absent_cli_falls_back_to_persisted_value() {
    let text = b"graphics_backend = \"gl\"\nvolume = 0.25\n".to_vec();
    let (store, warnings) = GlobalPreferences::load(no_cli(), Some(text), None).expect("load");
    assert_eq!(warnings.len(), 0);
    assert_eq!(store.graphics_backends(), GraphicsBackend::Gl);
    assert_eq!(store.preferred_volume(), 250);
}

#[test]
fn out_of_range_volume_degrades_with_one_warning() {
    let text = b"volume = -0.5\n".to_vec();
    let (store, warnings) = GlobalPreferences::load(no_cli(), Some(text), None).expect("load");
    assert_eq!(store.preferred_volume(), 1000);
    assert_eq!(warnings.len(), 1);
    assert_eq!(warnings[0].kind, WarningKind::OutOfRange);
    assert_eq!(warnings[0].key, b"volume".to_vec());
}

#[test]
fn volume_above_full_is_out_of_range() {
    let text = b"volume = 1.5\n".to_vec();
    let (store, warnings) = GlobalPreferences::load(no_cli(), Some(text), None).expect("load");
    assert_eq!(store.preferred_volume(), 1000);
    assert_eq!(warnings.len(), 1);
    assert_eq!(warnings[0].kind, WarningKind::OutOfRange);
}

#[test]
fn each_invalid_field_defaults_with_exactly_one_warning() {
    let text = b"graphics_backend = \"quantum\"\nmute = maybe\nvolume = huh\n".to_vec();
    let (store, warnings) = GlobalPreferences::load(no_cli(), Some(text), None).expect("load");
    assert_eq!(warnings.len(), 3);
    assert!(warnings.iter().all(|w| w.kind == WarningKind::InvalidValue));
    assert_eq!(store.graphics_backends(), GraphicsBackend::Auto);
    assert_eq!(store.mute(), false);
    assert_eq!(store.preferred_volume(), 1000);
}

#[test]
fn unknown_key_warns_and_survives_resave() {
    let text = b"favourite_colour = \"teal\"\nmute = true\n".to_vec();
    let (store, warnings) = GlobalPreferences::load(no_cli(), Some(text), None).expect("load");
    assert_eq!(warnings.len(), 1);
    assert_eq!(warnings[0].kind, WarningKind::UnknownKey);
    assert_eq!(warnings[0].key, b"favourite_colour".to_vec());
    assert_eq!(store.mute(), true);
    let out = store.serialize_preferences();
    let out_text = String::from_utf8(out).expect("utf8");
    assert!(out_text.contains("favourite_colour = \"teal\""));
    assert!(out_text.contains("mute = true"));
}

#[test]
fn structurally_broken_document_fails_load() {
    let text = b"mute = true\nthis is no key value line\n".to_vec();
    let r = GlobalPreferences::load(no_cli(), Some(text), None);
    let err = r.err().expect("load must fail");
    assert_eq!(err.line, 1);
}

#[test]
fn canonical_document_roundtrips_exactly() {
    let store = load_empty(no_cli());
    let first = store.serialize_preferences();
    let parsed = read_preferences(&first).expect("canonical text must read back");
    assert_eq!(parsed.warnings.len(), 0);
    let second = parsed.result.serialize();
    assert_eq!(first, second);
}

#[test]
fn read_preferences_is_idempotent_on_loaded_documents() {
    let text =
        b"# hand written\ngraphics_backend = \"metal\"\nvolume = 0.125\ncustom = 1\n[storage]\nbackend = \"memory\"\n"
            .to_vec();
    let first = read_preferences(&text).expect("readable").result.serialize();
    let again = read_preferences(&first).expect("canonical").result.serialize();
    assert_eq!(first, again);
}

#[test]
fn write_preferences_mutation_is_visible_and_persists() {
    let mut store = load_empty(no_cli());
    let bytes = store.write_preferences(|mut w| {
        w.set_mute(true);
        w
    });
    assert_eq!(store.mute(), true);
    let (reloaded, warnings) =
        GlobalPreferences::load(no_cli(), Some(bytes), None).expect("reload");
    assert_eq!(warnings.len(), 0);
    assert_eq!(reloaded.mute(), true);
}

#[test]
fn sequential_disjoint_writes_both_take_effect() {
    let mut store = load_empty(no_cli());
    store.write_preferences(|mut w| {
        w.set_mute(true);
        w
    });
    store.write_preferences(|mut w| {
        w.set_volume(250);
        w
    });
    assert_eq!(store.mute(), true);
    assert_eq!(store.preferred_volume(), 250);
}

#[test]
fn volume_is_rendered_with_three_decimals_and_read_back() {
    let mut store = load_empty(no_cli());
    let bytes = store.write_preferences(|mut w| {
        w.set_volume(250);
        w
    });
    let text = String::from_utf8(bytes.clone()).expect("utf8");
    assert!(text.contains("volume = 0.250"));
    let (reloaded, _) = GlobalPreferences::load(no_cli(), Some(bytes), None).expect("reload");
    assert_eq!(reloaded.preferred_volume(), 250);
}

#[test]
fn language_round_trips_when_valid() {
    let text = b"language = \"de-AT\"\n".to_vec();
    let (store, warnings) = GlobalPreferences::load(no_cli(), Some(text), None).expect("load");
    assert_eq!(warnings.len(), 0);
    assert_eq!(store.language(), b"de-AT".to_vec());
}

#[test]
fn malformed_language_degrades_with_warning() {
    let text = b"language = \"not a language tag!!\"\n".to_vec();
    let (store, warnings) = GlobalPreferences::load(no_cli(), Some(text), None).expect("load");
    assert_eq!(warnings.len(), 1);
    assert_eq!(warnings[0].kind, WarningKind::InvalidValue);
    assert_eq!(warnings[0].key, b"language".to_vec());
    assert_ne!(store.language(), b"not a language tag!!".to_vec());
}

#[test]
fn output_device_is_persisted_only() {
    let text = b"output_device = \"USB Speakers\"\n".to_vec();
    let (store, warnings) = GlobalPreferences::load(no_cli(), Some(text), None).expect("load");
    assert_eq!(warnings.len(), 0);
    assert_eq!(store.output_device_name(), Some(b"USB Speakers".to_vec()));
    let fresh = load_empty(no_cli());
    assert_eq!(fresh.output_device_name(), None);
}

#[test]
fn log_section_filename_pattern_is_read() {
    let text = b"[log]\nfilename_pattern = \"with_timestamp\"\n".to_vec();
    let (store, warnings) = GlobalPreferences::load(no_cli(), Some(text), None).expect("load");
    assert_eq!(warnings.len(), 0);
    assert_eq!(store.log_filename_pattern(), FilenamePattern::WithTimestamp);
}

#[test]
fn have_bookmarks_is_false_for_empty_list() {
    let store = load_empty(no_cli());
    assert!(!store.have_bookmarks());
}

#[test]
fn have_bookmarks_is_false_when_every_entry_is_invalid() {
    let text = b"[[bookmark]]\nurl = \"\"\nname = \"broken\"\n".to_vec();
    let (store, _) = GlobalPreferences::load(no_cli(), None, Some(text)).expect("load");
    assert_eq!(store.bookmarks().len(), 1);
    assert!(!store.have_bookmarks());
}

#[test]
fn have_bookmarks_is_true_when_one_entry_is_valid() {
    let text = b"[[bookmark]]\nurl = \"\"\nname = \"broken\"\n[[bookmark]]\nurl = \"file:///demo.swf\"\nname = \"demo\"\n"
        .to_vec();
    let (store, _) = GlobalPreferences::load(no_cli(), None, Some(text)).expect("load");
    assert_eq!(store.bookmarks().len(), 2);
    assert!(store.have_bookmarks());
}

#[test]
fn bookmarks_preserve_order_and_fields() {
    let text = b"[[bookmark]]\nurl = \"file:///a.swf\"\nname = \"a\"\n[[bookmark]]\nurl = \"file:///b.swf\"\nname = \"b\"\n"
        .to_vec();
    let (store, warnings) = GlobalPreferences::load(no_cli(), None, Some(text)).expect("load");
    assert_eq!(warnings.len(), 0);
    let bm = store.bookmarks();
    assert_eq!(bm[0].url, b"file:///a.swf".to_vec());
    assert_eq!(bm[0].name, b"a".to_vec());
    assert_eq!(bm[1].url, b"file:///b.swf".to_vec());
    assert_eq!(bm[1].name, b"b".to_vec());
}

#[test]
fn write_bookmarks_adds_an_entry_and_serializes_it() {
    let mut store = load_empty(no_cli());
    let bytes = store.write_bookmarks(|mut w| {
        w.add(Bookmark { url: b"file:///new.swf".to_vec(), name: b"new".to_vec() });
        w
    });
    assert!(store.have_bookmarks());
    let text = String::from_utf8(bytes).expect("utf8");
    assert!(text.contains("[[bookmark]]"));
    assert!(text.contains("url = \"file:///new.swf\""));
    assert!(text.contains("name = \"new\""));
}

#[test]
fn bookmarks_document_roundtrips() {
    let text = b"# favourites\n[[bookmark]]\nurl = \"file:///a.swf\"\nname = \"a\"\n".to_vec();
    let (store, _) = GlobalPreferences::load(no_cli(), None, Some(text)).expect("load");
    let out = store.serialize_bookmarks();
    let (again, warnings) = GlobalPreferences::load(no_cli(), None, Some(out)).expect("reload");
    assert_eq!(warnings.len(), 0);
    assert_eq!(again.bookmarks().len(), 1);
    assert_eq!(again.bookmarks()[0].url, b"file:///a.swf".to_vec());
    let text2 = String::from_utf8(again.serialize_bookmarks()).expect("utf8");
    assert!(text2.contains("# favourites"));
}

#[test]
fn language_validation_uses_real_language_parser() {
    // A plausible-looking but ill-formed tag must be rejected, and a
    // well-formed exotic one accepted; both sides fail if the validity
    // check were constant or echoed its input.
    let bad = b"language = \"12-!!\"\n".to_vec();
    let (_, warnings) = GlobalPreferences::load(no_cli(), Some(bad), None).expect("load");
    assert_eq!(warnings.len(), 1);
    let good = b"language = \"zh-Hant-TW\"\n".to_vec();
    let (store, warnings) = GlobalPreferences::load(no_cli(), Some(good), None).expect("load");
    assert_eq!(warnings.len(), 0);
    assert_eq!(store.language(), b"zh-Hant-TW".to_vec());
}

#[test]
fn language_selection_prefers_a_valid_reported_locale() {
    assert_eq!(language_from(Some(b"de-AT".to_vec())), b"de-AT".to_vec());
    assert_eq!(language_from(Some(b"definitely not a tag".to_vec())), b"en-US".to_vec());
    assert_eq!(language_from(None), b"en-US".to_vec());
}

#[test]
fn checked_language_setter_validates_before_installing() {
    let mut store = load_empty(no_cli());
    store.write_preferences(|mut w| {
        assert!(w.set_language_checked(b"fr-CA".to_vec()));
        assert!(!w.set_language_checked(b"not a tag!!".to_vec()));
        w
    });
    assert_eq!(store.language(), b"fr-CA".to_vec());
}

#[test]
fn trailing_comments_after_headers_and_values_are_tolerated() {
    let text =
        b"mute = true # persisted by hand\n[log] # logging options\nfilename_pattern = \"with_timestamp\"\n"
            .to_vec();
    let (store, warnings) = GlobalPreferences::load(no_cli(), Some(text), None).expect("load");
    assert_eq!(warnings.len(), 0);
    assert_eq!(store.mute(), true);
    assert_eq!(store.log_filename_pattern(), FilenamePattern::WithTimestamp);
}

#[test]
fn trailing_comment_after_quoted_value_is_tolerated() {
    let text = b"output_device = \"USB # Speakers\" # chosen once\n".to_vec();
    let (store, warnings) = GlobalPreferences::load(no_cli(), Some(text), None).expect("load");
    assert_eq!(warnings.len(), 0);
    assert_eq!(store.output_device_name(), Some(b"USB # Speakers".to_vec()));
}

#[test]
fn clean_device_name_survives_save_and_reload() {
    let mut store = load_empty(no_cli());
    store.write_preferences(|mut w| {
        // The writer only accepts device names that can stand in a
        // document, so a save can never produce unreadable text.
        w.set_output_device(Some(b"Front Speakers".to_vec()));
        w
    });
    let bytes = store.serialize_preferences();
    let (again, warnings) = GlobalPreferences::load(no_cli(), Some(bytes), None).expect("reload");
    assert_eq!(warnings.len(), 0);
    assert_eq!(again.output_device_name(), Some(b"Front Speakers".to_vec()));
}
