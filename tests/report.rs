use mcstatus::report::{favicon_image, favicon_text, get, mod_list, player_list, read_report, Json};

fn s(t: &str) -> Json {
    Json::Str(t.to_string())
}

fn num(t: &str) -> Json {
    Json::Number(t.to_string())
}

fn obj(fields: Vec<(&str, Json)>) -> Json {
    Json::Object(fields.into_iter().map(|(k, v)| (k.to_string(), v)).collect())
}

fn forge_mod(id: &str, version: &str) -> Json {
    obj(vec![("modId", s(id)), ("modmarker", s(version))])
}

#[test]
fn report_reads_all_parts() {
    let root = obj(vec![
        ("description", obj(vec![("text", s("A server"))])),
        ("version", obj(vec![("name", s("1.18.1")), ("protocol", num("757"))])),
        (
            "players",
            obj(vec![
                ("max", num("20")),
                ("online", num("2")),
                ("sample", Json::Array(vec![obj(vec![("name", s("alex"))]), obj(vec![("id", s("x"))]), obj(vec![("name", s("sam"))])])),
            ]),
        ),
        ("favicon", s("data:image/png;base64,aGk=")),
        ("forgeData", obj(vec![("mods", Json::Array(vec![forge_mod("minecraft", "1.18.1"), forge_mod("jei", "9.1")]))])),
    ]);
    let report = read_report(&root).unwrap();
    assert_eq!(report.motd.as_deref(), Some("A server"));
    assert_eq!(report.version.as_deref(), Some("1.18.1"));
    assert_eq!(report.favicon.as_deref(), Some("data:image/png;base64,aGk="));
    let players = report.players.unwrap();
    assert_eq!(players.online, "2");
    assert_eq!(players.max, "20");
    assert_eq!(players.list, "alex\nsam\n");
    assert_eq!(report.forge_mods.as_deref(), Some("jei - 9.1\n"));
    assert_eq!(report.legacy_mods, None);
}

#[test]
fn report_needs_an_object() {
    assert!(read_report(&Json::Array(vec![])).is_none());
    assert!(read_report(&s("x")).is_none());
    let empty = read_report(&obj(vec![])).unwrap();
    assert!(empty.motd.is_none() && empty.players.is_none() && empty.favicon.is_none());
}

#[test]
fn report_plain_text_description_has_no_motd() {
    let root = obj(vec![("description", s("plain"))]);
    assert_eq!(read_report(&root).unwrap().motd, None);
}

#[test]
fn players_need_both_counts() {
    let root = obj(vec![("players", obj(vec![("max", num("20")), ("online", s("2"))]))]);
    assert!(read_report(&root).unwrap().players.is_none());
}

#[test]
fn player_list_defaults() {
    assert_eq!(player_list(None), "No players online.");
    assert_eq!(player_list(Some(&Json::Array(vec![]))), "No players online.");
    assert_eq!(player_list(Some(&s("x"))), "No players online.");
    assert_eq!(player_list(Some(&Json::Array(vec![Json::Null]))), "");
}

#[test]
fn mod_list_stops_after_eleven() {
    let mods: Vec<Json> = (0..13).map(|i| forge_mod(&format!("m{}", i), "1")).collect();
    let mut expected = String::new();
    for i in 0..11 {
        expected.push_str(&format!("m{} - 1\n", i));
    }
    expected.push_str("And more...");
    assert_eq!(mod_list(&mods, "modId", "modmarker"), expected);
    let eleven: Vec<Json> = (0..11).map(|i| forge_mod(&format!("m{}", i), "1")).collect();
    assert!(!mod_list(&eleven, "modId", "modmarker").contains("And more"));
}

#[test]
fn legacy_mod_list() {
    let root = obj(vec![(
        "modinfo",
        obj(vec![("modList", Json::Array(vec![obj(vec![("modid", s("ic2")), ("version", s("2.8"))]), obj(vec![("modid", s("bare"))])]))]),
    )]);
    assert_eq!(read_report(&root).unwrap().legacy_mods.as_deref(), Some("ic2 - 2.8\n"));
}

#[test]
fn lookup_takes_first_key() {
    let root = Json::Object(vec![("a".to_string(), num("1")), ("a".to_string(), num("2"))]);
    assert!(matches!(get(Some(&root), "a"), Some(Json::Number(n)) if n == "1"));
    assert!(get(Some(&root), "b").is_none());
    assert!(get(Some(&num("1")), "a").is_none());
}

#[test]
fn favicon_decodes_past_header() {
    assert_eq!(favicon_image(&"data:image/png;base64,aGVs\nbG8=".to_string()), Some(Ok(b"hello".to_vec())));
    assert_eq!(favicon_image(&"data:image/png;base64,".to_string()), Some(Ok(vec![])));
    assert_eq!(favicon_image(&"short".to_string()), None);
    assert!(matches!(favicon_image(&"data:image/png;base64,!!!!".to_string()), Some(Err(_))));
}

#[test]
fn favicon_text_strips_line_feeds() {
    assert_eq!(favicon_text(b"data:image/png;\nbase64,QQ\n=="), Some(b"QQ==".to_vec()));
    assert_eq!(favicon_text(b"\n\n"), None);
}
