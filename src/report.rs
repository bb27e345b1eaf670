//! What a status report says, read from the JSON of a status response: the
//! message of the day, the icon, the version, the players and the mods.

use crate::codec::extend_bytes;
use vstd::prelude::*;
use vstd::string::StringExecFns;
use vstd::utf8::encode_utf8;

verus! {

/// A JSON value, as the library reads it.
#[derive(Debug)]
pub enum Json {
    Null,
    Bool(bool),
    /// A number, written as the JSON text gave it.
    Number(String),
    Str(String),
    Array(Vec<Json>),
    /// The members of an object, each key once.
    Object(Vec<(String, Json)>),
}

/// The value under `key` among `fields`, the first one if several.
pub open spec fn field_spec(fields: Seq<(String, Json)>, key: Seq<char>) -> Option<Json>
    decreases fields.len(),
{
    if fields.len() == 0 {
        None
    } else if fields[0].0@ == key {
        Some(fields[0].1)
    } else {
        field_spec(fields.drop_first(), key)
    }
}

/// The value under `key` when `v` is an object that has one.
pub open spec fn at(v: Option<Json>, key: Seq<char>) -> Option<Json> {
    match v {
        Some(Json::Object(fields)) => field_spec(fields@, key),
        _ => None,
    }
}

/// The text of `v` when it is a string.
pub open spec fn text_of(v: Option<Json>) -> Option<Seq<char>> {
    match v {
        Some(Json::Str(s)) => Some(s@),
        _ => None,
    }
}

/// The written form of `v` when it is a number.
pub open spec fn number_of(v: Option<Json>) -> Option<Seq<char>> {
    match v {
        Some(Json::Number(s)) => Some(s@),
        _ => None,
    }
}

/// The items of `v` when it is an array.
pub open spec fn items_of(v: Option<Json>) -> Option<Seq<Json>> {
    match v {
        Some(Json::Array(a)) => Some(a@),
        _ => None,
    }
}

/// The value behind an optional reference.
pub open spec fn deref_opt(v: Option<&Json>) -> Option<Json> {
    match v {
        Some(x) => Some(*x),
        None => None,
    }
}

/// The text of an optional string.
pub open spec fn text_opt(s: Option<String>) -> Option<Seq<char>> {
    match s {
        Some(t) => Some(t@),
        None => None,
    }
}

/// The line a sampled player adds to the list: its name, if it has one.
pub open spec fn player_line(p: Json) -> Seq<char> {
    match text_of(at(Some(p), "name"@)) {
        Some(n) => n + "\n"@,
        None => Seq::empty(),
    }
}

/// The lines of all sampled players, in order.
pub open spec fn player_lines(a: Seq<Json>) -> Seq<char>
    decreases a.len(),
{
    if a.len() == 0 {
        Seq::empty()
    } else {
        player_lines(a.drop_last()) + player_line(a.last())
    }
}

/// The list of players shown: the sampled names, or a note that nobody is
/// online when no sample is given or it is empty.
pub open spec fn player_list_spec(sample: Option<Seq<Json>>) -> Seq<char> {
    match sample {
        Some(a) => if a.len() > 0 {
            player_lines(a)
        } else {
            "No players online."@
        },
        None => "No players online."@,
    }
}

/// The most mods listed one by one; more are summed up in a last line.
pub const MAX_LISTED_MODS: usize = 11;

/// The line a mod adds to the list: its id and version, unless it is the
/// game itself or one of the two is missing.
pub open spec fn mod_line(m: Json, id_key: Seq<char>, version_key: Seq<char>) -> Seq<char> {
    match text_of(at(Some(m), id_key)) {
        Some(id) => if id == "minecraft"@ {
            Seq::empty()
        } else {
            match text_of(at(Some(m), version_key)) {
                Some(v) => id + " - "@ + v + "\n"@,
                None => Seq::empty(),
            }
        },
        None => Seq::empty(),
    }
}

/// The lines of all the mods in `m`, in order.
pub open spec fn mod_lines(m: Seq<Json>, id_key: Seq<char>, version_key: Seq<char>) -> Seq<char>
    decreases m.len(),
{
    if m.len() == 0 {
        Seq::empty()
    } else {
        mod_lines(m.drop_last(), id_key, version_key) + mod_line(m.last(), id_key, version_key)
    }
}

/// The mod list shown: the lines of the first mods, then a note when there
/// are more than that.
pub open spec fn mod_list_spec(m: Seq<Json>, id_key: Seq<char>, version_key: Seq<char>) -> Seq<char> {
    if m.len() > MAX_LISTED_MODS {
        mod_lines(m.subrange(0, MAX_LISTED_MODS as int), id_key, version_key) + "And more..."@
    } else {
        mod_lines(m, id_key, version_key)
    }
}

/// The players online, the most allowed, and who is on.
#[derive(Debug, Clone)]
pub struct PlayerCount {
    pub online: String,
    pub max: String,
    pub list: String,
}

/// What a status report says.
#[derive(Debug, Clone)]
pub struct StatusReport {
    pub motd: Option<String>,
    /// The icon as the response gave it: a data URL of base64 text.
    pub favicon: Option<String>,
    pub version: Option<String>,
    pub players: Option<PlayerCount>,
    /// The mod list in the layout of later mod loaders.
    pub forge_mods: Option<String>,
    /// The mod list in the layout of earlier mod loaders.
    pub legacy_mods: Option<String>,
}

/// The players entry of a report read from `p`: present when both counts
/// are numbers.
pub open spec fn players_match(r: Option<PlayerCount>, p: Option<Json>) -> bool {
    match (number_of(at(p, "online"@)), number_of(at(p, "max"@))) {
        (Some(online), Some(max)) => r matches Some(c) && c.online@ == online && c.max@ == max
            && c.list@ == player_list_spec(items_of(at(p, "sample"@))),
        _ => r is None,
    }
}

/// A mod list entry of a report read from the array under `list_key` of
/// the object under `key`.
pub open spec fn mods_match(r: Option<String>, root: Json, key: Seq<char>, list_key: Seq<char>, id_key: Seq<char>, version_key: Seq<char>) -> bool {
    match items_of(at(at(Some(root), key), list_key)) {
        Some(m) => r matches Some(t) && t@ == mod_list_spec(m, id_key, version_key),
        None => r is None,
    }
}

/// The value under `key` among `fields`.
fn lookup<'a>(fields: &'a Vec<(String, Json)>, key: &str) -> (r: Option<&'a Json>)
    ensures
        deref_opt(r) == field_spec(fields@, key@),
{
    let k: String = key.to_owned();
    let mut i: usize = 0;
    assert(fields@.skip(0) =~= fields@);
    while i < fields.len()
        invariant
            i <= fields@.len(),
            k@ == key@,
            field_spec(fields@, key@) == field_spec(fields@.skip(i as int), key@),
        decreases fields@.len() - i,
    {
        assert(fields@.skip(i as int).drop_first() =~= fields@.skip(i + 1));
        assert(fields@.skip(i as int)[0] == fields@[i as int]);
        if fields[i].0.eq(&k) {
            return Some(&fields[i].1);
        }
        i = i + 1;
    }
    None
}

/// Looks up `key` in `v` when it is an object.
pub fn get<'a>(v: Option<&'a Json>, key: &str) -> (r: Option<&'a Json>)
    ensures
        deref_opt(r) == at(deref_opt(v), key@),
{
    match v {
        Some(Json::Object(fields)) => lookup(fields, key),
        _ => None,
    }
}

/// The text of `v` when it is a string.
pub fn text<'a>(v: Option<&'a Json>) -> (r: Option<&'a String>)
    ensures
        match r {
            Some(s) => text_of(deref_opt(v)) == Some(s@),
            None => text_of(deref_opt(v)) is None,
        },
{
    match v {
        Some(Json::Str(s)) => Some(s),
        _ => None,
    }
}

/// A copy of an optional text.
fn copy_text(s: Option<&String>) -> (r: Option<String>)
    ensures
        match s {
            Some(t) => r matches Some(u) && u@ == t@,
            None => r is None,
        },
{
    match s {
        Some(t) => Some(t.clone()),
        None => None,
    }
}

/// The list of sampled players, one name a line.
pub fn player_list(sample: Option<&Json>) -> (r: String)
    ensures
        r@ == player_list_spec(items_of(deref_opt(sample))),
{
    let items = match sample {
        Some(Json::Array(a)) => a,
        _ => return String::from_str("No players online."),
    };
    if items.len() == 0 {
        return String::from_str("No players online.");
    }
    let mut out = String::new();
    let mut i: usize = 0;
    while i < items.len()
        invariant
            i <= items@.len(),
            out@ == player_lines(items@.subrange(0, i as int)),
        decreases items@.len() - i,
    {
        let ghost before = items@.subrange(0, i as int);
        assert(items@.subrange(0, i + 1).drop_last() =~= before);
        if let Some(name) = text(get(Some(&items[i]), "name")) {
            out.append(name.as_str());
            out.append("\n");
        }
        i = i + 1;
    }
    assert(items@.subrange(0, i as int) =~= items@);
    out
}

/// The mod list of the array `mods`, with each mod's id and version read
/// under `id_key` and `version_key`.
pub fn mod_list(mods: &Vec<Json>, id_key: &str, version_key: &str) -> (r: String)
    ensures
        r@ == mod_list_spec(mods@, id_key@, version_key@),
{
    let game: String = "minecraft".to_owned();
    let mut out = String::new();
    let mut i: usize = 0;
    while i < mods.len()
        invariant
            i <= mods@.len(),
            i <= MAX_LISTED_MODS,
            game@ == "minecraft"@,
            out@ == mod_lines(mods@.subrange(0, i as int), id_key@, version_key@),
        decreases mods@.len() - i,
    {
        if i == MAX_LISTED_MODS {
            out.append("And more...");
            return out;
        }
        assert(mods@.subrange(0, i + 1).drop_last() =~= mods@.subrange(0, i as int));
        let m = Some(&mods[i]);
        if let Some(id) = text(get(m, id_key)) {
            if !id.eq(&game) {
                if let Some(v) = text(get(m, version_key)) {
                    out.append(id.as_str());
                    out.append(" - ");
                    out.append(v.as_str());
                    out.append("\n");
                }
            }
        }
        i = i + 1;
    }
    assert(mods@.subrange(0, i as int) =~= mods@);
    out
}

/// The mod list under `key`, then `list_key`, of `root`, if there is one.
fn mods_of(root: &Json, key: &str, list_key: &str, id_key: &str, version_key: &str) -> (r: Option<String>)
    ensures
        mods_match(r, *root, key@, list_key@, id_key@, version_key@),
{
    match get(get(Some(root), key), list_key) {
        Some(Json::Array(m)) => Some(mod_list(m, id_key, version_key)),
        _ => None,
    }
}

/// Reads what a status response's JSON says; `None` when it is not an
/// object.
pub fn read_report(root: &Json) -> (r: Option<StatusReport>)
    ensures
        root is Object <==> r is Some,
        r matches Some(rep) ==> {
            &&& text_opt(rep.motd) == text_of(at(at(Some(*root), "description"@), "text"@))
            &&& text_opt(rep.favicon) == text_of(at(Some(*root), "favicon"@))
            &&& text_opt(rep.version) == text_of(at(at(Some(*root), "version"@), "name"@))
            &&& players_match(rep.players, at(Some(*root), "players"@))
            &&& mods_match(rep.forge_mods, *root, "forgeData"@, "mods"@, "modId"@, "modmarker"@)
            &&& mods_match(rep.legacy_mods, *root, "modinfo"@, "modList"@, "modid"@, "version"@)
        },
{
    match root {
        Json::Object(_) => {},
        _ => return None,
    }
    let top = Some(root);
    let motd = copy_text(text(get(get(top, "description"), "text")));
    let favicon = copy_text(text(get(top, "favicon")));
    let version = copy_text(text(get(get(top, "version"), "name")));
    let p = get(top, "players");
    let players = match (get(p, "online"), get(p, "max")) {
        (Some(Json::Number(online)), Some(Json::Number(max))) => Some(PlayerCount {
            online: online.clone(),
            max: max.clone(),
            list: player_list(get(p, "sample")),
        }),
        _ => None,
    };
    let forge_mods = mods_of(root, "forgeData", "mods", "modId", "modmarker");
    let legacy_mods = mods_of(root, "modinfo", "modList", "modid", "version");
    Some(StatusReport { motd, favicon, version, players, forge_mods, legacy_mods })
}

/// The length of the data URL header before a favicon's base64 text.
pub const FAVICON_HEADER_LEN: usize = 22;

/// The bytes of `b` without its line feeds.
pub open spec fn without_line_feeds(b: Seq<u8>) -> Seq<u8>
    decreases b.len(),
{
    if b.len() == 0 {
        Seq::empty()
    } else if b.last() == 10 {
        without_line_feeds(b.drop_last())
    } else {
        without_line_feeds(b.drop_last()).push(b.last())
    }
}

/// The base64 text of a favicon: its bytes without line feeds, past the
/// data URL header; `None` when they do not reach past it.
pub open spec fn favicon_text_spec(favicon: Seq<u8>) -> Option<Seq<u8>> {
    let t = without_line_feeds(favicon);
    if t.len() < FAVICON_HEADER_LEN {
        None
    } else {
        Some(t.skip(FAVICON_HEADER_LEN as int))
    }
}

/// The bytes that the base64 text `text` stands for, or `None` when it is
/// not valid base64.
pub uninterp spec fn base64_decoding(text: Seq<u8>) -> Option<Seq<u8>>;

/// Relies on base64::decode (standard alphabet, padded): the bytes a base64
/// text stands for, depending on the text alone, or an error that says why
/// it is not valid.
#[verifier::external_body]
fn decode_base64(text: &[u8]) -> (r: Result<Vec<u8>, String>)
    ensures
        match base64_decoding(text@) {
            Some(b) => r matches Ok(v) && v@ == b,
            None => r is Err,
        },
{
    base64::decode(text).map_err(|e| e.to_string())
}

/// The base64 text of `favicon`, from its bytes.
pub fn favicon_text(favicon: &[u8]) -> (r: Option<Vec<u8>>)
    ensures
        match favicon_text_spec(favicon@) {
            Some(t) => r matches Some(v) && v@ == t,
            None => r is None,
        },
{
    let mut kept: Vec<u8> = Vec::new();
    let mut i: usize = 0;
    while i < favicon.len()
        invariant
            i <= favicon@.len(),
            kept@ == without_line_feeds(favicon@.subrange(0, i as int)),
        decreases favicon@.len() - i,
    {
        assert(favicon@.subrange(0, i + 1).drop_last() =~= favicon@.subrange(0, i as int));
        if favicon[i] != 10 {
            kept.push(favicon[i]);
        }
        i = i + 1;
    }
    assert(favicon@.subrange(0, i as int) =~= favicon@);
    if kept.len() < FAVICON_HEADER_LEN {
        return None;
    }
    let tail: &[u8] = &kept.as_slice()[FAVICON_HEADER_LEN..kept.len()];
    let mut out: Vec<u8> = Vec::new();
    extend_bytes(&mut out, tail);
    assert(out@ =~= kept@.skip(FAVICON_HEADER_LEN as int));
    Some(out)
}

/// The image of a favicon: `None` when it is too short to hold any base64
/// text, else the decoded bytes or why they could not be decoded.
pub fn favicon_image(favicon: &String) -> (r: Option<Result<Vec<u8>, String>>)
    ensures
        match favicon_text_spec(encode_utf8(favicon@)) {
            None => r is None,
            Some(t) => match base64_decoding(t) {
                Some(b) => r matches Some(Ok(v)) && v@ == b,
                None => r matches Some(Err(_)),
            },
        },
{
    match favicon_text(favicon.as_str().as_bytes()) {
        None => None,
        Some(t) => Some(decode_base64(t.as_slice())),
    }
}

} // verus!
