//! The text of the saved files and where they go.
//!
//! A configuration is saved as a flat JSON object of keys and values and as
//! an environment file of `KEY=value` lines, one per item that is required
//! as an environment variable.

use vstd::prelude::*;

use crate::models::{CollectError, Config, ConfigItem, ConfigView, ItemView, refs_view, with_key};
use crate::text::{lowercase_of, same_text, to_lower, to_upper, uppercase_of};

verus! {

/// A key and its value.
pub type Pair = (Seq<char>, Seq<char>);

pub open spec fn pairs_view(v: Seq<(String, String)>) -> Seq<Pair> {
    v.map_values(|p: (String, String)| (p.0@, p.1@))
}

/// The position of the first pair whose key is `k`; `ps.len()` if none.
pub open spec fn position_of_pair(ps: Seq<Pair>, k: Seq<char>) -> int
    decreases ps.len(),
{
    if ps.len() == 0 {
        0
    } else if ps[0].0 == k {
        0
    } else {
        1 + position_of_pair(ps.drop_first(), k)
    }
}

pub proof fn lemma_position_of_pair(ps: Seq<Pair>, k: Seq<char>, i: int)
    requires
        0 <= i <= ps.len(),
        forall|j: int| 0 <= j < i ==> ps[j].0 != k,
        i == ps.len() || ps[i].0 == k,
    ensures
        position_of_pair(ps, k) == i,
    decreases ps.len(),
{
    if ps.len() > 0 && i > 0 {
        assert forall|j: int| 0 <= j < i - 1 implies ps.drop_first()[j].0 != k by {
            assert(ps[j + 1].0 != k);
        }
        lemma_position_of_pair(ps.drop_first(), k, i - 1);
    }
}

/// `ps` with the value of key `k` set to `v`: in place where the key is
/// present, appended where it is not.
pub open spec fn upsert(ps: Seq<Pair>, k: Seq<char>, v: Seq<char>) -> Seq<Pair> {
    let i = position_of_pair(ps, k);
    if i < ps.len() {
        ps.update(i, (k, v))
    } else {
        ps.push((k, v))
    }
}

/// The key that never reaches the JSON file.
pub open spec fn internal_key() -> Seq<char> {
    "is_test"@
}

/// The flat JSON object of a sequence of items: each key lower-cased, in
/// order of first appearance; a later item overrides an earlier one whose
/// key lower-cases the same.
pub open spec fn flat_pairs(s: Seq<ItemView>) -> Seq<Pair>
    decreases s.len(),
{
    if s.len() == 0 {
        Seq::empty()
    } else {
        let r = flat_pairs(s.drop_last());
        if s.last().key == internal_key() {
            r
        } else {
            upsert(r, lowercase_of(s.last().key), s.last().value)
        }
    }
}

/// The map that a sequence of pairs denotes; a later pair overrides an
/// earlier one of the same key.
pub open spec fn pairs_map(ps: Seq<Pair>) -> Map<Seq<char>, Seq<char>>
    decreases ps.len(),
{
    if ps.len() == 0 {
        Map::empty()
    } else {
        pairs_map(ps.drop_last()).insert(ps.last().0, ps.last().1)
    }
}

/// The entries of the environment file: the upper-cased key and the value
/// of each item that is required as an environment variable, in order.
pub open spec fn env_entries(s: Seq<ItemView>) -> Seq<Pair>
    decreases s.len(),
{
    if s.len() == 0 {
        Seq::empty()
    } else {
        let r = env_entries(s.drop_last());
        if s.last().required_as_env {
            r.push((uppercase_of(s.last().key), s.last().value))
        } else {
            r
        }
    }
}

/// The lines `KEY=value`, each ended by a newline.
pub open spec fn env_text(es: Seq<Pair>) -> Seq<char>
    decreases es.len(),
{
    if es.len() == 0 {
        Seq::empty()
    } else {
        env_text(es.drop_last()) + es.last().0 + "="@ + es.last().1 + "\n"@
    }
}

/// Sets the value of `key` in `ps`, in place or at the end.
fn upsert_pair(ps: &mut Vec<(String, String)>, key: &String, value: &String)
    ensures
        pairs_view(final(ps)@) == upsert(pairs_view(old(ps)@), key@, value@),
{
    let ghost start = pairs_view(ps@);
    let mut i: usize = 0;
    while i < ps.len()
        invariant
            0 <= i <= ps@.len(),
            start == pairs_view(ps@),
            forall|j: int| 0 <= j < i ==> start[j].0 != key@,
        ensures
            0 <= i <= ps@.len(),
            start == pairs_view(ps@),
            forall|j: int| 0 <= j < i ==> start[j].0 != key@,
            i == ps@.len() || start[i as int].0 == key@,
        decreases ps@.len() - i,
    {
        if same_text(ps[i].0.as_str(), key.as_str()) {
            break;
        }
        i = i + 1;
    }
    proof {
        lemma_position_of_pair(start, key@, i as int);
    }
    if i < ps.len() {
        ps.set(i, (key.clone(), value.clone()));
        assert(pairs_view(ps@) =~= start.update(i as int, (key@, value@)));
    } else {
        ps.push((key.clone(), value.clone()));
        assert(pairs_view(ps@) =~= start.push((key@, value@)));
    }
}

/// The keys and values that the JSON file holds, each key once.
pub fn json_pairs(config: &Config) -> (r: Vec<(String, String)>)
    ensures
        pairs_view(r@) == flat_pairs(config@.items()),
{
    let items = config.all_items();
    let ghost all = config@.items();
    let mut r: Vec<(String, String)> = Vec::new();
    let mut i: usize = 0;
    while i < items.len()
        invariant
            0 <= i <= items@.len(),
            refs_view(items@) == all,
            pairs_view(r@) == flat_pairs(all.take(i as int)),
        decreases items@.len() - i,
    {
        let item: &ConfigItem = items[i];
        assert(all.take(i + 1).drop_last() =~= all.take(i as int));
        assert(all.take(i + 1).last() == item@);
        if !same_text(item.key.as_str(), "is_test") {
            let key = to_lower(item.key.as_str());
            upsert_pair(&mut r, &key, &item.value);
        }
        i = i + 1;
    }
    assert(all.take(i as int) =~= all);
    r
}

/// The entries of the environment file of a configuration: upper-cased key
/// and value of each item required as an environment variable.
pub fn env_file_entries(config: &Config) -> (r: Vec<(String, String)>)
    ensures
        pairs_view(r@) == env_entries(config@.items()),
{
    let items = config.all_items();
    let ghost all = config@.items();
    let mut r: Vec<(String, String)> = Vec::new();
    let mut i: usize = 0;
    while i < items.len()
        invariant
            0 <= i <= items@.len(),
            refs_view(items@) == all,
            pairs_view(r@) == env_entries(all.take(i as int)),
        decreases items@.len() - i,
    {
        let item: &ConfigItem = items[i];
        assert(all.take(i + 1).drop_last() =~= all.take(i as int));
        assert(all.take(i + 1).last() == item@);
        if item.required_as_env {
            let ghost prev = pairs_view(r@);
            r.push((to_upper(item.key.as_str()), item.value.clone()));
            assert(pairs_view(r@) =~= prev.push((uppercase_of(item@.key), item@.value)));
        }
        i = i + 1;
    }
    assert(all.take(i as int) =~= all);
    r
}

/// Writes entries as `KEY=value` lines.
pub fn env_lines(entries: &Vec<(String, String)>) -> (r: String)
    ensures
        r@ == env_text(pairs_view(entries@)),
{
    let ghost es = pairs_view(entries@);
    let mut r = String::new();
    let mut i: usize = 0;
    while i < entries.len()
        invariant
            0 <= i <= entries@.len(),
            es == pairs_view(entries@),
            r@ == env_text(es.take(i as int)),
        decreases entries@.len() - i,
    {
        let ghost before = r@;
        assert(es.take(i + 1).drop_last() =~= es.take(i as int));
        assert(es.take(i + 1).last() == es[i as int]);
        r.append(entries[i].0.as_str());
        r.append("=");
        r.append(entries[i].1.as_str());
        r.append("\n");
        assert(r@ =~= before + es[i as int].0 + "="@ + es[i as int].1 + "\n"@);
        i = i + 1;
    }
    assert(es.take(i as int) =~= es);
    r
}

/// The text of the environment file.
pub fn env_file_text(config: &Config) -> (r: String)
    ensures
        r@ == env_text(env_entries(config@.items())),
{
    env_lines(&env_file_entries(config))
}

/// What `serde_json::to_string_pretty` writes for the JSON object of string
/// values built from `pairs`.
pub uninterp spec fn json_object_text(pairs: Seq<Pair>) -> Seq<char>;

/// `serde_json::Error`, carried as an opaque value.
#[verifier::external_type_specification]
#[verifier::external_body]
pub struct ExJsonError(serde_json::Error);

/// Relies on `serde_json::to_string_pretty`, applied to a `serde_json::Map`
/// with one string value for each pair: the text depends on the pairs alone,
/// and a map with string keys and string values always serializes.
#[verifier::external_body]
fn pretty_json_object(pairs: &Vec<(String, String)>) -> (r: Result<String, serde_json::Error>)
    ensures
        r is Ok,
        r matches Ok(t) ==> t@ == json_object_text(pairs_view(pairs@)),
{
    let map: serde_json::Map<String, serde_json::Value> = pairs
        .iter()
        .map(|p| (p.0.clone(), serde_json::Value::String(p.1.clone())))
        .collect();
    serde_json::to_string_pretty(&map)
}

/// The text of both saved files.
pub struct SavedText {
    pub json: String,
    pub env: String,
}

/// The text of the JSON file of a configuration.
pub open spec fn json_text(c: ConfigView) -> Seq<char> {
    json_object_text(flat_pairs(c.items()))
}

/// The text of the environment file of a configuration.
pub open spec fn env_file(c: ConfigView) -> Seq<char> {
    env_text(env_entries(c.items()))
}

/// Produces the text of the JSON file and of the environment file.
pub fn render_outputs(config: &Config) -> (r: SavedText)
    ensures
        r.json@ == json_text(config@),
        r.env@ == env_file(config@),
{
    let pairs = json_pairs(config);
    let json = pretty_json_object(&pairs).unwrap();
    SavedText { json, env: env_file_text(config) }
}

/// What `Path::join` gives, as text, for a base path and a further part.
pub uninterp spec fn path_joined(base: Seq<char>, part: Seq<char>) -> Seq<char>;

/// Relies on `std::path::Path::join`: the joined path, as text, depends on
/// the two texts alone.
#[verifier::external_body]
fn join_path(base: &str, part: &str) -> (r: String)
    ensures
        r@ == path_joined(base@, part@),
{
    std::path::Path::new(base).join(part).to_string_lossy().into_owned()
}

/// What `Path::with_extension` gives, as text, for a path and an extension.
pub uninterp spec fn path_with_extension(path: Seq<char>, ext: Seq<char>) -> Seq<char>;

/// Relies on `std::path::Path::with_extension`: the path with its extension
/// set, as text, depends on the two texts alone. It panics on an extension
/// that holds a path separator, so none is admitted.
#[verifier::external_body]
fn set_extension(path: &str, ext: &str) -> (r: String)
    requires
        !ext@.contains('/'),
        !ext@.contains('\\'),
    ensures
        r@ == path_with_extension(path@, ext@),
{
    std::path::Path::new(path).with_extension(ext).to_string_lossy().into_owned()
}

/// The directory under which a configuration's files are kept: the
/// temporary directory in test mode or when there is no home directory, the
/// home directory otherwise.
pub open spec fn rp_dir_of(is_test: bool, home: Option<Seq<char>>, temp: Seq<char>) -> Seq<char> {
    let root = if is_test || home is None {
        temp
    } else {
        home->0
    };
    path_joined(root, ".rpcfg"@)
}

pub fn rp_dir(config: &Config, home: &Option<String>, temp: &str) -> (r: String)
    ensures
        r@ == rp_dir_of(config.is_test, match home { Some(h) => Some(h@), None => None }, temp@),
{
    match home {
        Some(h) if !config.is_test => join_path(h.as_str(), ".rpcfg"),
        _ => join_path(temp, ".rpcfg"),
    }
}

/// The value of the first item whose key is `k`, or `fallback`.
pub open spec fn setting_or(c: ConfigView, k: Seq<char>, fallback: Seq<char>) -> Seq<char> {
    let m = with_key(c.items(), k);
    if m.len() > 0 {
        m[0].value
    } else {
        fallback
    }
}

fn setting_or_else(config: &Config, key: &str, fallback: &str) -> (r: String)
    ensures
        r@ == setting_or(config@, key@, fallback@),
{
    let found = config.get_settings(key);
    if found.len() > 0 {
        assert(refs_view(found@)[0] == found@[0]@);
        found[0].value.clone()
    } else {
        String::from_str(fallback)
    }
}

/// The path, without extension, of a configuration's saved files under
/// `rp_dir`: `<rp_dir>/<project>/<config>-<environment>`, where storage is
/// local; none otherwise.
pub open spec fn output_base(c: ConfigView, rp_dir: Seq<char>) -> Option<Seq<char>> {
    if setting_or(c, "stored"@, "local"@) == "local"@ {
        Some(
            path_joined(
                path_joined(rp_dir, setting_or(c, "project_name"@, "default_project"@)),
                setting_or(c, "config_name"@, "default_config"@) + "-"@ + setting_or(
                    c,
                    "environment"@,
                    "default_env"@,
                ),
            ),
        )
    } else {
        None
    }
}

pub fn base_output_dir(config: &Config, rp_dir: &str) -> (r: Option<String>)
    ensures
        match output_base(config@, rp_dir@) {
            Some(p) => r matches Some(s) && s@ == p,
            None => r is None,
        },
{
    let stored = setting_or_else(config, "stored", "local");
    let project_name = setting_or_else(config, "project_name", "default_project");
    let config_name = setting_or_else(config, "config_name", "default_config");
    let environment = setting_or_else(config, "environment", "default_env");
    if same_text(stored.as_str(), "local") {
        let mut leaf = config_name;
        leaf.append("-");
        leaf.append(environment.as_str());
        let dir = join_path(rp_dir, project_name.as_str());
        Some(join_path(dir.as_str(), leaf.as_str()))
    } else {
        None
    }
}

/// The path of the JSON file, where storage is local.
pub open spec fn json_path_of(c: ConfigView, rp_dir: Seq<char>) -> Option<Seq<char>> {
    match output_base(c, rp_dir) {
        Some(b) => Some(path_with_extension(b, "json"@)),
        None => None,
    }
}

/// The path of the environment file, where storage is local.
pub open spec fn env_path_of(c: ConfigView, rp_dir: Seq<char>) -> Option<Seq<char>> {
    match output_base(c, rp_dir) {
        Some(b) => Some(path_with_extension(b, "env"@)),
        None => None,
    }
}

pub fn json_output_uri(config: &Config, rp_dir: &str) -> (r: Option<String>)
    ensures
        match json_path_of(config@, rp_dir@) {
            Some(p) => r matches Some(s) && s@ == p,
            None => r is None,
        },
{
    proof {
        reveal_strlit("json");
    }
    match base_output_dir(config, rp_dir) {
        Some(b) => Some(set_extension(b.as_str(), "json")),
        None => None,
    }
}

pub fn env_output_uri(config: &Config, rp_dir: &str) -> (r: Option<String>)
    ensures
        match env_path_of(config@, rp_dir@) {
            Some(p) => r matches Some(s) && s@ == p,
            None => r is None,
        },
{
    proof {
        reveal_strlit("env");
    }
    match base_output_dir(config, rp_dir) {
        Some(b) => Some(set_extension(b.as_str(), "env")),
        None => None,
    }
}

/// The environment variables to set: the name and value of each item that
/// is required as an environment variable and names one, in order.
pub open spec fn env_assignments(s: Seq<ItemView>) -> Seq<Pair>
    decreases s.len(),
{
    if s.len() == 0 {
        Seq::empty()
    } else {
        let r = env_assignments(s.drop_last());
        if s.last().required_as_env && s.last().env_name.len() > 0 {
            r.push((s.last().env_name, s.last().value))
        } else {
            r
        }
    }
}

/// The names and values of the environment variables that a collected
/// configuration sets.
pub fn environment_variables(config: &Config) -> (r: Vec<(String, String)>)
    ensures
        pairs_view(r@) == env_assignments(config@.items()),
{
    let items = config.all_items();
    let ghost all = config@.items();
    let mut r: Vec<(String, String)> = Vec::new();
    let mut i: usize = 0;
    while i < items.len()
        invariant
            0 <= i <= items@.len(),
            refs_view(items@) == all,
            pairs_view(r@) == env_assignments(all.take(i as int)),
        decreases items@.len() - i,
    {
        let item: &ConfigItem = items[i];
        assert(all.take(i + 1).drop_last() =~= all.take(i as int));
        assert(all.take(i + 1).last() == item@);
        if item.required_as_env && !item.temp_environment_variable_name.as_str().is_empty() {
            let ghost prev = pairs_view(r@);
            r.push((item.temp_environment_variable_name.clone(), item.value.clone()));
            assert(pairs_view(r@) =~= prev.push((item@.env_name, item@.value)));
        }
        i = i + 1;
    }
    assert(all.take(i as int) =~= all);
    r
}

} // verus!
