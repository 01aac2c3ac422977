//! Configuration items and the configuration that holds them.

use vstd::prelude::*;

use crate::text::same_text;

verus! {

/// Why a command could not be carried out.
#[derive(PartialEq, Eq, Structural, Clone, Copy, Debug)]
pub enum CollectError {
    /// The stored setting names no local storage, so there is no output path.
    NoOutputPath,
    /// An item number beyond the last item.
    ItemNotFound,
    /// The input ended before the session was saved or quit.
    EndOfInput,
}

/// Whether a command succeeded.
#[derive(PartialEq, Eq, Structural, Clone, Copy, Debug)]
pub enum Status {
    Succeeded,
    Failed,
}

/// What a command reports: its status, a message, and the files it names.
pub struct CommandResult {
    pub status: Status,
    pub message: String,
    pub env_file: Option<String>,
    pub json_file: Option<String>,
}

pub open spec fn opt_view(o: Option<String>) -> Option<Seq<char>> {
    match o {
        Some(s) => Some(s@),
        None => None,
    }
}

pub struct CommandResultView {
    pub status: Status,
    pub message: Seq<char>,
    pub env_file: Option<Seq<char>>,
    pub json_file: Option<Seq<char>>,
}

impl View for CommandResult {
    type V = CommandResultView;

    open spec fn view(&self) -> CommandResultView {
        CommandResultView {
            status: self.status,
            message: self.message@,
            env_file: opt_view(self.env_file),
            json_file: opt_view(self.json_file),
        }
    }
}

/// One named setting.
pub struct ConfigItem {
    pub key: String,
    pub description: String,
    pub shellscript: String,
    pub default: String,
    pub temp_environment_variable_name: String,
    pub required_as_env: bool,
    /// The value collected from the user; never stored in the input file.
    pub value: String,
}

/// The mathematical value of a [`ConfigItem`].
pub struct ItemView {
    pub key: Seq<char>,
    pub description: Seq<char>,
    pub shellscript: Seq<char>,
    pub default: Seq<char>,
    pub env_name: Seq<char>,
    pub required_as_env: bool,
    pub value: Seq<char>,
}

impl View for ConfigItem {
    type V = ItemView;

    open spec fn view(&self) -> ItemView {
        ItemView {
            key: self.key@,
            description: self.description@,
            shellscript: self.shellscript@,
            default: self.default@,
            env_name: self.temp_environment_variable_name@,
            required_as_env: self.required_as_env,
            value: self.value@,
        }
    }
}

/// A configuration: the reserved items, the application's items, whether it
/// runs in test mode, and the file it was read from (empty if none).
pub struct Config {
    pub rpcfg: Vec<ConfigItem>,
    pub app: Vec<ConfigItem>,
    pub is_test: bool,
    pub input_file: String,
}

/// The mathematical value of a [`Config`].
pub struct ConfigView {
    pub rpcfg: Seq<ItemView>,
    pub app: Seq<ItemView>,
    pub is_test: bool,
    pub input_file: Seq<char>,
}

pub open spec fn items_view(v: Seq<ConfigItem>) -> Seq<ItemView> {
    v.map_values(|it: ConfigItem| it@)
}

impl View for Config {
    type V = ConfigView;

    open spec fn view(&self) -> ConfigView {
        ConfigView {
            rpcfg: items_view(self.rpcfg@),
            app: items_view(self.app@),
            is_test: self.is_test,
            input_file: self.input_file@,
        }
    }
}

impl ConfigView {
    /// Both sequences in display order: reserved items first.
    pub open spec fn items(self) -> Seq<ItemView> {
        self.rpcfg + self.app
    }
}

/// The value shown and used for an item: its value, or its default when the
/// value is empty.
pub open spec fn effective_value(it: ItemView) -> Seq<char> {
    if it.value.len() == 0 {
        it.default
    } else {
        it.value
    }
}

/// The item with an empty value replaced by its default.
pub open spec fn filled(it: ItemView) -> ItemView {
    ItemView { value: effective_value(it), ..it }
}

pub open spec fn filled_all(s: Seq<ItemView>) -> Seq<ItemView> {
    s.map_values(|it: ItemView| filled(it))
}

/// The items of `s` whose key is `k`, in order.
pub open spec fn with_key(s: Seq<ItemView>, k: Seq<char>) -> Seq<ItemView>
    decreases s.len(),
{
    if s.len() == 0 {
        Seq::empty()
    } else {
        let rest = with_key(s.drop_last(), k);
        if s.last().key == k {
            rest.push(s.last())
        } else {
            rest
        }
    }
}

/// The position of the first item of `s` whose key is `k`; `s.len()` if none.
pub open spec fn position_of_key(s: Seq<ItemView>, k: Seq<char>) -> int
    decreases s.len(),
{
    if s.len() == 0 {
        0
    } else if s[0].key == k {
        0
    } else {
        1 + position_of_key(s.drop_first(), k)
    }
}

pub proof fn lemma_position_of_key(s: Seq<ItemView>, k: Seq<char>, i: int)
    requires
        0 <= i <= s.len(),
        forall|j: int| 0 <= j < i ==> s[j].key != k,
        i == s.len() || s[i].key == k,
    ensures
        position_of_key(s, k) == i,
    decreases s.len(),
{
    if s.len() > 0 && i > 0 {
        assert forall|j: int| 0 <= j < i - 1 implies s.drop_first()[j].key != k by {
            assert(s[j + 1].key != k);
        }
        lemma_position_of_key(s.drop_first(), k, i - 1);
    }
}

pub open spec fn stored_key() -> Seq<char> {
    "stored"@
}

pub open spec fn is_storage_kind(v: Seq<char>) -> bool {
    v == "local"@ || v == "keyvault"@
}

/// The reserved item that records where the configuration is kept.
pub open spec fn stored_item() -> ItemView {
    ItemView {
        key: "stored"@,
        description: "Storage type for configuration"@,
        shellscript: Seq::empty(),
        default: "local"@,
        env_name: Seq::empty(),
        required_as_env: false,
        value: "local"@,
    }
}

/// The reserved items after validation: empty values take their default, and
/// the first "stored" item holds a storage kind, "local" in place of any
/// other value; a "stored" item is appended where there is none.
pub open spec fn validated_reserved(r: Seq<ItemView>) -> Seq<ItemView> {
    let f = filled_all(r);
    let i = position_of_key(f, stored_key());
    if i < f.len() {
        if is_storage_kind(f[i].value) {
            f
        } else {
            f.update(i, ItemView { value: "local"@, ..f[i] })
        }
    } else {
        f.push(stored_item())
    }
}

pub open spec fn validated(c: ConfigView) -> ConfigView {
    ConfigView { rpcfg: validated_reserved(c.rpcfg), ..c }
}

/// Every empty value of both sequences replaced by its default.
pub open spec fn initialized(c: ConfigView) -> ConfigView {
    ConfigView { rpcfg: filled_all(c.rpcfg), app: filled_all(c.app), ..c }
}

pub open spec fn literal_item(key: Seq<char>, description: Seq<char>, default: Seq<char>, value: Seq<char>) -> ItemView {
    ItemView {
        key,
        description,
        shellscript: Seq::empty(),
        default,
        env_name: Seq::empty(),
        required_as_env: false,
        value,
    }
}

/// The configuration that a new input file starts from.
pub open spec fn default_config() -> ConfigView {
    ConfigView {
        rpcfg: seq![
            stored_item(),
            literal_item("config_version"@, "Version of the configuration"@, "1.0"@, "1.0"@),
            literal_item("project_name"@, "Name of the project"@, "rpcfg"@, "default_project_name"@),
            literal_item("config_name"@, "Name of the configuration"@, "rpcfg_config"@, "default_config_name"@),
            literal_item("environment"@, "Environment for the configuration"@, "development"@, "default_env"@),
        ],
        app: Seq::empty(),
        is_test: false,
        input_file: Seq::empty(),
    }
}

impl ConfigItem {
    /// A copy of the item with the value replaced.
    pub fn with_value(&self, value: String) -> (r: ConfigItem)
        ensures
            r@ == (ItemView { value: value@, ..self@ }),
    {
        ConfigItem {
            key: self.key.clone(),
            description: self.description.clone(),
            shellscript: self.shellscript.clone(),
            default: self.default.clone(),
            temp_environment_variable_name: self.temp_environment_variable_name.clone(),
            required_as_env: self.required_as_env,
            value,
        }
    }

    /// A reserved item with no shell script and no environment variable.
    pub fn literal(key: &str, description: &str, default: &str, value: &str) -> (r: ConfigItem)
        ensures
            r@ == literal_item(key@, description@, default@, value@),
    {
        ConfigItem {
            key: String::from_str(key),
            description: String::from_str(description),
            shellscript: String::new(),
            default: String::from_str(default),
            temp_environment_variable_name: String::new(),
            required_as_env: false,
            value: String::from_str(value),
        }
    }
}

/// Replaces every empty value of `v` by its default.
pub fn fill_defaults(v: &mut Vec<ConfigItem>)
    ensures
        items_view(final(v)@) == filled_all(items_view(old(v)@)),
{
    let ghost start = items_view(v@);
    let mut i: usize = 0;
    while i < v.len()
        invariant
            0 <= i <= v.len(),
            v@.len() == start.len(),
            start == items_view(old(v)@),
            forall|j: int| 0 <= j < i ==> (#[trigger] v@[j])@ == filled(start[j]),
            forall|j: int| i <= j < v@.len() ==> (#[trigger] v@[j])@ == start[j],
        decreases v.len() - i,
    {
        if v[i].value.as_str().is_empty() {
            let item = v[i].with_value(v[i].default.clone());
            v.set(i, item);
        }
        i = i + 1;
    }
    assert(items_view(v@) =~= filled_all(start));
}

/// The values of a sequence of item references.
pub open spec fn refs_view(v: Seq<&ConfigItem>) -> Seq<ItemView> {
    v.map_values(|it: &ConfigItem| it@)
}

impl Config {
    /// References to all items in display order: reserved items first.
    pub fn all_items(&self) -> (r: Vec<&ConfigItem>)
        ensures
            refs_view(r@) == self@.items(),
    {
        let mut r: Vec<&ConfigItem> = Vec::new();
        let mut i: usize = 0;
        while i < self.rpcfg.len()
            invariant
                0 <= i <= self.rpcfg@.len(),
                refs_view(r@) == self@.rpcfg.take(i as int),
            decreases self.rpcfg@.len() - i,
        {
            let item = &self.rpcfg[i];
            let ghost prev = r@;
            r.push(item);
            assert(self@.rpcfg[i as int] == item@);
            assert(refs_view(r@) =~= refs_view(prev).push(item@));
            assert(refs_view(r@) =~= self@.rpcfg.take(i + 1));
            i = i + 1;
        }
        let mut j: usize = 0;
        while j < self.app.len()
            invariant
                0 <= j <= self.app@.len(),
                refs_view(r@) == self@.rpcfg + self@.app.take(j as int),
            decreases self.app@.len() - j,
        {
            let item = &self.app[j];
            let ghost prev = r@;
            r.push(item);
            assert(self@.app[j as int] == item@);
            assert(refs_view(r@) =~= refs_view(prev).push(item@));
            assert(refs_view(r@) =~= self@.rpcfg + self@.app.take(j + 1));
            j = j + 1;
        }
        assert(self@.rpcfg + self@.app.take(j as int) =~= self@.items());
        r
    }

    /// All items whose key is `key`, reserved ones first.
    pub fn get_settings(&self, key: &str) -> (r: Vec<&ConfigItem>)
        ensures
            r@.map_values(|it: &ConfigItem| it@) == with_key(self@.items(), key@),
    {
        let mut r: Vec<&ConfigItem> = Vec::new();
        let ghost rs = self@.rpcfg;
        let ghost aps = self@.app;
        let mut i: usize = 0;
        while i < self.rpcfg.len()
            invariant
                0 <= i <= rs.len(),
                rs == self@.rpcfg,
                r@.map_values(|it: &ConfigItem| it@) == with_key(rs.take(i as int), key@),
            decreases rs.len() - i,
        {
            let item: &ConfigItem = &self.rpcfg[i];
            assert(rs.take(i + 1).drop_last() =~= rs.take(i as int));
            if same_text(item.key.as_str(), key) {
                r.push(item);
                assert(r@.map_values(|it: &ConfigItem| it@) =~= with_key(rs.take(i as int), key@).push(item@));
            }
            i = i + 1;
        }
        assert(rs.take(i as int) =~= rs + aps.take(0));
        let mut j: usize = 0;
        while j < self.app.len()
            invariant
                0 <= j <= aps.len(),
                rs == self@.rpcfg,
                aps == self@.app,
                r@.map_values(|it: &ConfigItem| it@) == with_key(rs + aps.take(j as int), key@),
            decreases aps.len() - j,
        {
            let item: &ConfigItem = &self.app[j];
            assert((rs + aps.take(j + 1)).drop_last() =~= rs + aps.take(j as int));
            assert((rs + aps.take(j + 1)).last() == item@);
            if same_text(item.key.as_str(), key) {
                r.push(item);
                assert(r@.map_values(|it: &ConfigItem| it@) =~= with_key(rs + aps.take(j as int), key@).push(item@));
            }
            j = j + 1;
        }
        assert(rs + aps.take(j as int) =~= self@.items());
        r
    }

    /// Fills empty reserved values with their defaults and makes sure that a
    /// "stored" item exists and names a storage kind.
    pub fn validate_rpcfg_config(&mut self)
        ensures
            final(self)@ == validated(old(self)@),
    {
        fill_defaults(&mut self.rpcfg);
        let ghost f = items_view(self.rpcfg@);
        let mut i: usize = 0;
        while i < self.rpcfg.len()
            invariant
                0 <= i <= f.len(),
                f == items_view(self.rpcfg@),
                forall|j: int| 0 <= j < i ==> f[j].key != stored_key(),
            ensures
                0 <= i <= f.len(),
                forall|j: int| 0 <= j < i ==> f[j].key != stored_key(),
                i == f.len() || f[i as int].key == stored_key(),
            decreases f.len() - i,
        {
            if same_text(self.rpcfg[i].key.as_str(), "stored") {
                break;
            }
            i = i + 1;
        }
        proof {
            lemma_position_of_key(f, stored_key(), i as int);
        }
        if i < self.rpcfg.len() {
            let v = self.rpcfg[i].value.as_str();
            if !same_text(v, "local") && !same_text(v, "keyvault") {
                let item = self.rpcfg[i].with_value(String::from_str("local"));
                self.rpcfg.set(i, item);
                assert(items_view(self.rpcfg@) =~= f.update(i as int, ItemView { value: "local"@, ..f[i as int] }));
            }
        } else {
            self.rpcfg.push(ConfigItem {
                key: String::from_str("stored"),
                description: String::from_str("Storage type for configuration"),
                shellscript: String::new(),
                default: String::from_str("local"),
                temp_environment_variable_name: String::new(),
                required_as_env: false,
                value: String::from_str("local"),
            });
            assert(items_view(self.rpcfg@) =~= f.push(stored_item()));
        }
    }
}

impl Default for Config {
    fn default() -> (r: Config)
        ensures
            r@ == default_config(),
    {
        let r = Config {
            rpcfg: vec![
                ConfigItem::literal("stored", "Storage type for configuration", "local", "local"),
                ConfigItem::literal("config_version", "Version of the configuration", "1.0", "1.0"),
                ConfigItem::literal("project_name", "Name of the project", "rpcfg", "default_project_name"),
                ConfigItem::literal("config_name", "Name of the configuration", "rpcfg_config", "default_config_name"),
                ConfigItem::literal("environment", "Environment for the configuration", "development", "default_env"),
            ],
            app: Vec::new(),
            is_test: false,
            input_file: String::new(),
        };
        assert(r@.rpcfg =~= default_config().rpcfg);
        assert(r@.app =~= default_config().app);
        r
    }
}

} // verus!
