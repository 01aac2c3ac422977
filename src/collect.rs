//! The interactive edit session.
//!
//! A session alternates prompts and answers. `Session::prompt` gives the text
//! to show before the next line is read, and `Session::handle` takes that
//! line and says whether to go on, save, or quit. Whoever runs the session
//! reads the lines and writes the text; `collect_user_input` runs it over
//! lines that are all known in advance.

use std::io::Write;
use vstd::prelude::*;

use crate::models::{
    CollectError, Config, ConfigItem, ConfigView, ItemView, effective_value, fill_defaults,
    filled, initialized, refs_view, validated,
};
use crate::models::{CommandResult, CommandResultView, Status};
use crate::persist::{
    SavedText, env_file, env_output_uri, env_path_of, json_output_uri, json_path_of, json_text,
    render_outputs,
};
use crate::text::{
    decimal, decimal_text, lowercase_of, parse_index, parsed_index, same_text, to_lower,
    trim_text, trimmed,
};

verus! {

/// What the session waits for.
#[derive(PartialEq, Eq, Structural, Clone, Copy, Debug)]
pub enum Phase {
    /// An item number or a command letter.
    Command,
    /// The new value of the item at this position (from 0, reserved items first).
    NewValue(usize),
    /// The next answer about a new setting.
    NewSetting,
}

/// What the caller does after a line has been handled.
#[derive(PartialEq, Eq, Structural, Clone, Copy, Debug)]
pub enum Action {
    /// Show the next prompt and read another line.
    Continue,
    /// Save the configuration and stop.
    Save,
    /// Stop without saving.
    Quit,
}

/// The state of an edit session.
pub struct Session {
    pub config: Config,
    pub phase: Phase,
    /// The answers given so far about a new setting: key, description,
    /// default, environment variable name.
    pub answers: Vec<String>,
    /// Whether a setting has been added, so that the input file is saved too.
    pub new_setting_added: bool,
}

pub struct SessionView {
    pub config: ConfigView,
    pub phase: Phase,
    pub answers: Seq<Seq<char>>,
    pub new_setting_added: bool,
}

impl View for Session {
    type V = SessionView;

    open spec fn view(&self) -> SessionView {
        SessionView {
            config: self.config@,
            phase: self.phase,
            answers: self.answers@.map_values(|a: String| a@),
            new_setting_added: self.new_setting_added,
        }
    }
}

impl SessionView {
    /// A value is asked only for an item that exists, and a new setting
    /// takes four answers before the last question.
    pub open spec fn wf(self) -> bool {
        &&& self.phase matches Phase::NewValue(i) ==> i < self.config.items().len()
        &&& self.phase == Phase::NewSetting ==> self.answers.len() <= 4
    }
}

/// The reply to one line: what to do next and the text to show.
pub struct Reply {
    pub action: Action,
    pub text: String,
}

pub open spec fn command_prompt() -> Seq<char> {
    "\nEnter item number to update, 'S' to save, 'N' to add a new setting, or 'Q' to quit: "@
}

pub open spec fn invalid_number_message() -> Seq<char> {
    "Invalid item number. Please try again.\n"@
}

pub open spec fn invalid_input_message() -> Seq<char> {
    "Invalid input. Please try again.\n"@
}

pub open spec fn setting_added_message() -> Seq<char> {
    "New setting added successfully.\n"@
}

/// The line shown once the configuration has been saved.
pub const SAVED_MESSAGE: &'static str = "Configuration saved.\n";

/// The rows of the item table before alignment: a header, a rule, and one
/// row per item with its number (from 1), description and effective value.
pub open spec fn table_source(s: Seq<ItemView>) -> Seq<char>
    decreases s.len(),
{
    if s.len() == 0 {
        "Index\tDescription\tValue\n-----\t-----------\t-----\n"@
    } else {
        table_source(s.drop_last()) + table_row(s.len(), s.last())
    }
}

pub open spec fn table_row(n: nat, it: ItemView) -> Seq<char> {
    decimal(n) + "\t"@ + it.description + "\t"@ + effective_value(it) + "\n"@
}

/// What a `tabwriter::TabWriter` with its default settings writes for a
/// text of tab-separated cells.
pub uninterp spec fn tab_aligned(s: Seq<char>) -> Seq<char>;

/// Relies on `tabwriter::TabWriter` (`new`, `write_all`, `into_inner`): the
/// cells of each line padded into columns, the result depending on the text
/// alone. Writing into a `Vec` never fails, and the writer only adds spaces
/// to UTF-8 text, so a text always comes back.
#[verifier::external_body]
fn align_columns(text: &str) -> (r: Option<String>)
    ensures
        r is Some,
        r matches Some(t) ==> t@ == tab_aligned(text@),
{
    let mut tw = tabwriter::TabWriter::new(Vec::new());
    if tw.write_all(text.as_bytes()).is_err() {
        return None;
    }
    let bytes = tw.into_inner().ok()?;
    String::from_utf8(bytes).ok()
}

/// The table of a configuration as it is shown.
pub open spec fn display_text(c: ConfigView) -> Seq<char> {
    (if c.is_test {
        "(Test mode)\n"@
    } else {
        Seq::empty()
    }) + "\n"@ + tab_aligned(table_source(c.items())) + "\n"@
}

/// The text that shows the configuration's items as an aligned table.
pub fn show_current_config(config: &Config) -> (r: String)
    ensures
        r@ == display_text(config@),
{
    let items = config.all_items();
    let ghost all = config@.items();
    let mut source = String::from_str("Index\tDescription\tValue\n-----\t-----------\t-----\n");
    let mut i: usize = 0;
    while i < items.len()
        invariant
            0 <= i <= items@.len(),
            refs_view(items@) == all,
            source@ == table_source(all.take(i as int)),
        decreases items@.len() - i,
    {
        let item: &ConfigItem = items[i];
        assert(all.take(i + 1).drop_last() =~= all.take(i as int));
        assert(all.take(i + 1).last() == item@);
        let ghost before = source@;
        let number = decimal_text(i + 1);
        source.append(number.as_str());
        source.append("\t");
        source.append(item.description.as_str());
        source.append("\t");
        if item.value.as_str().is_empty() {
            source.append(item.default.as_str());
        } else {
            source.append(item.value.as_str());
        }
        source.append("\n");
        assert(source@ =~= before + table_row((i + 1) as nat, item@));
        i = i + 1;
    }
    assert(all.take(i as int) =~= all);
    let table = align_columns(source.as_str()).unwrap();
    framed_table(config.is_test, table.as_str())
}

/// The aligned table with the lines around it: a test-mode notice where it
/// applies, and an empty line before and after.
pub fn framed_table(is_test: bool, table: &str) -> (r: String)
    ensures
        r@ == (if is_test {
            "(Test mode)\n"@
        } else {
            Seq::empty()
        }) + "\n"@ + table@ + "\n"@,
{
    let mut r = if is_test {
        String::from_str("(Test mode)\n")
    } else {
        String::new()
    };
    r.append("\n");
    r.append(table);
    r.append("\n");
    r
}

/// The configuration with the value of the item at `i` (from 0, reserved
/// items first) set to `v`.
pub open spec fn with_item_value(c: ConfigView, i: int, v: Seq<char>) -> ConfigView {
    if i < c.rpcfg.len() {
        ConfigView { rpcfg: c.rpcfg.update(i, ItemView { value: v, ..c.rpcfg[i] }), ..c }
    } else {
        let j = i - c.rpcfg.len();
        ConfigView { app: c.app.update(j, ItemView { value: v, ..c.app[j] }), ..c }
    }
}

/// The item that the questions about a new setting describe; its value is
/// its default.
pub open spec fn new_item(
    key: Seq<char>,
    description: Seq<char>,
    default: Seq<char>,
    env_name: Seq<char>,
    required_as_env: bool,
) -> ItemView {
    ItemView {
        key,
        description,
        shellscript: Seq::empty(),
        default,
        env_name,
        required_as_env,
        value: default,
    }
}

/// Replaces every empty value of both item sequences by its default.
pub fn initialize_config_values(config: &mut Config)
    ensures
        final(config)@ == initialized(old(config)@),
        forall|i: int|
            0 <= i < old(config)@.items().len() && (#[trigger] old(config)@.items()[i]).value.len()
                == 0 ==> final(config)@.items()[i].value == old(config)@.items()[i].default,
{
    fill_defaults(&mut config.rpcfg);
    fill_defaults(&mut config.app);
    proof {
        let o = old(config)@;
        let f = config@;
        assert forall|i: int|
            0 <= i < o.items().len() && (#[trigger] o.items()[i]).value.len() == 0 implies f.items()[i].value
            == o.items()[i].default by {
            if i < o.rpcfg.len() {
                assert(f.items()[i] == filled(o.rpcfg[i]));
            } else {
                assert(f.items()[i] == filled(o.app[i - o.rpcfg.len()]));
            }
        }
    }
}

fn set_item_value(config: &mut Config, index: usize, value: String)
    requires
        index < old(config)@.items().len(),
    ensures
        final(config)@ == with_item_value(old(config)@, index as int, value@),
{
    let nr = config.rpcfg.len();
    if index < nr {
        let item = config.rpcfg[index].with_value(value);
        config.rpcfg.set(index, item);
        assert(config@.rpcfg =~= with_item_value(old(config)@, index as int, value@).rpcfg);
    } else {
        let item = config.app[index - nr].with_value(value);
        config.app.set(index - nr, item);
        assert(config@.app =~= with_item_value(old(config)@, index as int, value@).app);
    }
}

/// Sets the item at `index` (from 0, reserved items first) to `line` with
/// surrounding whitespace removed; an empty result clears the value, which
/// then shows as the default.
pub fn update_item(config: &mut Config, index: usize, line: &str) -> (r: Result<(), CollectError>)
    ensures
        index < old(config)@.items().len() ==> r is Ok && final(config)@ == with_item_value(
            old(config)@,
            index as int,
            trimmed(line@),
        ),
        index >= old(config)@.items().len() ==> r == Err::<(), CollectError>(
            CollectError::ItemNotFound,
        ) && final(config)@ == old(config)@,
{
    if index < config.rpcfg.len() || index - config.rpcfg.len() < config.app.len() {
        set_item_value(config, index, trim_text(line));
        Ok(())
    } else {
        Err(CollectError::ItemNotFound)
    }
}

/// Appends a new item, whose value is its default, to the application's
/// items.
pub fn add_new_setting(
    config: &mut Config,
    key: String,
    description: String,
    default: String,
    temp_environment_variable_name: String,
    required_as_env: bool,
)
    ensures
        final(config)@ == (ConfigView {
            app: old(config)@.app.push(
                new_item(
                    key@,
                    description@,
                    default@,
                    temp_environment_variable_name@,
                    required_as_env,
                ),
            ),
            ..old(config)@
        }),
{
    let value = default.clone();
    config.app.push(
        ConfigItem {
            key,
            description,
            shellscript: String::new(),
            default,
            temp_environment_variable_name,
            required_as_env,
            value,
        },
    );
    assert(config@.app =~= old(config)@.app.push(
        new_item(key@, description@, default@, temp_environment_variable_name@, required_as_env),
    ));
}

/// Whether the lower-cased answer to a yes/no question means yes.
pub fn is_yes(lowered: &str) -> (r: bool)
    ensures
        r == (lowered@ == "y"@),
{
    same_text(lowered, "y")
}

/// The question about a new setting that follows `n` answers.
pub open spec fn setting_question(n: nat) -> Seq<char> {
    if n == 0 {
        "Adding a new setting:\nEnter key: "@
    } else if n == 1 {
        "Enter description: "@
    } else if n == 2 {
        "Enter default value: "@
    } else if n == 3 {
        "Enter environment variable name (or leave empty): "@
    } else {
        "Is this required as an environment variable? (y/n): "@
    }
}

/// The session after its prompt: in the command phase the configuration is
/// validated before it is shown.
pub open spec fn prompted(s: SessionView) -> SessionView {
    if s.phase == Phase::Command {
        SessionView { config: validated(s.config), ..s }
    } else {
        s
    }
}

/// The text of the prompt that the session shows next.
pub open spec fn prompt_text(s: SessionView) -> Seq<char> {
    match s.phase {
        Phase::Command => display_text(validated(s.config)) + command_prompt(),
        Phase::NewValue(i) => "Enter new value for "@ + s.config.items()[i as int].description
            + " (current: "@ + s.config.items()[i as int].value + "): "@,
        Phase::NewSetting => setting_question(s.answers.len()),
    }
}

/// The effect of one line, with surrounding whitespace removed.
pub struct Step {
    pub session: SessionView,
    pub action: Action,
    pub text: Seq<char>,
}

pub open spec fn continue_with(s: SessionView, text: Seq<char>) -> Step {
    Step { session: s, action: Action::Continue, text }
}

/// What the session does with the line `t`.
pub open spec fn next(s: SessionView, t: Seq<char>) -> Step {
    match s.phase {
        Phase::Command => {
            if t == "s"@ || t == "S"@ {
                Step { session: s, action: Action::Save, text: Seq::empty() }
            } else if t == "q"@ || t == "Q"@ {
                Step { session: s, action: Action::Quit, text: Seq::empty() }
            } else if t == "n"@ || t == "N"@ {
                continue_with(
                    SessionView { phase: Phase::NewSetting, answers: Seq::empty(), ..s },
                    Seq::empty(),
                )
            } else {
                match parsed_index(t) {
                    Some(n) => if 1 <= n <= s.config.items().len() {
                        continue_with(
                            SessionView { phase: Phase::NewValue((n - 1) as usize), ..s },
                            Seq::empty(),
                        )
                    } else {
                        continue_with(s, invalid_number_message())
                    },
                    None => continue_with(s, invalid_input_message()),
                }
            }
        },
        Phase::NewValue(i) => continue_with(
            SessionView {
                config: with_item_value(s.config, i as int, t),
                phase: Phase::Command,
                ..s
            },
            Seq::empty(),
        ),
        Phase::NewSetting => if s.answers.len() < 4 {
            continue_with(SessionView { answers: s.answers.push(t), ..s }, Seq::empty())
        } else {
            continue_with(
                SessionView {
                    config: ConfigView {
                        app: s.config.app.push(
                            new_item(
                                s.answers[0],
                                s.answers[1],
                                s.answers[2],
                                s.answers[3],
                                lowercase_of(t) == "y"@,
                            ),
                        ),
                        ..s.config
                    },
                    phase: Phase::Command,
                    answers: Seq::empty(),
                    new_setting_added: true,
                },
                setting_added_message(),
            )
        },
    }
}

impl Session {
    /// A session on `config`, whose empty values take their defaults.
    pub fn new(config: Config) -> (r: Session)
        ensures
            r@ == (SessionView {
                config: initialized(config@),
                phase: Phase::Command,
                answers: Seq::empty(),
                new_setting_added: false,
            }),
            r@.wf(),
    {
        let mut config = config;
        initialize_config_values(&mut config);
        let r = Session { config, phase: Phase::Command, answers: Vec::new(), new_setting_added: false };
        assert(r@.answers =~= Seq::<Seq<char>>::empty());
        r
    }

    /// The text to show before the next line is read. In the command phase
    /// the configuration is validated first.
    pub fn prompt(&mut self) -> (r: String)
        requires
            old(self)@.wf(),
        ensures
            final(self)@ == prompted(old(self)@),
            final(self)@.wf(),
            r@ == prompt_text(old(self)@),
    {
        match self.phase {
            Phase::Command => {
                self.config.validate_rpcfg_config();
                let mut t = show_current_config(&self.config);
                t.append(
                    "\nEnter item number to update, 'S' to save, 'N' to add a new setting, or 'Q' to quit: ",
                );
                t
            },
            Phase::NewValue(i) => {
                let items = self.config.all_items();
                let item: &ConfigItem = items[i];
                let mut t = String::from_str("Enter new value for ");
                t.append(item.description.as_str());
                t.append(" (current: ");
                t.append(item.value.as_str());
                t.append("): ");
                t
            },
            Phase::NewSetting => {
                let n = self.answers.len();
                let t = if n == 0 {
                    "Adding a new setting:\nEnter key: "
                } else if n == 1 {
                    "Enter description: "
                } else if n == 2 {
                    "Enter default value: "
                } else if n == 3 {
                    "Enter environment variable name (or leave empty): "
                } else {
                    "Is this required as an environment variable? (y/n): "
                };
                String::from_str(t)
            },
        }
    }

    /// Handles a line with surrounding whitespace already removed.
    pub fn handle_trimmed(&mut self, t: &str) -> (r: Reply)
        requires
            old(self)@.wf(),
        ensures
            final(self)@ == next(old(self)@, t@).session,
            final(self)@.wf(),
            r.action == next(old(self)@, t@).action,
            r.text@ == next(old(self)@, t@).text,
    {
        let ghost s = self@;
        match self.phase {
            Phase::Command => {
                if same_text(t, "s") || same_text(t, "S") {
                    Reply { action: Action::Save, text: String::new() }
                } else if same_text(t, "q") || same_text(t, "Q") {
                    Reply { action: Action::Quit, text: String::new() }
                } else if same_text(t, "n") || same_text(t, "N") {
                    self.phase = Phase::NewSetting;
                    self.answers = Vec::new();
                    assert(self@.answers =~= Seq::<Seq<char>>::empty());
                    Reply { action: Action::Continue, text: String::new() }
                } else {
                    match parse_index(t) {
                        Some(n) => {
                            let total = self.config.all_items().len();
                            if n >= 1 && n <= total {
                                self.phase = Phase::NewValue(n - 1);
                                Reply { action: Action::Continue, text: String::new() }
                            } else {
                                Reply {
                                    action: Action::Continue,
                                    text: String::from_str("Invalid item number. Please try again.\n"),
                                }
                            }
                        },
                        None => Reply {
                            action: Action::Continue,
                            text: String::from_str("Invalid input. Please try again.\n"),
                        },
                    }
                }
            },
            Phase::NewValue(i) => {
                set_item_value(&mut self.config, i, String::from_str(t));
                self.phase = Phase::Command;
                Reply { action: Action::Continue, text: String::new() }
            },
            Phase::NewSetting => {
                if self.answers.len() < 4 {
                    self.answers.push(String::from_str(t));
                    assert(self@.answers =~= s.answers.push(t@));
                    Reply { action: Action::Continue, text: String::new() }
                } else {
                    let lowered = to_lower(t);
                    let required = is_yes(lowered.as_str());
                    let env_name = self.answers.pop().unwrap();
                    let default = self.answers.pop().unwrap();
                    let description = self.answers.pop().unwrap();
                    let key = self.answers.pop().unwrap();
                    add_new_setting(&mut self.config, key, description, default, env_name, required);
                    self.answers = Vec::new();
                    self.phase = Phase::Command;
                    self.new_setting_added = true;
                    assert(self@.answers =~= Seq::<Seq<char>>::empty());
                    Reply {
                        action: Action::Continue,
                        text: String::from_str("New setting added successfully.\n"),
                    }
                }
            },
        }
    }

    /// Handles one line of input.
    pub fn handle(&mut self, line: &str) -> (r: Reply)
        requires
            old(self)@.wf(),
        ensures
            final(self)@ == next(old(self)@, trimmed(line@)).session,
            final(self)@.wf(),
            r.action == next(old(self)@, trimmed(line@)).action,
            r.text@ == next(old(self)@, trimmed(line@)).text,
    {
        let t = trim_text(line);
        self.handle_trimmed(t.as_str())
    }
}

/// The text of each line of the input.
pub open spec fn lines_view(v: Seq<String>) -> Seq<Seq<char>> {
    v.map_values(|l: String| l@)
}

/// A session run over known lines: where it ended, the action that ended
/// it (none if the lines ran out first), and all the text it showed.
pub struct RunView {
    pub session: SessionView,
    pub action: Option<Action>,
    pub output: Seq<char>,
}

/// Runs a session over `lines`: prompt, read a line, act, until a line
/// saves or quits or the lines run out.
pub open spec fn run(s: SessionView, lines: Seq<Seq<char>>) -> RunView
    decreases lines.len(),
{
    let p = prompt_text(s);
    if lines.len() == 0 {
        RunView { session: prompted(s), action: None, output: p }
    } else {
        let st = next(prompted(s), trimmed(lines[0]));
        if st.action == Action::Continue {
            let rest = run(st.session, lines.drop_first());
            RunView { output: p + st.text + rest.output, ..rest }
        } else {
            RunView { session: st.session, action: Some(st.action), output: p + st.text }
        }
    }
}

/// The session that starts on a configuration.
pub open spec fn start(c: ConfigView) -> SessionView {
    SessionView {
        config: initialized(c),
        phase: Phase::Command,
        answers: Seq::empty(),
        new_setting_added: false,
    }
}

/// What a finished collection hands back: the result to report, the text
/// of both output files when the configuration is to be saved, and whether
/// the input file is to be saved too.
pub struct Collected {
    pub result: CommandResult,
    pub saved: Option<SavedText>,
    pub save_input: bool,
}

pub open spec fn collected_result(c: ConfigView, rp_dir: Seq<char>) -> CommandResultView {
    CommandResultView {
        status: Status::Succeeded,
        message: "Configuration collected successfully."@,
        env_file: env_path_of(c, rp_dir),
        json_file: json_path_of(c, rp_dir),
    }
}

/// The outcome of `collect_user_input` on a configuration `c0`, the lines
/// `lines` and the text `out0` written before: `c1` and `out1` are the
/// configuration and the text after it.
pub open spec fn collected_as_run(
    c0: ConfigView,
    rp_dir: Seq<char>,
    lines: Seq<Seq<char>>,
    out0: Seq<char>,
    c1: ConfigView,
    out1: Seq<char>,
    r: Result<Collected, CollectError>,
) -> bool {
    let rv = run(start(c0), lines);
    match r {
        Ok(done) => {
            &&& rv.action matches Some(a) && a != Action::Continue
            &&& c1 == rv.session.config
            &&& done.result@ == collected_result(c1, rp_dir)
            &&& (rv.action == Some(Action::Save)) == (done.saved is Some)
            &&& done.saved matches Some(t) ==> t.json@ == json_text(c1) && t.env@ == env_file(c1)
                && out1 == out0 + rv.output + SAVED_MESSAGE@
            &&& rv.action == Some(Action::Quit) ==> out1 == out0 + rv.output
            &&& done.save_input == (rv.action == Some(Action::Save)
                && rv.session.new_setting_added)
        },
        Err(e) => {
            &&& e == CollectError::EndOfInput
            &&& rv.action is None
            &&& c1 == rv.session.config
            &&& out1 == out0 + rv.output
        },
    }
}

/// Runs an edit session on `config` over the lines of `input`, appending
/// every prompt and message to `output`. Saving produces the text of both
/// output files under `rp_dir`; writing them is left to the caller.
pub fn collect_user_input(
    config: &mut Config,
    rp_dir: &str,
    input: &Vec<String>,
    output: &mut String,
) -> (r: Result<Collected, CollectError>)
    ensures
        collected_as_run(
            old(config)@,
            rp_dir@,
            lines_view(input@),
            old(output)@,
            final(config)@,
            final(output)@,
            r,
        ),
{
    let mut held = Config {
        rpcfg: Vec::new(),
        app: Vec::new(),
        is_test: false,
        input_file: String::new(),
    };
    std::mem::swap(config, &mut held);
    let mut session = Session::new(held);
    let ghost lines = lines_view(input@);
    let ghost whole = run(session@, lines);
    let ghost out0 = output@;
    let mut i: usize = 0;
    assert(lines.subrange(0, lines.len() as int) =~= lines);
    assert(session@ == start(old(config)@));
    assert(output@ =~= out0 + Seq::<char>::empty());
    assert(whole.output =~= Seq::<char>::empty() + run(session@, lines).output);
    loop
        invariant
            0 <= i <= input@.len(),
            lines == lines_view(input@),
            session@.wf(),
            whole == run(start(old(config)@), lines),
            run(session@, lines.subrange(i as int, lines.len() as int)).action == whole.action,
            run(session@, lines.subrange(i as int, lines.len() as int)).session == whole.session,
            out0 == old(output)@,
            exists|acc: Seq<char>|
                output@ == out0 + acc && whole.output == acc + run(
                    session@,
                    lines.subrange(i as int, lines.len() as int),
                ).output,
        decreases input@.len() - i,
    {
        let ghost rest = lines.subrange(i as int, lines.len() as int);
        let ghost s = session@;
        let ghost acc = choose|acc: Seq<char>|
            output@ == out0 + acc && whole.output == acc + run(s, rest).output;
        let p = session.prompt();
        output.append(p.as_str());
        if i == input.len() {
            assert(rest.len() == 0);
            std::mem::swap(config, &mut session.config);
            assert(output@ =~= out0 + whole.output);
            return Err(CollectError::EndOfInput);
        }
        assert(rest[0] == input@[i as int]@);
        assert(rest.drop_first() =~= lines.subrange(i + 1, lines.len() as int));
        let reply = session.handle(input[i].as_str());
        output.append(reply.text.as_str());
        if reply.action != Action::Continue {
            std::mem::swap(config, &mut session.config);
            assert(output@ =~= out0 + whole.output);
            if reply.action == Action::Save {
                let saved = render_outputs(config);
                output.append(SAVED_MESSAGE);
                let result = finished_result(config, rp_dir);
                return Ok(Collected { result, saved: Some(saved), save_input: session.new_setting_added });
            } else {
                let result = finished_result(config, rp_dir);
                return Ok(Collected { result, saved: None, save_input: false });
            }
        }
        assert(output@ =~= out0 + (acc + p@ + reply.text@));
        assert(whole.output =~= (acc + p@ + reply.text@) + run(
            session@,
            lines.subrange(i + 1, lines.len() as int),
        ).output);
        i = i + 1;
    }
}

pub open spec fn must_collect(ignore_timestamps: bool, stamps: Option<(u128, u128)>) -> bool {
    ignore_timestamps || match stamps {
        Some((input_modified, output_modified)) => output_modified < input_modified,
        None => true,
    }
}

/// Whether the input file must be collected again: always when timestamps
/// are ignored or no output file exists yet (`stamps` is `None`), otherwise
/// only when the output file is older than the input file. `stamps` holds
/// the modification times of the input file and of the output file.
pub fn needs_collection(ignore_timestamps: bool, stamps: Option<(u128, u128)>) -> (r: bool)
    ensures
        r == must_collect(ignore_timestamps, stamps),
{
    if ignore_timestamps {
        return true;
    }
    match stamps {
        Some((input_modified, output_modified)) => output_modified < input_modified,
        None => true,
    }
}

pub open spec fn up_to_date_result(c: ConfigView, rp_dir: Seq<char>) -> CommandResultView {
    CommandResultView {
        status: Status::Succeeded,
        message: "Configuration is up to date."@,
        env_file: env_path_of(c, rp_dir),
        json_file: json_path_of(c, rp_dir),
    }
}

/// The result of a session that has ended by saving or quitting.
pub fn finished_result(config: &Config, rp_dir: &str) -> (r: CommandResult)
    ensures
        r@ == collected_result(config@, rp_dir@),
{
    CommandResult {
        status: Status::Succeeded,
        message: String::from_str("Configuration collected successfully."),
        env_file: env_output_uri(config, rp_dir),
        json_file: json_output_uri(config, rp_dir),
    }
}

/// Decides what the collect command does before any session: fails where
/// the configuration has no local storage, reports it up to date where its
/// output is newer than its input (see `needs_collection`), and otherwise
/// (`Ok(None)`) asks for a session.
pub fn plan_collection(
    config: &Config,
    rp_dir: &str,
    ignore_timestamps: bool,
    stamps: Option<(u128, u128)>,
) -> (r: Result<Option<CommandResult>, CollectError>)
    ensures
        json_path_of(config@, rp_dir@) is None ==> (r matches Err(e) && e == CollectError::NoOutputPath),
        json_path_of(config@, rp_dir@) is Some && !must_collect(ignore_timestamps, stamps) ==> (
        r matches Ok(Some(res)) && res@ == up_to_date_result(config@, rp_dir@)),
        json_path_of(config@, rp_dir@) is Some && must_collect(ignore_timestamps, stamps) ==> (
        r matches Ok(None)),
{
    let json_path = match json_output_uri(config, rp_dir) {
        Some(p) => p,
        None => return Err(CollectError::NoOutputPath),
    };
    if needs_collection(ignore_timestamps, stamps) {
        return Ok(None);
    }
    Ok(
        Some(
            CommandResult {
                status: Status::Succeeded,
                message: String::from_str("Configuration is up to date."),
                env_file: env_output_uri(config, rp_dir),
                json_file: Some(json_path),
            },
        ),
    )
}

/// The collect command: where the configuration has local storage and its
/// output is not newer than its input (see `needs_collection`), runs an edit
/// session over `input`; reports that it is up to date otherwise.
pub fn execute(
    config: &mut Config,
    rp_dir: &str,
    ignore_timestamps: bool,
    stamps: Option<(u128, u128)>,
    input: &Vec<String>,
    output: &mut String,
) -> (r: Result<Collected, CollectError>)
    ensures
        json_path_of(old(config)@, rp_dir@) is None ==> r == Err::<Collected, CollectError>(
            CollectError::NoOutputPath,
        ) && final(config)@ == old(config)@ && final(output)@ == old(output)@,
        json_path_of(old(config)@, rp_dir@) is Some && !must_collect(ignore_timestamps, stamps)
            ==> final(config)@ == old(config)@ && final(output)@ == old(output)@ && (r matches Ok(
            done) && done.result@ == up_to_date_result(old(config)@, rp_dir@) && done.saved is None
            && !done.save_input),
        json_path_of(old(config)@, rp_dir@) is Some && must_collect(ignore_timestamps, stamps) ==> collected_as_run(
            old(config)@,
            rp_dir@,
            lines_view(input@),
            old(output)@,
            final(config)@,
            final(output)@,
            r,
        ),
{
    match plan_collection(config, rp_dir, ignore_timestamps, stamps) {
        Err(e) => Err(e),
        Ok(Some(result)) => Ok(Collected { result, saved: None, save_input: false }),
        Ok(None) => collect_user_input(config, rp_dir, input, output),
    }
}

} // verus!
