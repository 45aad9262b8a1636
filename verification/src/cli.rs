//! The terminal front end: the keys and the actions they trigger, the
//! states of the application, and the command line it is started with.
use vstd::prelude::*;

use crate::languages::rust::BlockType;
use crate::languages::{str_eq, Language};
use crate::text::{
    clone_string, lemma_split_two, replace_char, split_at_char, split_char, split_once_char,
    starts_with, str_replace_char, str_split_once, str_starts_with, string_of, views,
};
use crate::{FileFilterType, Filter};

verus! {

/// A key the user pressed.
#[derive(Debug, Clone, Copy, PartialEq, Eq, Structural)]
pub enum Key {
    /// a character with control held
    Ctrl(char),
    /// a character
    Char(char),
    /// a character with shift held
    Shift(char),
    /// the up arrow
    Up,
    /// the down arrow
    Down,
    /// the left arrow
    Left,
    /// the right arrow
    Right,
    /// the left arrow with shift held
    Shiftleft,
    /// the right arrow with shift held
    Shiftright,
    /// enter
    Enter,
    /// escape
    Esc,
    /// any other key
    Unknown,
}

/// We define all available action
#[derive(Debug, Clone, Copy, PartialEq, Eq, Structural)]
pub enum Action {
    /// leave the application
    Quit,
    /// start typing a command
    TextEdit,
    /// scroll the output up
    ScrollUp,
    /// scroll the output down
    ScrollDown,
    /// go to the previous commit
    BackCommit,
    /// go to the next commit
    ForwardCommit,
    /// go to the previous file
    BackFile,
    /// go to the next file
    ForwardFile,
}

/// All actions, in the order they are looked up.
pub open spec fn all_actions() -> Seq<Action> {
    seq![
        Action::Quit,
        Action::TextEdit,
        Action::ScrollUp,
        Action::ScrollDown,
        Action::BackCommit,
        Action::ForwardCommit,
        Action::BackFile,
        Action::ForwardFile,
    ]
}

/// The keys bound to an action.
pub open spec fn action_keys(a: Action) -> Seq<Key> {
    match a {
        Action::Quit => seq![Key::Ctrl('c'), Key::Char('q')],
        Action::TextEdit => seq![Key::Char(':'), Key::Shift(':')],
        Action::ScrollUp => seq![Key::Up, Key::Char('k')],
        Action::ScrollDown => seq![Key::Down, Key::Char('j')],
        Action::BackCommit => seq![Key::Left, Key::Char('h')],
        Action::ForwardCommit => seq![Key::Right, Key::Char('l')],
        Action::BackFile => seq![Key::Shiftleft, Key::Char('H'), Key::Shift('h')],
        Action::ForwardFile => seq![Key::Shiftright, Key::Char('L'), Key::Shift('l')],
    }
}

/// The name an action is shown with.
pub open spec fn action_name(a: Action) -> Seq<char> {
    match a {
        Action::Quit => "Quit"@,
        Action::TextEdit => "TextEdit"@,
        Action::ScrollUp => "ScrollUp"@,
        Action::ScrollDown => "ScrollDown"@,
        Action::BackCommit => "BackCommit"@,
        Action::ForwardCommit => "ForwardCommit"@,
        Action::BackFile => "BackFile"@,
        Action::ForwardFile => "ForwardFile"@,
    }
}

impl Action {
    /// All available actions
    pub fn iterator() -> (r: Vec<Action>)
        ensures
            r@ == all_actions(),
    {
        let r = vec![
            Action::Quit,
            Action::TextEdit,
            Action::ScrollUp,
            Action::ScrollDown,
            Action::BackCommit,
            Action::ForwardCommit,
            Action::BackFile,
            Action::ForwardFile,
        ];
        assert(r@ =~= all_actions());
        r
    }

    /// List of key associated to action
    pub fn keys(&self) -> (r: Vec<Key>)
        ensures
            r@ == action_keys(*self),
    {
        let r = match self {
            Action::Quit => vec![Key::Ctrl('c'), Key::Char('q')],
            Action::TextEdit => vec![Key::Char(':'), Key::Shift(':')],
            Action::ScrollUp => vec![Key::Up, Key::Char('k')],
            Action::ScrollDown => vec![Key::Down, Key::Char('j')],
            Action::BackCommit => vec![Key::Left, Key::Char('h')],
            Action::ForwardCommit => vec![Key::Right, Key::Char('l')],
            Action::BackFile => vec![Key::Shiftleft, Key::Char('H'), Key::Shift('h')],
            Action::ForwardFile => vec![Key::Shiftright, Key::Char('L'), Key::Shift('l')],
        };
        assert(r@ =~= action_keys(*self));
        r
    }

    /// A short description of the action.
    pub fn to_string(&self) -> (r: String)
        ensures
            r@ == action_name(*self),
    {
        match self {
            Action::Quit => string_of("Quit"),
            Action::TextEdit => string_of("TextEdit"),
            Action::ScrollUp => string_of("ScrollUp"),
            Action::ScrollDown => string_of("ScrollDown"),
            Action::BackCommit => string_of("BackCommit"),
            Action::ForwardCommit => string_of("ForwardCommit"),
            Action::BackFile => string_of("BackFile"),
            Action::ForwardFile => string_of("ForwardFile"),
        }
    }
}

/// Whether no key is bound to two of the actions.
pub open spec fn keys_unique(actions: Seq<Action>) -> bool {
    forall|i: int, j: int, k: Key|
        #![trigger action_keys(actions[i]).contains(k), action_keys(actions[j]).contains(k)]
        0 <= i < actions.len() && 0 <= j < actions.len() && i != j && action_keys(
            actions[i],
        ).contains(k) ==> !action_keys(actions[j]).contains(k)
}

/// The action a key is bound to, if any.
pub open spec fn key_action(k: Key) -> Option<Action> {
    match k {
        Key::Ctrl('c') | Key::Char('q') => Some(Action::Quit),
        Key::Char(':') | Key::Shift(':') => Some(Action::TextEdit),
        Key::Up | Key::Char('k') => Some(Action::ScrollUp),
        Key::Down | Key::Char('j') => Some(Action::ScrollDown),
        Key::Left | Key::Char('h') => Some(Action::BackCommit),
        Key::Right | Key::Char('l') => Some(Action::ForwardCommit),
        Key::Shiftleft | Key::Char('H') | Key::Shift('h') => Some(Action::BackFile),
        Key::Shiftright | Key::Char('L') | Key::Shift('l') => Some(Action::ForwardFile),
        _ => None,
    }
}

/// A key is bound to at most one action.
pub proof fn lemma_key_bound_once(a: Action, k: Key)
    requires
        action_keys(a).contains(k),
    ensures
        key_action(k) == Some(a),
{
    let i = choose|i: int| 0 <= i < action_keys(a).len() && action_keys(a)[i] == k;
    assert(0 <= i < action_keys(a).len() && action_keys(a)[i] == k);
}

/// Actions that are all different have no key in common.
pub proof fn lemma_distinct_actions_keys_unique(actions: Seq<Action>)
    requires
        actions.no_duplicates(),
    ensures
        keys_unique(actions),
{
    assert forall|i: int, j: int, k: Key|
        #![trigger action_keys(actions[i]).contains(k), action_keys(actions[j]).contains(k)]
        0 <= i < actions.len() && 0 <= j < actions.len() && i != j && action_keys(actions[i]).contains(k)
        implies !action_keys(actions[j]).contains(k) by {
        lemma_key_bound_once(actions[i], k);
        if action_keys(actions[j]).contains(k) {
            lemma_key_bound_once(actions[j], k);
        }
    }
}

/// The first action, in lookup order, that is among `actions` and bound to `key`.
pub open spec fn action_for_key_from(actions: Seq<Action>, key: Key, i: int) -> Option<Action>
    decreases all_actions().len() - i,
{
    if i < 0 || i >= all_actions().len() {
        None
    } else if actions.contains(all_actions()[i]) && action_keys(all_actions()[i]).contains(key) {
        Some(all_actions()[i])
    } else {
        action_for_key_from(actions, key, i + 1)
    }
}

/// The contextual actions of the application; no key is bound to two of them.
#[derive(Debug)]
pub struct Actions(Vec<Action>);

impl Actions {
    /// The actions.
    pub closed spec fn view_actions(&self) -> Seq<Action> {
        self.0@
    }

    /// No key is bound to two of the actions.
    pub closed spec fn wf(&self) -> bool {
        keys_unique(self.0@)
    }

    /// Builds the contextual actions; no key may be bound to two of them.
    pub fn from_actions(actions: Vec<Action>) -> (r: Actions)
        requires
            keys_unique(actions@),
        ensures
            r.view_actions() == actions@,
            r.wf(),
    {
        Actions(actions)
    }

    /// Given a key, find the corresponding action
    pub fn find(&self, key: Key) -> (r: Option<Action>)
        ensures
            r == action_for_key_from(self.view_actions(), key, 0),
    {
        let all = Action::iterator();
        let mut i: usize = 0;
        while i < all.len()
            invariant
                i <= all.len(),
                all@ == all_actions(),
                action_for_key_from(self.0@, key, 0) == action_for_key_from(self.0@, key, i as int),
            decreases all.len() - i,
        {
            let a = all[i];
            if contains_action(&self.0, a) && contains_key(&a.keys(), key) {
                return Some(a);
            }
            i += 1;
        }
        None
    }

    /// Get contextual actions.
    /// (just for building a help view)
    pub fn actions(&self) -> (r: &[Action])
        ensures
            r@ == self.view_actions(),
    {
        self.0.as_slice()
    }
}

/// Whether the action is among the actions.
fn contains_action(v: &Vec<Action>, a: Action) -> (r: bool)
    ensures
        r == v@.contains(a),
{
    let mut i: usize = 0;
    while i < v.len()
        invariant
            i <= v.len(),
            forall|j: int| 0 <= j < i ==> v@[j] != a,
        decreases v.len() - i,
    {
        if v[i] == a {
            assert(v@[i as int] == a);
            return true;
        }
        i += 1;
    }
    false
}

/// Whether the key is among the keys.
fn contains_key(v: &Vec<Key>, k: Key) -> (r: bool)
    ensures
        r == v@.contains(k),
{
    let mut i: usize = 0;
    while i < v.len()
        invariant
            i <= v.len(),
            forall|j: int| 0 <= j < i ==> v@[j] != k,
        decreases v.len() - i,
    {
        if v[i] == k {
            assert(v@[i as int] == k);
            return true;
        }
        i += 1;
    }
    false
}

/// What the application should do after an action.
#[derive(Debug, PartialEq, Eq, Structural)]
pub enum AppReturn {
    /// leave the application
    Exit,
    /// keep going
    Continue,
    /// start typing a command
    TextEdit,
}

/// The state the application is in.
#[derive(Debug, Clone, Copy, PartialEq, Eq, Structural)]
pub enum AppState {
    /// waiting for a result
    Loading,
    /// showing a result
    Looking,
    /// typing a command
    Editing,
}

impl AppState {
    /// The state the application starts in.
    pub fn initialized() -> (r: Self)
        ensures
            r == AppState::Looking,
    {
        AppState::Looking
    }
}

/// What can be listed.
#[derive(Debug, Clone, Copy, PartialEq, Eq, Structural)]
pub enum ListType {
    /// the dates of the commits
    Dates,
    /// the hashes of the commits
    Commits,
}

/// Filters over a whole history.
pub enum HistoryFilter {
    /// functions of the commits of a date
    Date(String),
    /// functions of a commit
    CommitId(String),
    /// functions of the commits between two dates
    DateRange(String, String),
    /// functions in a block of a type
    FunctionInBlock(BlockType),
    /// functions within the lines
    FunctionInLines(usize, usize),
    /// functions in a function of the name
    FunctionInFunction(String),
}

/// Filters over one commit or one file.
pub enum CommitOrFileFilter {
    /// functions in a block of a type
    FunctionInBlock(BlockType),
    /// functions within the lines
    FunctionInLines(usize, usize),
    /// functions in a function of the name
    FunctionInFunction(String),
}

// ---------------------------------------------------------------- the command line

/// The file option given on the command line, by its view.
pub enum ArgFile {
    /// none
    NoFilter,
    /// an exact path
    Absolute(Seq<char>),
    /// the end of a path
    Relative(Seq<char>),
}

/// The filter option given on the command line, by its view.
pub enum ArgFilter {
    /// none
    NoFilter,
    /// a date
    Date(Seq<char>),
    /// a commit hash
    CommitHash(Seq<char>),
    /// a range of dates
    DateRange(Seq<char>, Seq<char>),
}

/// What the command line asks for, by its view.
pub struct ConfigSpec {
    /// the name of the function
    pub function_name: Seq<char>,
    /// the filter
    pub filter: ArgFilter,
    /// the files to look in
    pub file_type: ArgFile,
    /// the language
    pub language: Language,
}

/// What the command line asks for.
pub struct Config {
    /// the name of the function, empty when none was given
    pub function_name: String,
    /// the filter of the lookup
    pub filter: Filter,
    /// the files to look in
    pub file_type: FileFilterType,
    /// the language of the files
    pub language: Language,
}

/// Why the command line was refused.
#[derive(Debug, PartialEq, Eq)]
pub enum ArgsError {
    /// `--help` was given: the usage is to be shown
    Usage,
    /// a file option was given with no file after the function name
    NoFileName,
    /// a date range with no end date
    NoEndDate,
    /// a language that is not known
    InvalidLanguage,
    /// an argument that is not known
    UnknownArgument(String),
}

/// Why the command line was refused, by its view.
pub enum ArgsErrorSpec {
    /// `--help`
    Usage,
    /// no file name
    NoFileName,
    /// no end date
    NoEndDate,
    /// unknown language
    InvalidLanguage,
    /// unknown argument
    UnknownArgument(Seq<char>),
}

impl Config {
    /// Whether the configuration is the one the view describes.
    pub open spec fn is(&self, c: ConfigSpec) -> bool {
        &&& self.function_name@ == c.function_name
        &&& self.language == c.language
        &&& match c.filter {
            ArgFilter::NoFilter => self.filter is NoFilter,
            ArgFilter::Date(d) => self.filter matches Filter::Date(x) && x@ == d,
            ArgFilter::CommitHash(h) => self.filter matches Filter::CommitHash(x) && x@ == h,
            ArgFilter::DateRange(a, b) => self.filter matches Filter::DateRange(x, y) && x@ == a && y@ == b,
        }
        &&& match c.file_type {
            ArgFile::NoFilter => self.file_type is NoFilter,
            ArgFile::Absolute(p) => self.file_type matches FileFilterType::Absolute(x) && x@ == p,
            ArgFile::Relative(p) => self.file_type matches FileFilterType::Relative(x) && x@ == p,
        }
    }
}

impl ArgsError {
    /// Whether the error is the one the view describes.
    pub open spec fn is(&self, e: ArgsErrorSpec) -> bool {
        match e {
            ArgsErrorSpec::Usage => *self is Usage,
            ArgsErrorSpec::NoFileName => *self is NoFileName,
            ArgsErrorSpec::NoEndDate => *self is NoEndDate,
            ArgsErrorSpec::InvalidLanguage => *self is InvalidLanguage,
            ArgsErrorSpec::UnknownArgument(a) => *self matches ArgsError::UnknownArgument(x) && x@ == a,
        }
    }
}

/// The configuration before any argument is read.
pub open spec fn initial_config() -> ConfigSpec {
    ConfigSpec { function_name: seq![], filter: ArgFilter::NoFilter, file_type: ArgFile::NoFilter, language: Language::All }
}

/// The text after the first `=` and before the next one.
pub open spec fn option_value(arg: Seq<char>) -> Seq<char> {
    split_at_char(arg, '=')[1]
}

/// What one argument does to the configuration; the first argument after
/// the program is the function name, with the file after a `:`.
pub open spec fn arg_step(c: ConfigSpec, first: bool, arg: Seq<char>) -> Result<ConfigSpec, ArgsErrorSpec> {
    if arg == "--help"@ {
        Err(ArgsErrorSpec::Usage)
    } else if first {
        match split_once_char(arg, ':') {
            Some((name, file)) => Ok(ConfigSpec {
                function_name: name,
                file_type: ArgFile::Relative(replace_char(file, '\\', '/')),
                ..c
            }),
            None => Ok(ConfigSpec { function_name: arg, ..c }),
        }
    } else if arg == "--file-absolute"@ {
        match c.file_type {
            ArgFile::NoFilter => Err(ArgsErrorSpec::NoFileName),
            ArgFile::Relative(p) => Ok(ConfigSpec { file_type: ArgFile::Absolute(p), ..c }),
            _ => Ok(c),
        }
    } else if arg == "--file-relative"@ {
        match c.file_type {
            ArgFile::NoFilter => Err(ArgsErrorSpec::NoFileName),
            ArgFile::Absolute(p) => Ok(ConfigSpec { file_type: ArgFile::Relative(p), ..c }),
            _ => Ok(c),
        }
    } else if starts_with(arg, "--filter-date="@) {
        Ok(ConfigSpec { filter: ArgFilter::Date(option_value(arg)), ..c })
    } else if starts_with(arg, "--filter-commit-hash="@) {
        Ok(ConfigSpec { filter: ArgFilter::CommitHash(option_value(arg)), ..c })
    } else if starts_with(arg, "--filter-date-range="@) || starts_with(arg, "--date-range="@) {
        match split_once_char(option_value(arg), ':') {
            Some((a, b)) => Ok(ConfigSpec { filter: ArgFilter::DateRange(a, b), ..c }),
            None => Err(ArgsErrorSpec::NoEndDate),
        }
    } else if starts_with(arg, "--lang="@) {
        let lang = option_value(arg);
        if lang == "rust"@ {
            Ok(ConfigSpec { language: Language::Rust, ..c })
        } else if lang == "python"@ {
            Ok(ConfigSpec { language: Language::Python, ..c })
        } else if lang == "all"@ {
            Ok(ConfigSpec { language: Language::All, ..c })
        } else {
            Err(ArgsErrorSpec::InvalidLanguage)
        }
    } else {
        Err(ArgsErrorSpec::UnknownArgument(arg))
    }
}

/// The configuration after the arguments before `n` are read (the first,
/// the program, is skipped), or the first error.
pub open spec fn args_config(args: Seq<Seq<char>>, n: int) -> Result<ConfigSpec, ArgsErrorSpec>
    decreases n,
{
    if n <= 1 {
        Ok(initial_config())
    } else {
        match args_config(args, n - 1) {
            Err(e) => Err(e),
            Ok(c) => arg_step(c, n - 1 == 1, args[n - 1]),
        }
    }
}

/// The value of an option that has a `=`.
fn option_value_of(arg: &str, Ghost(k): Ghost<int>) -> (r: String)
    requires
        0 <= k < arg@.len(),
        arg@[k] == '=',
    ensures
        r@ == option_value(arg@),
{
    proof {
        lemma_split_two(seq![], arg@, '=', k);
    }
    let parts = split_char(arg, '=');
    assert(parts@[1]@ == views(parts@)[1]);
    clone_string(&parts[1])
}

/// Reads one argument into the configuration.
fn read_arg(c: Config, first: bool, arg: &str, Ghost(cs): Ghost<ConfigSpec>) -> (r: Result<Config, ArgsError>)
    requires
        c.is(cs),
    ensures
        match arg_step(cs, first, arg@) {
            Ok(n) => r matches Ok(x) && x.is(n),
            Err(e) => r matches Err(x) && x.is(e),
        },
{
    proof {
        reveal_strlit("--filter-date=");
        reveal_strlit("--filter-commit-hash=");
        reveal_strlit("--date-range=");
        reveal_strlit("--filter-date-range=");
        reveal_strlit("--lang=");
    }
    if str_eq(arg, "--help") {
        return Err(ArgsError::Usage);
    }
    let mut c = c;
    if first {
        match str_split_once(arg, ':') {
            Some((name, file)) => {
                c.file_type = FileFilterType::Relative(str_replace_char(file.as_str(), '\\', '/'));
                c.function_name = name;
            },
            None => {
                c.function_name = string_of(arg);
            },
        }
        return Ok(c);
    }
    if str_eq(arg, "--file-absolute") {
        match c.file_type {
            FileFilterType::NoFilter => Err(ArgsError::NoFileName),
            FileFilterType::Relative(p) => Ok(Config { file_type: FileFilterType::Absolute(p), ..c }),
            _ => Ok(c),
        }
    } else if str_eq(arg, "--file-relative") {
        match c.file_type {
            FileFilterType::NoFilter => Err(ArgsError::NoFileName),
            FileFilterType::Absolute(p) => Ok(Config { file_type: FileFilterType::Relative(p), ..c }),
            _ => Ok(c),
        }
    } else if str_starts_with(arg, "--filter-date=") {
        assert(arg@[13] == "--filter-date="@[13]);
        let d = option_value_of(arg, Ghost(13));
        Ok(Config { filter: Filter::Date(d), ..c })
    } else if str_starts_with(arg, "--filter-commit-hash=") {
        assert(arg@[20] == "--filter-commit-hash="@[20]);
        let h = option_value_of(arg, Ghost(20));
        Ok(Config { filter: Filter::CommitHash(h), ..c })
    } else if str_starts_with(arg, "--filter-date-range=") || str_starts_with(arg, "--date-range=") {
        let range = if str_starts_with(arg, "--filter-date-range=") {
            assert(arg@[19] == "--filter-date-range="@[19]);
            option_value_of(arg, Ghost(19))
        } else {
            assert(arg@[12] == "--date-range="@[12]);
            option_value_of(arg, Ghost(12))
        };
        match str_split_once(range.as_str(), ':') {
            Some((a, b)) => Ok(Config { filter: Filter::DateRange(a, b), ..c }),
            None => Err(ArgsError::NoEndDate),
        }
    } else if str_starts_with(arg, "--lang=") {
        assert(arg@[6] == "--lang="@[6]);
        let lang = option_value_of(arg, Ghost(6));
        if str_eq(lang.as_str(), "rust") {
            Ok(Config { language: Language::Rust, ..c })
        } else if str_eq(lang.as_str(), "python") {
            Ok(Config { language: Language::Python, ..c })
        } else if str_eq(lang.as_str(), "all") {
            Ok(Config { language: Language::All, ..c })
        } else {
            Err(ArgsError::InvalidLanguage)
        }
    } else {
        Err(ArgsError::UnknownArgument(string_of(arg)))
    }
}

/// Reads the command line (the first argument is the program): the function
/// name, with the file after a `:`, then the options, in order; the first
/// refused argument ends the reading with its error.
pub fn parse_args(args: &Vec<String>) -> (r: Result<Config, ArgsError>)
    ensures
        match args_config(views(args@), args@.len() as int) {
            Ok(c) => r matches Ok(x) && x.is(c),
            Err(e) => r matches Err(x) && x.is(e),
        },
{
    let mut config = Config {
        function_name: String::new(),
        filter: Filter::NoFilter,
        file_type: FileFilterType::NoFilter,
        language: Language::All,
    };
    let ghost mut cs = initial_config();
    assert(config.is(cs));
    if args.len() <= 1 {
        return Ok(config);
    }
    let mut i: usize = 1;
    while i < args.len()
        invariant
            1 <= i <= args@.len(),
            args_config(views(args@), i as int) == Ok::<ConfigSpec, ArgsErrorSpec>(cs),
            config.is(cs),
        decreases args@.len() - i,
    {
        assert(views(args@)[i as int] == args@[i as int]@);
        match read_arg(config, i == 1, args[i].as_str(), Ghost(cs)) {
            Ok(next) => {
                proof {
                    cs = arg_step(cs, i == 1, args@[i as int]@)->Ok_0;
                }
                config = next;
            },
            Err(e) => {
                proof {
                    assert(args_config(views(args@), i + 1) == arg_step(cs, i == 1, args@[i as int]@));
                    lemma_args_error_stays(views(args@), i + 1, args@.len() as int);
                }
                return Err(e);
            },
        }
        i = i + 1;
    }
    Ok(config)
}

/// Once reading the arguments has failed, it stays failed with that error.
proof fn lemma_args_error_stays(args: Seq<Seq<char>>, m: int, n: int)
    requires
        1 <= m <= n,
        args_config(args, m) is Err,
    ensures
        args_config(args, n) == args_config(args, m),
    decreases n - m,
{
    if n > m {
        lemma_args_error_stays(args, m, n - 1);
    }
}

/// Asking for help first shows the usage, whatever follows it.
pub proof fn law_help_first(args: Seq<Seq<char>>)
    requires
        args.len() >= 2,
        args[1] == "--help"@,
    ensures
        args_config(args, args.len() as int) == Err::<ConfigSpec, ArgsErrorSpec>(ArgsErrorSpec::Usage),
{
    assert(args_config(args, 1) == Ok::<ConfigSpec, ArgsErrorSpec>(initial_config()));
    assert(arg_step(initial_config(), true, args[1]) == Err::<ConfigSpec, ArgsErrorSpec>(ArgsErrorSpec::Usage));
    assert(args_config(args, 2) == Err::<ConfigSpec, ArgsErrorSpec>(ArgsErrorSpec::Usage));
    lemma_args_error_stays(args, 2, args.len() as int);
}

} // verus!
