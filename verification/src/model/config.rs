//! The settings of the browser, and how command-line options change them.

use crate::text::{
    find_char, parse_bool, parse_i32, parsed_bool, parsed_i32, position_of, str_eq, to_chars,
};
use vstd::prelude::*;

verus! {

/// How the browser behaves.
#[derive(Clone, Debug)]
pub struct Behavior {
    /// The shell command run on the selected file; `%s` stands for its path.
    pub file_action: String,
    /// The name of the order in which a directory's entries are shown.
    pub path_node_sort: String,
    /// The name of the scrolling mode.
    pub scrolling: String,
}

/// The colors of the listing, as hexadecimal RGB.
#[derive(Clone, Debug)]
pub struct Color {
    pub background: String,
    pub foreground: String,
}

/// How a row is laid out.
#[derive(Clone, Copy, Debug)]
pub struct Composition {
    /// The width of one level of indent, in characters.
    pub indent: i32,
    /// Whether each level of indent starts with a guide character.
    pub show_indent: bool,
    /// Whether glyphs outside ASCII may be used.
    pub use_utf8: bool,
}

/// Settings for inspecting the pager.
#[derive(Clone, Copy, Debug)]
pub struct Debug {
    pub enabled: bool,
    pub padding_bot: i32,
    pub padding_top: i32,
    pub spacing_bot: i32,
    pub spacing_top: i32,
}

/// Where the browser starts.
#[derive(Clone, Debug)]
pub struct Setup {
    pub working_dir: String,
}

/// All settings.
#[derive(Clone, Debug)]
pub struct Config {
    pub behavior: Behavior,
    pub color: Color,
    pub composition: Composition,
    pub debug: Debug,
    pub setup: Setup,
}

impl Default for Behavior {
    fn default() -> (r: Self)
        ensures
            r.file_action@ == "true"@,
            r.path_node_sort@ == "dirs_top_simple"@,
            r.scrolling@ == "center"@,
    {
        Behavior {
            file_action: String::from_str("true"),
            path_node_sort: String::from_str("dirs_top_simple"),
            scrolling: String::from_str("center"),
        }
    }
}

impl Default for Color {
    fn default() -> (r: Self)
        ensures
            r.background@ == "000000"@,
            r.foreground@ == "FFFFFF"@,
    {
        Color { background: String::from_str("000000"), foreground: String::from_str("FFFFFF") }
    }
}

impl Default for Composition {
    fn default() -> (r: Self)
        ensures
            r == (Composition { indent: 2, show_indent: false, use_utf8: true }),
    {
        Composition { indent: 2, show_indent: false, use_utf8: true }
    }
}

impl Default for Debug {
    fn default() -> (r: Self)
        ensures
            r == (Debug {
                enabled: false,
                padding_bot: 3,
                padding_top: 3,
                spacing_bot: 0,
                spacing_top: 0,
            }),
    {
        Debug { enabled: false, padding_bot: 3, padding_top: 3, spacing_bot: 0, spacing_top: 0 }
    }
}

impl Default for Setup {
    fn default() -> (r: Self)
        ensures
            r.working_dir@ == "."@,
    {
        Setup { working_dir: String::from_str(".") }
    }
}

impl Default for Config {
    fn default() -> (r: Self)
        ensures
            r@ == Config::default_settings(),
    {
        Config {
            behavior: Behavior::default(),
            color: Color::default(),
            composition: Composition::default(),
            debug: Debug::default(),
            setup: Setup::default(),
        }
    }
}

/// The settings as a mathematical value.
pub ghost struct Settings {
    pub file_action: Seq<char>,
    pub path_node_sort: Seq<char>,
    pub scrolling: Seq<char>,
    pub background: Seq<char>,
    pub foreground: Seq<char>,
    pub composition: Composition,
    pub debug: Debug,
    pub working_dir: Seq<char>,
}

impl View for Config {
    type V = Settings;

    open spec fn view(&self) -> Settings {
        Settings {
            file_action: self.behavior.file_action@,
            path_node_sort: self.behavior.path_node_sort@,
            scrolling: self.behavior.scrolling@,
            background: self.color.background@,
            foreground: self.color.foreground@,
            composition: self.composition,
            debug: self.debug,
            working_dir: self.setup.working_dir@,
        }
    }
}

/// Why the command line was not taken.
#[derive(Clone, Debug)]
pub enum ArgError {
    /// The option is not known.
    UnknownOption(String),
    /// The value of the option, given second, is not of the option's type.
    NotParsable(String, String),
    /// The help text was asked for.
    Help,
}

/// An error of the command line as a mathematical value.
pub ghost enum ArgFault {
    UnknownOption(Seq<char>),
    NotParsable(Seq<char>, Seq<char>),
    Help,
}

impl View for ArgError {
    type V = ArgFault;

    open spec fn view(&self) -> ArgFault {
        match self {
            ArgError::UnknownOption(key) => ArgFault::UnknownOption(key@),
            ArgError::NotParsable(key, value) => ArgFault::NotParsable(key@, value@),
            ArgError::Help => ArgFault::Help,
        }
    }
}

/// What one argument does to the settings.
pub ghost enum ArgStep {
    /// The settings are changed.
    Change(Settings),
    /// No further argument is an option.
    Stop,
    /// The command line is refused.
    Fail(ArgFault),
}

/// The name of the option that an argument gives: what stands in front of
/// the first `=`.
pub open spec fn arg_key(arg: Seq<char>) -> Seq<char> {
    arg.take(position_of(arg, '=', 0))
}

/// The value that an argument gives: what stands between the first `=` and
/// the second; empty where there is no `=`.
pub open spec fn arg_value(arg: Seq<char>) -> Seq<char> {
    let first = position_of(arg, '=', 0);
    if first >= arg.len() {
        Seq::empty()
    } else {
        arg.subrange(first + 1, position_of(arg, '=', first + 1))
    }
}

/// The step for an option of a number.
pub open spec fn number_step(
    key: Seq<char>,
    value: Seq<char>,
    set: spec_fn(i32) -> Settings,
) -> ArgStep {
    match parsed_i32(value) {
        Some(n) => ArgStep::Change(set(n)),
        None => ArgStep::Fail(ArgFault::NotParsable(key, value)),
    }
}

/// The step for an option of a truth value.
pub open spec fn flag_step(
    key: Seq<char>,
    value: Seq<char>,
    set: spec_fn(bool) -> Settings,
) -> ArgStep {
    match parsed_bool(value) {
        Some(b) => ArgStep::Change(set(b)),
        None => ArgStep::Fail(ArgFault::NotParsable(key, value)),
    }
}

/// What the argument `arg` does to the settings `c`.
pub open spec fn arg_step(c: Settings, arg: Seq<char>) -> ArgStep {
    let key = arg_key(arg);
    let value = arg_value(arg);
    if key == "--behavior.file_action"@ {
        ArgStep::Change(Settings { file_action: value, ..c })
    } else if key == "--behavior.path_node_sort"@ {
        ArgStep::Change(Settings { path_node_sort: value, ..c })
    } else if key == "--behavior.scrolling"@ {
        ArgStep::Change(Settings { scrolling: value, ..c })
    } else if key == "--color.background"@ {
        ArgStep::Change(Settings { background: value, ..c })
    } else if key == "--color.foreground"@ {
        ArgStep::Change(Settings { foreground: value, ..c })
    } else if key == "--composition.indent"@ {
        number_step(
            key,
            value,
            |n: i32| Settings { composition: Composition { indent: n, ..c.composition }, ..c },
        )
    } else if key == "--composition.show_indent"@ {
        flag_step(
            key,
            value,
            |b: bool| Settings { composition: Composition { show_indent: b, ..c.composition }, ..c },
        )
    } else if key == "--composition.use_utf8"@ {
        flag_step(
            key,
            value,
            |b: bool| Settings { composition: Composition { use_utf8: b, ..c.composition }, ..c },
        )
    } else if key == "--debug.enabled"@ {
        flag_step(key, value, |b: bool| Settings { debug: Debug { enabled: b, ..c.debug }, ..c })
    } else if key == "--debug.padding_bot"@ {
        number_step(
            key,
            value,
            |n: i32| Settings { debug: Debug { padding_bot: n, ..c.debug }, ..c },
        )
    } else if key == "--debug.padding_top"@ {
        number_step(
            key,
            value,
            |n: i32| Settings { debug: Debug { padding_top: n, ..c.debug }, ..c },
        )
    } else if key == "--debug.spacing_bot"@ {
        number_step(
            key,
            value,
            |n: i32| Settings { debug: Debug { spacing_bot: n, ..c.debug }, ..c },
        )
    } else if key == "--debug.spacing_top"@ {
        number_step(
            key,
            value,
            |n: i32| Settings { debug: Debug { spacing_top: n, ..c.debug }, ..c },
        )
    } else if key == "--setup.working_dir"@ {
        ArgStep::Change(Settings { working_dir: value, ..c })
    } else if key == "--help"@ {
        ArgStep::Fail(ArgFault::Help)
    } else if key == "--"@ {
        ArgStep::Stop
    } else {
        ArgStep::Fail(ArgFault::UnknownOption(key))
    }
}

/// What the arguments do to the settings `c`, taken from the left: each
/// option changes one setting, `--` ends the options, and the first
/// argument that is refused refuses the command line.
pub open spec fn args_result(c: Settings, args: Seq<Seq<char>>) -> Result<Settings, ArgFault>
    decreases args.len(),
{
    if args.len() == 0 {
        Ok(c)
    } else {
        match arg_step(c, args[0]) {
            ArgStep::Change(next) => args_result(next, args.drop_first()),
            ArgStep::Stop => Ok(c),
            ArgStep::Fail(fault) => Err(fault),
        }
    }
}

/// The arguments as mathematical values.
pub open spec fn args_view(args: Seq<String>) -> Seq<Seq<char>> {
    args.map_values(|arg: String| arg@)
}

/// What the outcome of reading the command line stands for.
pub open spec fn outcome_view(r: Result<Config, ArgError>) -> Result<Settings, ArgFault> {
    match r {
        Ok(config) => Ok(config@),
        Err(e) => Err(e@),
    }
}

impl Config {
    /// The default of every setting.
    pub open spec fn default_settings() -> Settings {
        Settings {
            file_action: "true"@,
            path_node_sort: "dirs_top_simple"@,
            scrolling: "center"@,
            background: "000000"@,
            foreground: "FFFFFF"@,
            composition: Composition { indent: 2, show_indent: false, use_utf8: true },
            debug: Debug {
                enabled: false,
                padding_bot: 3,
                padding_top: 3,
                spacing_bot: 0,
                spacing_top: 0,
            },
            working_dir: "."@,
        }
    }

    /// The settings to run with: those of the configuration file where one
    /// was read, else the defaults, changed by the arguments of the command
    /// line.
    pub fn new(from_file: Option<Config>, args: Vec<String>) -> (r: Result<Config, ArgError>)
        ensures
            outcome_view(r) == args_result(
                match from_file {
                    Some(config) => config@,
                    None => Self::default_settings(),
                },
                args_view(args@),
            ),
    {
        let config = match from_file {
            Some(config) => config,
            None => Config::default(),
        };
        Self::parse_args(config, args)
    }

    /// Splits an argument at its `=` signs into the name of the option and
    /// its value. What follows a second `=` is dropped.
    pub fn split_arg(arg: String) -> (r: (String, String))
        ensures
            r.0@ == arg_key(arg@),
            r.1@ == arg_value(arg@),
    {
        let chars = to_chars(arg.as_str());
        let n = chars.len();
        let first = find_char(&chars, '=', 0);
        let key = String::from_str(arg.as_str().substring_char(0, first));
        if first >= n {
            return (key, String::new());
        }
        let second = find_char(&chars, '=', first + 1);
        (key, String::from_str(arg.as_str().substring_char(first + 1, second)))
    }

    /// The number that the value of the option `key` writes.
    fn parse_number(key: String, value: String) -> (r: Result<i32, ArgError>)
        ensures
            match parsed_i32(value@) {
                Some(n) => r is Ok && r->Ok_0 == n,
                None => r is Err && r->Err_0@ == ArgFault::NotParsable(key@, value@),
            },
    {
        match parse_i32(value.as_str()) {
            Some(n) => Ok(n),
            None => Err(ArgError::NotParsable(key, value)),
        }
    }

    /// The truth value that the value of the option `key` writes.
    fn parse_flag(key: String, value: String) -> (r: Result<bool, ArgError>)
        ensures
            match parsed_bool(value@) {
                Some(b) => r is Ok && r->Ok_0 == b,
                None => r is Err && r->Err_0@ == ArgFault::NotParsable(key@, value@),
            },
    {
        match parse_bool(value.as_str()) {
            Some(b) => Ok(b),
            None => Err(ArgError::NotParsable(key, value)),
        }
    }

    /// Applies one argument to the settings. `Ok(true)` where it was an
    /// option, `Ok(false)` where it ends the options.
    fn apply_arg(config: &mut Config, arg: String) -> (r: Result<bool, ArgError>)
        ensures
            match arg_step(old(config)@, arg@) {
                ArgStep::Change(next) => r == Ok::<bool, ArgError>(true) && final(config)@ == next,
                ArgStep::Stop => r == Ok::<bool, ArgError>(false) && final(config)@ == old(config)@,
                ArgStep::Fail(fault) => r is Err && r->Err_0@ == fault,
            },
    {
        let (key, value) = Self::split_arg(arg);
        let name = key.as_str();
        if str_eq(name, "--behavior.file_action") {
            config.behavior.file_action = value;
        } else if str_eq(name, "--behavior.path_node_sort") {
            config.behavior.path_node_sort = value;
        } else if str_eq(name, "--behavior.scrolling") {
            config.behavior.scrolling = value;
        } else if str_eq(name, "--color.background") {
            config.color.background = value;
        } else if str_eq(name, "--color.foreground") {
            config.color.foreground = value;
        } else if str_eq(name, "--composition.indent") {
            config.composition.indent = Self::parse_number(key, value)?;
        } else if str_eq(name, "--composition.show_indent") {
            config.composition.show_indent = Self::parse_flag(key, value)?;
        } else if str_eq(name, "--composition.use_utf8") {
            config.composition.use_utf8 = Self::parse_flag(key, value)?;
        } else if str_eq(name, "--debug.enabled") {
            config.debug.enabled = Self::parse_flag(key, value)?;
        } else if str_eq(name, "--debug.padding_bot") {
            config.debug.padding_bot = Self::parse_number(key, value)?;
        } else if str_eq(name, "--debug.padding_top") {
            config.debug.padding_top = Self::parse_number(key, value)?;
        } else if str_eq(name, "--debug.spacing_bot") {
            config.debug.spacing_bot = Self::parse_number(key, value)?;
        } else if str_eq(name, "--debug.spacing_top") {
            config.debug.spacing_top = Self::parse_number(key, value)?;
        } else if str_eq(name, "--setup.working_dir") {
            config.setup.working_dir = value;
        } else if str_eq(name, "--help") {
            return Err(ArgError::Help);
        } else if str_eq(name, "--") {
            return Ok(false);
        } else {
            return Err(ArgError::UnknownOption(key));
        }
        Ok(true)
    }

    /// Changes the settings as the arguments say, from the left. `--` ends
    /// the options: what follows it is left alone. An unknown option, a
    /// value that cannot be read and `--help` refuse the command line.
    pub fn parse_args(config: Config, args: Vec<String>) -> (r: Result<Config, ArgError>)
        ensures
            outcome_view(r) == args_result(config@, args_view(args@)),
    {
        let mut current = config;
        let ghost all = args_view(args@);
        let mut i: usize = 0;
        assert(all.skip(0) =~= all);
        while i < args.len()
            invariant
                i <= args@.len(),
                all == args_view(args@),
                args_result(config@, all) == args_result(current@, all.skip(i as int)),
            decreases args@.len() - i,
        {
            let ghost rest = all.skip(i as int);
            assert(rest[0] == args@[i as int]@);
            assert(rest.drop_first() =~= all.skip(i + 1));
            match Self::apply_arg(&mut current, args[i].clone()) {
                Ok(true) => {},
                Ok(false) => {
                    return Ok(current);
                },
                Err(e) => {
                    return Err(e);
                },
            }
            i += 1;
        }
        assert(all.skip(i as int) =~= Seq::<Seq<char>>::empty());
        Ok(current)
    }
}

} // verus!
