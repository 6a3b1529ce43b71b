//! The settings of a run: what the command line gave, what the configuration
//! file holds, and the two laid over each other.
use crate::context::copy_strings;
use vstd::hash_map::StringHashMap;
use vstd::prelude::*;

verus! {

/// When the output is coloured.
#[derive(Debug, Clone, Copy, PartialEq, Eq, Structural)]
pub enum ColorChoice {
    /// Always, with whatever the terminal takes.
    Always,
    /// Always, with ANSI escape codes.
    AlwaysAnsi,
    /// Where the terminal seems to take colours.
    Auto,
    /// Never.
    Never,
}

/// What the `--color` flag asks for: `always`, `ansi`, or `auto`, which
/// colours only a terminal; anything else means no colour.
pub open spec fn color_for(flag: Seq<char>, is_terminal: bool) -> ColorChoice {
    if flag == "always"@ {
        ColorChoice::Always
    } else if flag == "ansi"@ {
        ColorChoice::AlwaysAnsi
    } else if flag == "auto"@ && is_terminal {
        ColorChoice::Auto
    } else {
        ColorChoice::Never
    }
}

impl ColorChoice {
    /// The colour setting for the value of the `--color` flag, given whether
    /// the output goes to a terminal.
    pub fn from_flag(flag: &String, is_terminal: bool) -> (choice: ColorChoice)
        ensures
            choice == color_for(flag@, is_terminal),
    {
        if *flag == "always".to_owned() {
            ColorChoice::Always
        } else if *flag == "ansi".to_owned() {
            ColorChoice::AlwaysAnsi
        } else if *flag == "auto".to_owned() && is_terminal {
            ColorChoice::Auto
        } else {
            ColorChoice::Never
        }
    }
}

/// The lists of one story format in the configuration file.
pub struct FormatConfig {
    /// Names of warnings to leave out.
    pub allow: Vec<String>,
    /// Names of warnings to treat as errors.
    pub deny: Vec<String>,
}

/// The configuration file as it is written.
pub struct ConfigFileInternal {
    /// The directories to search for story formats.
    pub format_paths: Vec<String>,
    /// The lists of each format, by the format's name; `default` holds for
    /// every format.
    pub format_configs: StringHashMap<FormatConfig>,
}

/// The configuration file, with the story formats found.
pub struct ConfigFile {
    /// For each format found, by name, the path of its file.
    pub formats: StringHashMap<String>,
    /// The lists of each format, by the format's name; `default` holds for
    /// every format.
    pub format_configs: StringHashMap<FormatConfig>,
}

impl ConfigFileInternal {
    /// A configuration that searches the given directories and holds no
    /// lists yet.
    pub fn new(format_paths: Vec<String>) -> (written: ConfigFileInternal)
        ensures
            written.format_paths == format_paths,
            written.format_configs@ == Map::<Seq<char>, FormatConfig>::empty(),
    {
        ConfigFileInternal { format_paths, format_configs: StringHashMap::new() }
    }

    /// Puts the lists of the format `name` in, in place of any it had.
    pub fn set_lists(&mut self, name: String, lists: FormatConfig)
        ensures
            final(self).format_paths == old(self).format_paths,
            final(self).format_configs@ == old(self).format_configs@.insert(name@, lists),
    {
        self.format_configs.insert(name, lists);
    }
}

impl ConfigFile {
    /// The configuration file before any format is found: it holds the lists
    /// as they are written.
    pub fn from_written(written: ConfigFileInternal) -> (file: ConfigFile)
        ensures
            file.formats@ == Map::<Seq<char>, String>::empty(),
            file.format_configs == written.format_configs,
    {
        ConfigFile { formats: StringHashMap::new(), format_configs: written.format_configs }
    }

    /// Takes note of a format found: of formats of one name, the one found
    /// first stays.
    pub fn add_format(&mut self, name: String, path: String)
        ensures
            final(self).format_configs == old(self).format_configs,
            final(self).formats@ == if old(self).formats@.contains_key(name@) {
                old(self).formats@
            } else {
                old(self).formats@.insert(name@, path)
            },
    {
        if !self.formats.contains_key(name.as_str()) {
            self.formats.insert(name, path);
        }
    }
}

/// What the command line gave.
pub struct CliConfig {
    /// Whether to lint and stop.
    pub linting: bool,
    /// The files and directories to read.
    pub inputs: Vec<String>,
    /// The story format, by name or by path.
    pub format: Option<String>,
    /// The file to write.
    pub output_file: Option<String>,
    /// Whether to open the file once written.
    pub should_open: bool,
    /// Names of warnings to leave out.
    pub allowed: Vec<String>,
    /// Names of warnings to treat as errors.
    pub denied: Vec<String>,
    /// When to colour the output.
    pub use_color: ColorChoice,
    /// Whether to report in one line per issue.
    pub compact: bool,
}

/// The settings of a run.
pub struct Config {
    /// Whether to lint and stop.
    pub linting: bool,
    /// The files and directories to read.
    pub inputs: Vec<String>,
    /// The path of the story format's file.
    pub format_file: String,
    /// The file to write.
    pub output_file: Option<String>,
    /// Whether to open the file once written.
    pub should_open: bool,
    /// Names of warnings to leave out; `all` stands for every name.
    pub allowed: Vec<String>,
    /// Names of warnings to treat as errors; `all` stands for every name.
    pub denied: Vec<String>,
    /// When to colour the output.
    pub use_color: ColorChoice,
    /// Whether to report in one line per issue.
    pub compact: bool,
}

/// The file of the chosen format: the path found for a format of that name,
/// else the choice itself taken as a path; `format.js` where none was chosen.
pub open spec fn layered_format_file(
    formats: Map<Seq<char>, String>,
    format: Option<String>,
) -> Seq<char> {
    match format {
        Some(name) => if formats.contains_key(name@) {
            formats[name@]@
        } else {
            name@
        },
        None => "format.js"@,
    }
}

/// The allow list that the file holds under `name`; empty where it holds
/// none.
pub open spec fn allow_list(configs: Map<Seq<char>, FormatConfig>, name: Seq<char>) -> Seq<String> {
    if configs.contains_key(name) {
        configs[name].allow@
    } else {
        Seq::empty()
    }
}

/// The deny list that the file holds under `name`; empty where it holds none.
pub open spec fn deny_list(configs: Map<Seq<char>, FormatConfig>, name: Seq<char>) -> Seq<String> {
    if configs.contains_key(name) {
        configs[name].deny@
    } else {
        Seq::empty()
    }
}

/// The allow list of the chosen format; empty where none was chosen.
pub open spec fn chosen_allow_list(
    configs: Map<Seq<char>, FormatConfig>,
    format: Option<String>,
) -> Seq<String> {
    match format {
        Some(name) => allow_list(configs, name@),
        None => Seq::empty(),
    }
}

/// The deny list of the chosen format; empty where none was chosen.
pub open spec fn chosen_deny_list(
    configs: Map<Seq<char>, FormatConfig>,
    format: Option<String>,
) -> Seq<String> {
    match format {
        Some(name) => deny_list(configs, name@),
        None => Seq::empty(),
    }
}

fn copy_allow_list(configs: &StringHashMap<FormatConfig>, name: &str) -> (list: Vec<String>)
    ensures
        list@ == allow_list(configs@, name@),
{
    match configs.get(name) {
        Some(format_config) => copy_strings(&format_config.allow),
        None => Vec::new(),
    }
}

fn copy_deny_list(configs: &StringHashMap<FormatConfig>, name: &str) -> (list: Vec<String>)
    ensures
        list@ == deny_list(configs@, name@),
{
    match configs.get(name) {
        Some(format_config) => copy_strings(&format_config.deny),
        None => Vec::new(),
    }
}

impl Config {
    /// Lays the command line over the configuration file.
    ///
    /// The lists are those of the command line, then those the file holds
    /// under `default`, then those it holds under the chosen format. All
    /// else is as the command line gave it.
    pub fn layer(config_file: ConfigFile, cli_config: CliConfig) -> (config: Config)
        ensures
            config.linting == cli_config.linting,
            config.inputs == cli_config.inputs,
            config.format_file@ == layered_format_file(config_file.formats@, cli_config.format),
            config.output_file == cli_config.output_file,
            config.should_open == cli_config.should_open,
            config.allowed@ == cli_config.allowed@ + allow_list(
                config_file.format_configs@,
                "default"@,
            ) + chosen_allow_list(config_file.format_configs@, cli_config.format),
            config.denied@ == cli_config.denied@ + deny_list(
                config_file.format_configs@,
                "default"@,
            ) + chosen_deny_list(config_file.format_configs@, cli_config.format),
            config.use_color == cli_config.use_color,
            config.compact == cli_config.compact,
    {
        let format_file = match &cli_config.format {
            Some(name) => match config_file.formats.get(name.as_str()) {
                Some(path) => path.clone(),
                None => name.clone(),
            },
            None => "format.js".to_owned(),
        };

        let mut allowed = cli_config.allowed;
        let mut default_allowed = copy_allow_list(&config_file.format_configs, "default");
        allowed.append(&mut default_allowed);
        let mut format_allowed = match &cli_config.format {
            Some(name) => copy_allow_list(&config_file.format_configs, name.as_str()),
            None => Vec::new(),
        };
        allowed.append(&mut format_allowed);

        let mut denied = cli_config.denied;
        let mut default_denied = copy_deny_list(&config_file.format_configs, "default");
        denied.append(&mut default_denied);
        let mut format_denied = match &cli_config.format {
            Some(name) => copy_deny_list(&config_file.format_configs, name.as_str()),
            None => Vec::new(),
        };
        denied.append(&mut format_denied);

        Config {
            linting: cli_config.linting,
            inputs: cli_config.inputs,
            format_file,
            output_file: cli_config.output_file,
            should_open: cli_config.should_open,
            allowed,
            denied,
            use_color: cli_config.use_color,
            compact: cli_config.compact,
        }
    }
}

} // verus!
