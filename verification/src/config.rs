//! Configuration: a file with fallbacks.
//!
//! A command-line flag goes before the file, the file before the environment, and the
//! environment before what is built in.

use vstd::prelude::*;

use crate::text;
use crate::workflow::report;
use crate::workflow::settings;

verus! {

/// The configuration.
#[derive(Debug)]
pub struct Config {
    /// The key of the language model's API.
    pub api_key: Option<String>,
    /// The key of Elsevier's API.
    pub elsevier_api_key: Option<String>,
    /// The language model.
    pub model: String,
    /// Where the language model's API answers.
    pub llm_base_url: String,
    /// The most sources downloaded in full.
    pub max_sources: usize,
    /// Where reports go.
    pub out_dir: String,
    /// Where the queue is kept.
    pub db_path: String,
    /// The temperature for drafting: the bits of a single-precision number.
    pub temperature_bits: u32,
    /// How long the language model may take.
    pub llm_timeout_secs: u64,
}

/// The configuration with its texts as sequences of characters.
pub struct ConfigView {
    pub api_key: Option<Seq<char>>,
    pub elsevier_api_key: Option<Seq<char>>,
    pub model: Seq<char>,
    pub llm_base_url: Seq<char>,
    pub max_sources: usize,
    pub out_dir: Seq<char>,
    pub db_path: Seq<char>,
    pub temperature_bits: u32,
    pub llm_timeout_secs: u64,
}

impl View for Config {
    type V = ConfigView;

    open spec fn view(&self) -> ConfigView {
        ConfigView {
            api_key: text::option_view(self.api_key),
            elsevier_api_key: text::option_view(self.elsevier_api_key),
            model: self.model@,
            llm_base_url: self.llm_base_url@,
            max_sources: self.max_sources,
            out_dir: self.out_dir@,
            db_path: self.db_path@,
            temperature_bits: self.temperature_bits,
            llm_timeout_secs: self.llm_timeout_secs,
        }
    }
}

/// What is built in. The temperature is 0.3.
pub open spec fn built_in() -> ConfigView {
    ConfigView {
        api_key: None,
        elsevier_api_key: None,
        model: "deepseek-v4-flash"@,
        llm_base_url: "https://opencode.ai/zen/go/v1"@,
        max_sources: 8,
        out_dir: "/home/user/AIDocumentStore/raw/research"@,
        db_path: "./research.db"@,
        temperature_bits: 0x3e99999a,
        llm_timeout_secs: 300,
    }
}

impl Default for Config {
    fn default() -> (r: Self)
        ensures
            r@ == built_in(),
    {
        Config {
            api_key: None,
            elsevier_api_key: None,
            model: "deepseek-v4-flash".to_owned(),
            llm_base_url: "https://opencode.ai/zen/go/v1".to_owned(),
            max_sources: 8,
            out_dir: "/home/user/AIDocumentStore/raw/research".to_owned(),
            db_path: "./research.db".to_owned(),
            temperature_bits: 0x3e99999a,
            llm_timeout_secs: 300,
        }
    }
}

/// The first optional value that is there.
pub open spec fn first_of<T>(first: Option<T>, second: Option<T>) -> Option<T> {
    if first is Some {
        first
    } else {
        second
    }
}

/// The first text, unless it is empty.
pub open spec fn text_or(first: Seq<char>, second: Seq<char>) -> Seq<char> {
    if first.len() > 0 {
        first
    } else {
        second
    }
}

/// The bits of a number that is not zero.
pub open spec fn is_nonzero(bits: u32) -> bool {
    bits != 0 && bits != 0x8000_0000
}

/// The configuration with what a file says written over it. What the file leaves empty or
/// zero stays.
pub open spec fn applied(own: ConfigView, file: ConfigView) -> ConfigView {
    ConfigView {
        api_key: first_of(file.api_key, own.api_key),
        elsevier_api_key: first_of(file.elsevier_api_key, own.elsevier_api_key),
        model: text_or(file.model, own.model),
        llm_base_url: text_or(file.llm_base_url, own.llm_base_url),
        max_sources: if file.max_sources != 0 {
            file.max_sources
        } else {
            own.max_sources
        },
        out_dir: text_or(file.out_dir, own.out_dir),
        db_path: text_or(file.db_path, own.db_path),
        temperature_bits: if is_nonzero(file.temperature_bits) {
            file.temperature_bits
        } else {
            own.temperature_bits
        },
        llm_timeout_secs: if file.llm_timeout_secs != 0 {
            file.llm_timeout_secs
        } else {
            own.llm_timeout_secs
        },
    }
}

/// A text that is there and not empty.
pub open spec fn nonempty(text: Option<Seq<char>>) -> Option<Seq<char>> {
    match text {
        Some(value) => if value.len() > 0 {
            text
        } else {
            None
        },
        None => None,
    }
}

fn nonempty_of(text: Option<String>) -> (r: Option<String>)
    ensures
        text::option_view(r) == nonempty(text::option_view(text)),
{
    match text {
        Some(value) => if text::blank(value.as_str()) {
            None
        } else {
            Some(value)
        },
        None => None,
    }
}

/// The configuration with keys from the environment where it has none.
pub open spec fn with_environment(
    own: ConfigView,
    api_key: Option<Seq<char>>,
    elsevier_api_key: Option<Seq<char>>,
) -> ConfigView {
    ConfigView {
        api_key: first_of(own.api_key, nonempty(api_key)),
        elsevier_api_key: first_of(own.elsevier_api_key, nonempty(elsevier_api_key)),
        ..own
    }
}

/// What is said where the key is missing.
pub const NO_KEY: &'static str =
    "API key missing. Set it in config.toml (api_key) or env OPENCODE_GO_API_KEY.";

/// What the command line says.
#[derive(Debug)]
pub struct Overrides {
    pub model: Option<String>,
    pub max_sources: Option<usize>,
    pub out_dir: Option<String>,
    pub api_key: Option<String>,
}

/// What the command line says, as its view.
pub struct OverridesView {
    pub model: Option<Seq<char>>,
    pub max_sources: Option<usize>,
    pub out_dir: Option<Seq<char>>,
    pub api_key: Option<Seq<char>>,
}

impl View for Overrides {
    type V = OverridesView;

    open spec fn view(&self) -> OverridesView {
        OverridesView {
            model: text::option_view(self.model),
            max_sources: self.max_sources,
            out_dir: text::option_view(self.out_dir),
            api_key: text::option_view(self.api_key),
        }
    }
}

/// The value, or else the other.
pub open spec fn value_or<T>(value: Option<T>, other: T) -> T {
    match value {
        Some(value) => value,
        None => other,
    }
}

/// The configuration with what the command line says written over it.
pub open spec fn overridden(own: ConfigView, flags: OverridesView) -> ConfigView {
    ConfigView {
        model: value_or(flags.model, own.model),
        max_sources: value_or(flags.max_sources, own.max_sources),
        out_dir: value_or(flags.out_dir, own.out_dir),
        api_key: first_of(flags.api_key, own.api_key),
        ..own
    }
}

impl Config {
    /// Write what a file says over the configuration. What the file leaves empty or zero
    /// stays.
    pub fn apply(&mut self, other: Config)
        ensures
            final(self)@ == applied(old(self)@, other@),
    {
        if other.api_key.is_some() {
            self.api_key = other.api_key;
        }
        if other.elsevier_api_key.is_some() {
            self.elsevier_api_key = other.elsevier_api_key;
        }
        if !text::blank(other.model.as_str()) {
            self.model = other.model;
        }
        if !text::blank(other.llm_base_url.as_str()) {
            self.llm_base_url = other.llm_base_url;
        }
        if other.max_sources != 0 {
            self.max_sources = other.max_sources;
        }
        if !text::blank(other.out_dir.as_str()) {
            self.out_dir = other.out_dir;
        }
        if !text::blank(other.db_path.as_str()) {
            self.db_path = other.db_path;
        }
        if other.temperature_bits != 0 && other.temperature_bits != 0x8000_0000 {
            self.temperature_bits = other.temperature_bits;
        }
        if other.llm_timeout_secs != 0 {
            self.llm_timeout_secs = other.llm_timeout_secs;
        }
    }

    /// The configuration from a file, when there is one, with keys from the environment where
    /// the file has none.
    pub fn load(
        file: Option<Config>,
        env_api_key: Option<String>,
        env_elsevier_api_key: Option<String>,
    ) -> (r: Config)
        ensures
            r@ == with_environment(
                match file {
                    Some(file) => applied(built_in(), file@),
                    None => built_in(),
                },
                text::option_view(env_api_key),
                text::option_view(env_elsevier_api_key),
            ),
    {
        let mut config = Config::default();
        if let Some(file) = file {
            config.apply(file);
        }
        if config.api_key.is_none() {
            config.api_key = nonempty_of(env_api_key);
        }
        if config.elsevier_api_key.is_none() {
            config.elsevier_api_key = nonempty_of(env_elsevier_api_key);
        }
        config
    }

    /// Write what the command line says over the configuration.
    pub fn override_with(&mut self, flags: Overrides)
        ensures
            final(self)@ == overridden(old(self)@, flags@),
    {
        if let Some(model) = flags.model {
            self.model = model;
        }
        if let Some(max_sources) = flags.max_sources {
            self.max_sources = max_sources;
        }
        if let Some(out_dir) = flags.out_dir {
            self.out_dir = out_dir;
        }
        if let Some(api_key) = flags.api_key {
            self.api_key = Some(api_key);
        }
    }

    /// The key, or what is said where it is missing or empty.
    pub fn require_api_key(&self) -> (r: Result<String, String>)
        ensures
            match nonempty(self@.api_key) {
                Some(key) => r matches Ok(found) && found@ == key,
                None => r matches Err(message) && message@ == NO_KEY@,
            },
    {
        match nonempty_of(text::copy_option(&self.api_key)) {
            Some(key) => Ok(key),
            None => Err(NO_KEY.to_owned()),
        }
    }

    /// Where a configuration file is looked for, in this order: in the working directory,
    /// next to the executable, in the home directory.
    pub fn candidate_paths(home: Option<&str>, exe_dir: Option<&str>) -> (r: Vec<String>)
        ensures
            text::views(r@) == candidates(
                match home {
                    Some(home) => Some(home@),
                    None => None,
                },
                match exe_dir {
                    Some(dir) => Some(dir@),
                    None => None,
                },
            ),
    {
        let mut paths: Vec<String> = Vec::new();
        paths.push("config.toml".to_owned());
        assert(text::views(paths@) =~= seq!["config.toml"@]);
        if let Some(dir) = exe_dir {
            let ghost before = paths@;
            let path = report::join_path(dir, "config.toml");
            paths.push(path);
            assert(text::views(paths@) =~= text::views(before).push(path@));
        }
        if let Some(home) = home {
            let ghost before = paths@;
            let path = report::join_path(home, ".config/research_mcp/config.toml");
            paths.push(path);
            assert(text::views(paths@) =~= text::views(before).push(path@));
        }
        assert(text::views(paths@) =~= candidates(
            match home {
                Some(home) => Some(home@),
                None => None,
            },
            match exe_dir {
                Some(dir) => Some(dir@),
                None => None,
            },
        ));
        paths
    }

    /// The settings of the workflow, once there is a key.
    pub fn workflow_settings(&self) -> (r: Result<settings::Config, String>)
        ensures
            match nonempty(self@.api_key) {
                Some(key) => r matches Ok(found) && found@ == (settings::ConfigView {
                    model: self@.model,
                    api_key: key,
                    llm_base_url: self@.llm_base_url,
                    elsevier_api_key: self@.elsevier_api_key,
                    out_dir: self@.out_dir,
                    max_sources: self@.max_sources,
                    temperature_bits: self@.temperature_bits,
                    llm_timeout_secs: self@.llm_timeout_secs,
                }),
                None => r matches Err(message) && message@ == NO_KEY@,
            },
    {
        match self.require_api_key() {
            Ok(api_key) => Ok(
                settings::Config {
                    model: self.model.clone(),
                    api_key,
                    llm_base_url: self.llm_base_url.clone(),
                    elsevier_api_key: text::copy_option(&self.elsevier_api_key),
                    out_dir: self.out_dir.clone(),
                    max_sources: self.max_sources,
                    temperature_bits: self.temperature_bits,
                    llm_timeout_secs: self.llm_timeout_secs,
                },
            ),
            Err(message) => Err(message),
        }
    }
}

/// Where a configuration file is looked for.
pub open spec fn candidates(home: Option<Seq<char>>, exe_dir: Option<Seq<char>>) -> Seq<Seq<char>> {
    seq!["config.toml"@] + (match exe_dir {
        Some(dir) => seq![report::joined_path(dir, "config.toml"@)],
        None => Seq::empty(),
    }) + (match home {
        Some(home) => seq![report::joined_path(home, ".config/research_mcp/config.toml"@)],
        None => Seq::empty(),
    })
}

/// The command line goes before the file, the file before the environment: the key that is
/// used is the first of the three that is there.
pub proof fn keys_have_precedence(
    file: ConfigView,
    flags: OverridesView,
    env_api_key: Option<Seq<char>>,
    env_elsevier_api_key: Option<Seq<char>>,
)
    ensures
        ({
            let used = overridden(
                with_environment(applied(built_in(), file), env_api_key, env_elsevier_api_key),
                flags,
            );
            &&& used.api_key == first_of(
                flags.api_key,
                first_of(file.api_key, nonempty(env_api_key)),
            )
            &&& used.elsevier_api_key == first_of(
                file.elsevier_api_key,
                nonempty(env_elsevier_api_key),
            )
        }),
{
}

/// A file that says nothing leaves what is built in.
pub proof fn empty_files_change_nothing(own: ConfigView, file: ConfigView)
    requires
        file.api_key is None,
        file.elsevier_api_key is None,
        file.model.len() == 0,
        file.llm_base_url.len() == 0,
        file.max_sources == 0,
        file.out_dir.len() == 0,
        file.db_path.len() == 0,
        !is_nonzero(file.temperature_bits),
        file.llm_timeout_secs == 0,
    ensures
        applied(own, file) == own,
{
}

/// What a file says goes before what is built in, each setting for itself, and what it leaves
/// out stays.
pub proof fn files_set_what_they_say(own: ConfigView, file: ConfigView)
    ensures
        ({
            let used = applied(own, file);
            &&& file.api_key is Some ==> used.api_key == file.api_key
            &&& file.api_key is None ==> used.api_key == own.api_key
            &&& file.elsevier_api_key is Some ==> used.elsevier_api_key == file.elsevier_api_key
            &&& file.elsevier_api_key is None ==> used.elsevier_api_key == own.elsevier_api_key
            &&& file.model.len() > 0 ==> used.model == file.model
            &&& file.model.len() == 0 ==> used.model == own.model
            &&& file.llm_base_url.len() > 0 ==> used.llm_base_url == file.llm_base_url
            &&& file.llm_base_url.len() == 0 ==> used.llm_base_url == own.llm_base_url
            &&& file.max_sources > 0 ==> used.max_sources == file.max_sources
            &&& file.max_sources == 0 ==> used.max_sources == own.max_sources
            &&& file.out_dir.len() > 0 ==> used.out_dir == file.out_dir
            &&& file.out_dir.len() == 0 ==> used.out_dir == own.out_dir
            &&& file.db_path.len() > 0 ==> used.db_path == file.db_path
            &&& file.db_path.len() == 0 ==> used.db_path == own.db_path
            &&& file.temperature_bits == 0 ==> used.temperature_bits == own.temperature_bits
            &&& is_nonzero(file.temperature_bits) ==> used.temperature_bits
                == file.temperature_bits
            &&& file.llm_timeout_secs > 0 ==> used.llm_timeout_secs == file.llm_timeout_secs
            &&& file.llm_timeout_secs == 0 ==> used.llm_timeout_secs == own.llm_timeout_secs
        }),
{
}

/// What the command line says goes before all else, each setting for itself, and nothing else
/// changes.
pub proof fn flags_set_what_they_say(own: ConfigView, flags: OverridesView)
    ensures
        ({
            let used = overridden(own, flags);
            &&& flags.model matches Some(model) ==> used.model == model
            &&& flags.model is None ==> used.model == own.model
            &&& flags.max_sources matches Some(max) ==> used.max_sources == max
            &&& flags.max_sources is None ==> used.max_sources == own.max_sources
            &&& flags.out_dir matches Some(dir) ==> used.out_dir == dir
            &&& flags.out_dir is None ==> used.out_dir == own.out_dir
            &&& flags.api_key is Some ==> used.api_key == flags.api_key
            &&& flags.api_key is None ==> used.api_key == own.api_key
            &&& used.elsevier_api_key == own.elsevier_api_key
            &&& used.llm_base_url == own.llm_base_url
            &&& used.db_path == own.db_path
            &&& used.temperature_bits == own.temperature_bits
            &&& used.llm_timeout_secs == own.llm_timeout_secs
        }),
{
}

/// The environment fills in keys that are missing, where it holds more than an empty text,
/// and changes nothing else.
pub proof fn the_environment_fills_in_keys(
    own: ConfigView,
    api_key: Seq<char>,
    elsevier_api_key: Seq<char>,
)
    ensures
        ({
            let used = with_environment(own, Some(api_key), Some(elsevier_api_key));
            &&& own.api_key is Some ==> used.api_key == own.api_key
            &&& own.api_key is None && api_key.len() > 0 ==> used.api_key == Some(api_key)
            &&& own.api_key is None && api_key.len() == 0 ==> used.api_key is None
            &&& own.elsevier_api_key is Some ==> used.elsevier_api_key == own.elsevier_api_key
            &&& own.elsevier_api_key is None && elsevier_api_key.len() > 0
                ==> used.elsevier_api_key == Some(elsevier_api_key)
            &&& used == (ConfigView {
                api_key: used.api_key,
                elsevier_api_key: used.elsevier_api_key,
                ..own
            })
            &&& with_environment(own, None, None) == own
        }),
{
}

/// A configuration is looked for in the working directory first, then beside the program,
/// then under the home directory.
pub proof fn files_are_looked_for_in_order(home: Seq<char>, exe_dir: Seq<char>)
    ensures
        candidates(Some(home), Some(exe_dir)).len() == 3,
        candidates(Some(home), Some(exe_dir))[0] == "config.toml"@,
        candidates(Some(home), Some(exe_dir))[1] == report::joined_path(exe_dir, "config.toml"@),
        candidates(Some(home), Some(exe_dir))[2] == report::joined_path(
            home,
            ".config/research_mcp/config.toml"@,
        ),
        candidates(None, None) == seq!["config.toml"@],
        candidates(Some(home), None).len() == 2,
        candidates(Some(home), None)[1] == candidates(Some(home), Some(exe_dir))[2],
        candidates(None, Some(exe_dir)).len() == 2,
        candidates(None, Some(exe_dir))[1] == candidates(Some(home), Some(exe_dir))[1],
{
}

} // verus!
