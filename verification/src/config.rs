//! Configuration values and the paths they are stored under. Reading and
//! writing the file, and the home-directory lookup, belong to the
//! surrounding binary, which hands the home directory in as text.

use vstd::prelude::*;
use vstd::string::*;

verus! {

#[derive(Debug, Clone)]
pub struct Config {
    /// Model to use.
    pub model: String,
    /// Maximum tokens for responses.
    pub max_tokens: u32,
    /// Multi-turn depth for tool calls.
    pub multi_turn_depth: usize,
    /// Enable direct command execution.
    pub enable_direct_commands: bool,
    /// Show intent classification in output.
    pub show_intent: bool,
}

fn default_model() -> (r: String)
    ensures
        r@ == "gpt-4"@,
{
    "gpt-4".to_owned()
}

fn default_max_tokens() -> (r: u32)
    ensures
        r == 4096,
{
    4096
}

fn default_multi_turn_depth() -> (r: usize)
    ensures
        r == 10,
{
    10
}

fn default_direct_commands() -> (r: bool)
    ensures
        r,
{
    true
}

fn default_show_intent() -> (r: bool)
    ensures
        r,
{
    true
}

impl Default for Config {
    /// The configuration used when no file overrides it.
    fn default() -> (r: Config)
        ensures
            r.model@ == "gpt-4"@,
            r.max_tokens == 4096,
            r.multi_turn_depth == 10,
            r.enable_direct_commands,
            r.show_intent,
    {
        Config {
            model: default_model(),
            max_tokens: default_max_tokens(),
            multi_turn_depth: default_multi_turn_depth(),
            enable_direct_commands: default_direct_commands(),
            show_intent: default_show_intent(),
        }
    }
}

impl Config {
    /// The configuration directory under the given home directory.
    pub fn config_dir(home: &str) -> (r: String)
        ensures
            r@ == home@ + "/.ada"@,
    {
        let mut s = home.to_owned();
        s.append("/.ada");
        s
    }

    /// The configuration file inside the configuration directory.
    pub fn config_file_path(home: &str) -> (r: String)
        ensures
            r@ == home@ + "/.ada"@ + "/config"@,
    {
        let mut s = Self::config_dir(home);
        s.append("/config");
        s
    }
}

} // verus!
