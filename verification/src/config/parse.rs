//! From a configuration file to a set of flow rules.

use vstd::prelude::*;

use super::crud::{CrudError, FlowRuleSet};
use super::model::{self, Config};
use super::validate::{self, check_config, Verdict, MAX_KEYS_BUDGET};
use crate::text;

verus! {

/// Why a configuration file could not be read.
#[derive(Debug, PartialEq, Eq)]
pub enum ParseError<S = String> {
    Yaml(S),
    Io(S),
}

impl View for ParseError<String> {
    type V = ParseError<Seq<char>>;

    open spec fn view(&self) -> ParseError<Seq<char>> {
        match self {
            ParseError::Yaml(e) => ParseError::Yaml(e@),
            ParseError::Io(e) => ParseError::Io(e@),
        }
    }
}

impl ParseError<Seq<char>> {
    /// The wording of the error.
    pub open spec fn text(self) -> Seq<char> {
        match self {
            ParseError::Yaml(e) => "YAML parse error: "@ + e,
            ParseError::Io(e) => "I/O error: "@ + e,
        }
    }
}

impl ParseError<String> {
    /// The wording of the error.
    pub fn message(&self) -> (r: String)
        ensures
            r@ == self@.text(),
    {
        match self {
            ParseError::Yaml(e) => text::cat("YAML parse error: ", e.as_str()),
            ParseError::Io(e) => text::cat("I/O error: ", e.as_str()),
        }
    }
}

/// Why a configuration file gives no set of flow rules.
#[derive(Debug, PartialEq, Eq)]
pub enum ConfigError<S = String> {
    Parse(ParseError<S>),
    Crud(CrudError<S>),
}

impl View for ConfigError<String> {
    type V = ConfigError<Seq<char>>;

    open spec fn view(&self) -> ConfigError<Seq<char>> {
        match self {
            ConfigError::Parse(e) => ConfigError::Parse(e@),
            ConfigError::Crud(e) => ConfigError::Crud(e@),
        }
    }
}

impl ConfigError<String> {
    /// The wording of the error: that of what lies beneath.
    pub fn message(&self) -> (r: String)
        ensures
            r@ == (match self@ {
                ConfigError::Parse(e) => e.text(),
                ConfigError::Crud(e) => e.text(),
            }),
    {
        match self {
            ConfigError::Parse(e) => e.message(),
            ConfigError::Crud(e) => e.message(),
        }
    }
}

/// The set of flow rules of a configuration that was read, or not; gives nothing where a time span
/// cannot be counted in milliseconds.
pub fn load_config(parsed: Result<Config, ParseError>) -> (r: Option<
    Result<FlowRuleSet, ConfigError>,
>)
    ensures
        match parsed {
            Err(e) => r is Some && r->Some_0 is Err && r->Some_0->Err_0@
                == ConfigError::<Seq<char>>::Parse(e@),
            Ok(config) => match validate::config_verdict(config) {
                Verdict::Overflows => r is None,
                Verdict::Bad(e) => r is Some && r->Some_0 is Err && r->Some_0->Err_0@
                    == ConfigError::<Seq<char>>::Crud(CrudError::InvalidSpec(e)),
                Verdict::Fine => {
                    &&& r is Some
                    &&& r->Some_0 is Ok
                    &&& r->Some_0->Ok_0.rules() == model::rule_views(config.flow_rules@)
                    &&& r->Some_0->Ok_0.budget() == MAX_KEYS_BUDGET
                    &&& r->Some_0->Ok_0.wf()
                },
            },
        },
{
    let config = match parsed {
        Ok(c) => c,
        Err(e) => {
            return Some(Err(ConfigError::Parse(e)));
        },
    };
    if let Verdict::Overflows = check_config(&config) {
        return None;
    }
    match FlowRuleSet::from_config(&config) {
        Ok(set) => Some(Ok(set)),
        Err(e) => Some(Err(ConfigError::Crud(e))),
    }
}

} // verus!
