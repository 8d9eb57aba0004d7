//! The options of a host, by name.

use crate::failure::Failure;
use crate::text::{parse_number, read_number, same_text, NumberError};
use vstd::hash_map::StringHashMap;
use vstd::prelude::*;

verus! {

/// The options that hold for one host: a text for each name.
pub struct ConfigMap {
    options: StringHashMap<String>,
}

impl View for ConfigMap {
    type V = Map<Seq<char>, Seq<char>>;

    closed spec fn view(&self) -> Map<Seq<char>, Seq<char>> {
        self.options@.map_values(|v: String| v@)
    }
}

/// The value of the option `name`, if it is set.
pub open spec fn option(config: Map<Seq<char>, Seq<char>>, name: Seq<char>) -> Option<Seq<char>> {
    if config.contains_key(name) {
        Some(config[name])
    } else {
        None
    }
}

/// The text that an optional string holds.
pub open spec fn text_of(value: Option<&String>) -> Option<Seq<char>> {
    match value {
        Some(s) => Some(s@),
        None => None,
    }
}

impl ConfigMap {
    /// No option set.
    pub fn new() -> (config: ConfigMap)
        ensures
            config@ == Map::<Seq<char>, Seq<char>>::empty(),
    {
        let config = ConfigMap { options: StringHashMap::new() };
        assert(config@ == Map::<Seq<char>, Seq<char>>::empty());
        config
    }

    /// Sets the option `name` to `value`.
    pub fn insert(&mut self, name: String, value: String)
        ensures
            final(self)@ == old(self)@.insert(name@, value@),
    {
        self.options.insert(name, value);
        assert(self@ == old(self)@.insert(name@, value@));
    }

    /// The value of the option `name`, if it is set.
    pub fn get(&self, name: &str) -> (value: Option<&String>)
        ensures
            text_of(value) == option(self@, name@),
    {
        self.options.get(name)
    }

    /// Whether the option `name` is set to `value`.
    pub fn is(&self, name: &str, value: &str) -> (yes: bool)
        ensures
            yes == (option(self@, name@) == Some(value@)),
    {
        match self.get(name) {
            Some(text) => same_text(text.as_str(), value),
            None => false,
        }
    }
}

/// The option `name`, or `missing` where it is not set.
pub open spec fn required(
    config: Map<Seq<char>, Seq<char>>,
    name: Seq<char>,
    missing: Seq<char>,
) -> Result<Seq<char>, Seq<Seq<char>>> {
    match option(config, name) {
        Some(value) => Ok(value),
        None => Err(seq![missing]),
    }
}

/// The text, or the messages of the failure, that a result holds.
pub open spec fn text_or_failure(r: Result<String, Failure>) -> Result<Seq<char>, Seq<Seq<char>>> {
    match r {
        Ok(text) => Ok(text@),
        Err(failure) => Err(failure@),
    }
}

fn required_option(config: &ConfigMap, name: &str, missing: &str) -> (r: Result<String, Failure>)
    ensures
        text_or_failure(r) == required(config@, name@, missing@),
{
    match config.get(name) {
        Some(value) => Ok(value.clone()),
        None => Err(Failure::message(missing.to_owned())),
    }
}

/// The name of the host.
pub open spec fn hostname(config: Map<Seq<char>, Seq<char>>) -> Result<Seq<char>, Seq<Seq<char>>> {
    required(config, "hostname"@, "hostname not present in config"@)
}

/// The name of the host to connect to.
pub fn config_hostname(config: &ConfigMap) -> (r: Result<String, Failure>)
    ensures
        text_or_failure(r) == hostname(config@),
{
    required_option(config, "hostname", "hostname not present in config")
}

/// The name of the user.
pub open spec fn user(config: Map<Seq<char>, Seq<char>>) -> Result<Seq<char>, Seq<Seq<char>>> {
    required(config, "user"@, "username not present in config"@)
}

/// The user to log in as.
pub fn config_user(config: &ConfigMap) -> (r: Result<String, Failure>)
    ensures
        text_or_failure(r) == user(config@),
{
    required_option(config, "user", "username not present in config")
}

/// How a number that cannot be read is reported.
pub open spec fn number_error_text(err: NumberError) -> Seq<char> {
    match err {
        NumberError::Empty => "cannot parse integer from empty string"@,
        NumberError::InvalidDigit => "invalid digit found in string"@,
        NumberError::Overflow => "number too large to fit in target type"@,
    }
}

/// The port of the host.
pub open spec fn port(config: Map<Seq<char>, Seq<char>>) -> Result<u16, Seq<Seq<char>>> {
    match option(config, "port"@) {
        None => Err(seq!["port is always set in config loader"@]),
        Some(text) => match read_number(text) {
            Ok(value) => Ok(value),
            Err(err) => Err(seq![number_error_text(err)]),
        },
    }
}

/// The port, or the messages of the failure, that a result holds.
pub open spec fn port_or_failure(r: Result<u16, Failure>) -> Result<u16, Seq<Seq<char>>> {
    match r {
        Ok(value) => Ok(value),
        Err(failure) => Err(failure@),
    }
}

/// The port to connect to.
pub fn config_port(config: &ConfigMap) -> (r: Result<u16, Failure>)
    ensures
        port_or_failure(r) == port(config@),
{
    match config.get("port") {
        None => Err(Failure::message("port is always set in config loader".to_owned())),
        Some(text) => {
            match parse_number(text.as_str()) {
                Ok(value) => Ok(value),
                Err(NumberError::Empty) => Err(
                    Failure::message("cannot parse integer from empty string".to_owned()),
                ),
                Err(NumberError::InvalidDigit) => Err(
                    Failure::message("invalid digit found in string".to_owned()),
                ),
                Err(NumberError::Overflow) => Err(
                    Failure::message("number too large to fit in target type".to_owned()),
                ),
            }
        },
    }
}

/// An option has the value that was set for it last, and no other option has any part in it.
pub proof fn law_options_are_independent(
    config: Map<Seq<char>, Seq<char>>,
    name: Seq<char>,
    value: Seq<char>,
    other: Seq<char>,
)
    ensures
        option(config.insert(name, value), name) == Some(value),
        option(config.remove(name), name) == None::<Seq<char>>,
        other != name ==> option(config.insert(name, value), other) == option(config, other),
        option(config, name) is Some <==> config.contains_key(name),
{
}

/// The host, the user and the port are what the options of these names say, whatever else is set.
/// Each that is not set is reported by its own message, and a port that is no number by what is wrong
/// with it.
pub proof fn law_host_user_and_port(config: Map<Seq<char>, Seq<char>>, value: Seq<char>)
    ensures
        hostname(config.insert("hostname"@, value)) == Ok::<Seq<char>, Seq<Seq<char>>>(value),
        hostname(config.remove("hostname"@)) == Err::<Seq<char>, Seq<Seq<char>>>(
            seq!["hostname not present in config"@],
        ),
        user(config.insert("user"@, value)) == Ok::<Seq<char>, Seq<Seq<char>>>(value),
        user(config.remove("user"@)) == Err::<Seq<char>, Seq<Seq<char>>>(
            seq!["username not present in config"@],
        ),
        port(config.remove("port"@)) == Err::<u16, Seq<Seq<char>>>(
            seq!["port is always set in config loader"@],
        ),
        match read_number(value) {
            Ok(number) => port(config.insert("port"@, value)) == Ok::<u16, Seq<Seq<char>>>(number),
            Err(NumberError::Empty) => port(config.insert("port"@, value)) == Err::<
                u16,
                Seq<Seq<char>>,
            >(seq!["cannot parse integer from empty string"@]),
            Err(NumberError::InvalidDigit) => port(config.insert("port"@, value)) == Err::<
                u16,
                Seq<Seq<char>>,
            >(seq!["invalid digit found in string"@]),
            Err(NumberError::Overflow) => port(config.insert("port"@, value)) == Err::<
                u16,
                Seq<Seq<char>>,
            >(seq!["number too large to fit in target type"@]),
        },
{
}

} // verus!
