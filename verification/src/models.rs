//! What is kept of a watch target: its configuration and what was last seen
//! of it, each with the plain record that a file holds of it.

use crate::hash::FromHashStrError;
use crate::selector::{Selector, SelectorParseError};
use crate::text::text_eq;
use crate::timestamp::Timestamp;
use crate::url::{Url, UrlParseError};
use vstd::prelude::*;

verus! {

/// How a target is fetched.
#[derive(Debug, Clone, Copy, PartialEq, Eq, Structural)]
pub enum Mode {
    /// A plain HTTP request.
    Simple,
    /// A browser session.
    Full,
}

impl Default for Mode {
    fn default() -> (r: Mode)
        ensures
            r == Mode::Full,
    {
        Mode::Full
    }
}

/// The mode that a name stands for: `simple` for [`Mode::Simple`], every
/// other name for [`Mode::Full`].
pub open spec fn mode_of_name(name: Seq<char>) -> Mode {
    if name == "simple"@ {
        Mode::Simple
    } else {
        Mode::Full
    }
}

/// The name of a mode.
pub open spec fn name_of_mode(mode: Mode) -> Seq<char> {
    match mode {
        Mode::Simple => "simple"@,
        Mode::Full => "full"@,
    }
}

impl Mode {
    /// Reads a mode from its name. An unknown name means [`Mode::Full`].
    pub fn from_name(name: &str) -> (r: Mode)
        ensures
            r == mode_of_name(name@),
    {
        if text_eq(name, "simple") {
            Mode::Simple
        } else {
            Mode::Full
        }
    }

    /// The name of the mode, in lower case.
    pub fn name(&self) -> (r: &'static str)
        ensures
            r@ == name_of_mode(*self),
    {
        match self {
            Mode::Simple => "simple",
            Mode::Full => "full",
        }
    }
}

/// A mode's name reads back as that mode.
pub proof fn lemma_mode_round_trip(mode: Mode)
    ensures
        mode_of_name(name_of_mode(mode)) == mode,
{
    reveal_strlit("simple");
    reveal_strlit("full");
    if mode == Mode::Full {
        assert("full"@.len() != "simple"@.len());
    }
}

/// The configuration of one target.
#[derive(Debug)]
pub struct Config {
    pub url: Url,
    pub selector: Selector,
    pub mode: Mode,
    pub wait_seconds: Option<u16>,
}

/// A configuration as plain values.
pub struct ConfigView {
    pub url: Seq<char>,
    pub selector: Seq<char>,
    pub mode: Mode,
    pub wait_seconds: Option<u16>,
}

impl View for Config {
    type V = ConfigView;

    open spec fn view(&self) -> ConfigView {
        ConfigView {
            url: self.url@,
            selector: self.selector@,
            mode: self.mode,
            wait_seconds: self.wait_seconds,
        }
    }
}

impl Clone for Config {
    fn clone(&self) -> (r: Config)
        ensures
            r == *self,
    {
        Config {
            url: self.url.clone(),
            selector: self.selector.clone(),
            mode: self.mode,
            wait_seconds: self.wait_seconds,
        }
    }
}

/// What a file holds of one configuration: unchecked text, and a mode that
/// may be left out.
#[derive(Debug)]
pub struct ConfigRecord {
    pub url: String,
    pub selector: String,
    pub mode: Option<String>,
    pub wait_seconds: Option<u16>,
}

/// Why a record is no configuration.
#[derive(Debug, Clone, Copy, PartialEq, Eq, Structural)]
pub enum ConfigError {
    /// The address does not parse.
    UrlParseError(UrlParseError),
    /// The selector does not parse.
    SelectorParseError(SelectorParseError),
}

/// The mode that a record asks for: [`Mode::Full`] where it names none.
pub open spec fn mode_of_record(mode: Option<String>) -> Mode {
    match mode {
        Some(name) => mode_of_name(name@),
        None => Mode::Full,
    }
}

/// What checking a record gives: the configuration it writes, or the first
/// fault. The address is checked before the selector.
pub open spec fn config_of_record(record: ConfigRecord) -> Result<ConfigView, ConfigError> {
    if !crate::url::url_parses(record.url@) {
        Err(ConfigError::UrlParseError(UrlParseError))
    } else if !crate::selector::selector_parses(record.selector@) {
        Err(ConfigError::SelectorParseError(SelectorParseError))
    } else {
        Ok(
            ConfigView {
                url: record.url@,
                selector: record.selector@,
                mode: mode_of_record(record.mode),
                wait_seconds: record.wait_seconds,
            },
        )
    }
}

impl Config {
    /// Checks a record. The address is checked before the selector; a
    /// missing or unknown mode means [`Mode::Full`].
    pub fn from_record(record: ConfigRecord) -> (r: Result<Config, ConfigError>)
        ensures
            r.is_ok() == config_of_record(record).is_ok(),
            r.is_ok() ==> r.unwrap()@ == config_of_record(record).unwrap(),
            r.is_err() ==> r->Err_0 == config_of_record(record)->Err_0,
    {
        let ConfigRecord { url, selector, mode, wait_seconds } = record;
        let url = match Url::new(url) {
            Ok(url) => url,
            Err(e) => {
                return Err(ConfigError::UrlParseError(e));
            },
        };
        let selector = match Selector::new(selector) {
            Ok(selector) => selector,
            Err(e) => {
                return Err(ConfigError::SelectorParseError(e));
            },
        };
        let mode = match &mode {
            Some(name) => Mode::from_name(name.as_str()),
            None => Mode::default(),
        };
        Ok(Config { url, selector, mode, wait_seconds })
    }

    /// The record of this configuration, with the mode written out. Checking
    /// the record gives this configuration back.
    pub fn to_record(&self) -> (r: ConfigRecord)
        ensures
            config_of_record(r) == Ok::<ConfigView, ConfigError>(self@),
            r.url@ == self.url@,
            r.selector@ == self.selector@,
            r.mode.is_some(),
            r.mode.unwrap()@ == name_of_mode(self.mode),
            r.wait_seconds == self.wait_seconds,
    {
        proof {
            lemma_mode_round_trip(self.mode);
        }
        let r = ConfigRecord {
            url: self.url.clone().into_string(),
            selector: self.selector.clone().into_string(),
            mode: Some(self.mode.name().to_owned()),
            wait_seconds: self.wait_seconds,
        };
        assert(config_of_record(r).unwrap() == self@);
        r
    }
}

/// What was last seen of one target.
#[derive(Debug, Clone, Copy, PartialEq, Eq)]
pub struct Data {
    /// The last fingerprint.
    pub hash: Option<crate::hash::Hash>,
    /// When the fingerprint last changed.
    pub last_updated: Option<Timestamp>,
    /// When the target was last looked at.
    pub last_checked: Timestamp,
}

/// What was last seen of a target, as plain values.
pub struct DataView {
    pub hash: Option<Seq<u8>>,
    pub last_updated: Option<int>,
    pub last_checked: int,
}

impl View for Data {
    type V = DataView;

    open spec fn view(&self) -> DataView {
        DataView {
            hash: match self.hash {
                Some(h) => Some(h@),
                None => None,
            },
            last_updated: match self.last_updated {
                Some(t) => Some(t@),
                None => None,
            },
            last_checked: self.last_checked@,
        }
    }
}

/// What a file holds of one target's data: the fingerprint as text.
#[derive(Debug)]
pub struct DataRecord {
    pub hash: Option<String>,
    pub last_updated: Option<Timestamp>,
    pub last_checked: Timestamp,
}

/// What checking a record gives: the data it writes, unless its fingerprint
/// is not 64 hexadecimal digits.
pub open spec fn data_of_record(record: DataRecord) -> Option<DataView> {
    let times = DataView {
        hash: None,
        last_updated: match record.last_updated {
            Some(t) => Some(t@),
            None => None,
        },
        last_checked: record.last_checked@,
    };
    match record.hash {
        None => Some(times),
        Some(text) => if crate::hash::is_hash_text(vstd::utf8::encode_utf8(text@)) {
            Some(
                DataView {
                    hash: Some(crate::hash::hash_of_text(vstd::utf8::encode_utf8(text@))),
                    ..times
                },
            )
        } else {
            None
        },
    }
}

impl Data {
    /// Whether the last change does not lie after the last look.
    pub open spec fn consistent(&self) -> bool {
        self.last_updated.is_some() ==> self.last_updated.unwrap()@ <= self.last_checked@
    }

    /// Checks a record: its fingerprint, where it has one, must be 64
    /// hexadecimal digits.
    pub fn from_record(record: &DataRecord) -> (r: Result<Data, FromHashStrError>)
        ensures
            r.is_ok() == data_of_record(*record).is_some(),
            r.is_ok() ==> r.unwrap()@ == data_of_record(*record).unwrap(),
    {
        let hash = match &record.hash {
            Some(text) => match crate::hash::Hash::from_hash_str(text.as_str()) {
                Ok(h) => Some(h),
                Err(e) => {
                    return Err(e);
                },
            },
            None => None,
        };
        Ok(Data { hash, last_updated: record.last_updated, last_checked: record.last_checked })
    }

    /// The record of this data, the fingerprint in lowercase hexadecimal
    /// digits. Checking the record gives this data back.
    pub fn to_record(&self) -> (r: DataRecord)
        ensures
            data_of_record(r) == Some(self@),
            r.last_updated == self.last_updated,
            r.last_checked == self.last_checked,
            r.hash.is_some() == self.hash.is_some(),
            r.hash.is_some() ==> r.hash.unwrap()@ == crate::hash::text_of_hash(
                self.hash.unwrap()@,
            ),
    {
        let hash = match &self.hash {
            Some(h) => {
                proof {
                    crate::hash::lemma_hex_round_trip(h@);
                }
                Some(h.to_string())
            },
            None => None,
        };
        let r = DataRecord {
            hash,
            last_updated: self.last_updated,
            last_checked: self.last_checked,
        };
        assert(data_of_record(r).unwrap() == self@);
        r
    }
}

} // verus!
