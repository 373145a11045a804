//! What the service is configured with.

use crate::code::SET_A;
use vstd::prelude::*;
use vstd::string::*;

verus! {

/// How to reach the messaging platform.
pub struct Platform {
    api_key: String,
    owner: i64,
    server: Option<String>,
}

/// The plain content of a [`Platform`].
pub struct PlatformView {
    pub api_key: Seq<char>,
    pub owner: i64,
    pub server: Option<Seq<char>>,
}

impl View for Platform {
    type V = PlatformView;

    closed spec fn view(&self) -> PlatformView {
        PlatformView {
            api_key: self.api_key@,
            owner: self.owner,
            server: match self.server {
                Some(url) => Some(url@),
                None => None,
            },
        }
    }
}

impl Platform {
    pub fn new(api_key: String, owner: i64, server: Option<String>) -> (r: Platform)
        ensures
            r@.api_key == api_key@,
            r@.owner == owner,
            r@.server == match server {
                Some(url) => Some(url@),
                None => None,
            },
    {
        Platform { api_key, owner, server }
    }

    /// The key that authorises the service.
    pub fn api_key(&self) -> (r: &str)
        ensures
            r@ == self@.api_key,
    {
        self.api_key.as_str()
    }

    /// The chat whose messages are answered with a picture.
    pub fn owner(&self) -> (r: i64)
        ensures
            r == self@.owner,
    {
        self.owner
    }

    /// The address of the platform's server, where it is not the usual one.
    pub fn server(&self) -> (r: Option<&String>)
        ensures
            match r {
                Some(url) => self@.server == Some(url@),
                None => self@.server is None,
            },
    {
        self.server.as_ref()
    }
}

/// The whole configuration: the platform and the service's own identifier.
pub struct Config {
    platform: Platform,
    id: String,
}

/// The plain content of a [`Config`].
pub struct ConfigView {
    pub platform: PlatformView,
    pub id: Seq<char>,
}

impl View for Config {
    type V = ConfigView;

    closed spec fn view(&self) -> ConfigView {
        ConfigView { platform: self.platform@, id: self.id@ }
    }
}

impl Config {
    pub fn new(platform: Platform, id: String) -> (r: Config)
        ensures
            r@.platform == platform@,
            r@.id == id@,
    {
        Config { platform, id }
    }

    /// The service's own identifier, as configured.
    pub fn id(&self) -> (r: &str)
        ensures
            r@ == self@.id,
    {
        self.id.as_str()
    }

    pub fn platform(&self) -> (r: &Platform)
        ensures
            r@ == self@.platform,
    {
        &self.platform
    }

    /// The identifier as the text of the upper symbol: behind the marker of
    /// code set A, letters as they are.
    pub fn barcode_id(&self) -> (r: String)
        ensures
            r@ == seq![SET_A] + self@.id,
    {
        let mut r = String::from_str("\u{00C0}");
        proof {
            reveal_strlit("\u{00C0}");
            assert("\u{00C0}"@ =~= seq![SET_A]);
        }
        r.append(self.id.as_str());
        r
    }
}

} // verus!
