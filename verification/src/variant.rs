//! The two editions of WorkBuddy: domestic and international.
use vstd::prelude::*;
use crate::account;
use crate::json;
use crate::json::{Json, JsonV};
use crate::text;

verus! {

pub const WORKBUDDY_API_ENDPOINT: &'static str = "https://www.codebuddy.cn";

pub const WORKBUDDY_AI_ENDPOINT: &'static str = "https://www.workbuddy.ai";

pub const WORKBUDDY_API_PREFIX: &'static str = "/v2/plugin";

pub const WORKBUDDY_PLATFORM: &'static str = "workbuddy";

pub const WORKBUDDY_AI_PLATFORM: &'static str = "workbuddy-ai";

/// The domain that only accounts of the international edition have.
pub const AI_DOMAIN: &'static str = "workbuddy.ai";

/// An edition of WorkBuddy.
#[derive(Clone, Copy, Debug, PartialEq, Eq, Structural)]
pub enum WbVariant {
    /// Domestic.
    Cn,
    /// International.
    Ai,
}

/// The edition that a name stands for: `ai` is international, all else domestic.
pub open spec fn variant_named(name: Option<Seq<char>>) -> WbVariant {
    if name == Some("ai"@) {
        WbVariant::Ai
    } else {
        WbVariant::Cn
    }
}

/// The edition that a domain belongs to.
pub open spec fn variant_of_domain(domain: Seq<char>) -> WbVariant {
    if text::ends_with(text::lower(text::trim(domain)), AI_DOMAIN@) {
        WbVariant::Ai
    } else {
        WbVariant::Cn
    }
}

/// The edition of an account: the one it names, else that of its domain.
pub open spec fn variant_in(acc: JsonV) -> WbVariant {
    match account::str_of(acc, "variant"@) {
        Some(name) => variant_named(Some(name)),
        None => match account::str_of(acc, "domain"@) {
            Some(domain) => variant_of_domain(domain),
            None => WbVariant::Cn,
        },
    }
}

impl WbVariant {
    /// The name of the edition.
    pub open spec fn name(self) -> Seq<char> {
        match self {
            WbVariant::Cn => "cn"@,
            WbVariant::Ai => "ai"@,
        }
    }

    pub open spec fn endpoint(self) -> Seq<char> {
        match self {
            WbVariant::Cn => WORKBUDDY_API_ENDPOINT@,
            WbVariant::Ai => WORKBUDDY_AI_ENDPOINT@,
        }
    }

    /// The name of the edition.
    pub fn as_str(self) -> (s: &'static str)
        ensures
            s@ == self.name(),
    {
        match self {
            WbVariant::Cn => "cn",
            WbVariant::Ai => "ai",
        }
    }

    /// The edition that a name stands for; anything but `ai` is domestic.
    pub fn parse(name: Option<&str>) -> (v: WbVariant)
        ensures
            v == variant_named(json::opt_text(name)),
    {
        match name {
            Some(s) => {
                if text::same(s, "ai") {
                    WbVariant::Ai
                } else {
                    WbVariant::Cn
                }
            },
            None => WbVariant::Cn,
        }
    }

    /// The edition that a domain belongs to.
    pub fn of_domain(domain: &str) -> (v: WbVariant)
        ensures
            v == variant_of_domain(domain@),
    {
        let d: String = text::to_lower(text::trimmed(domain).as_str());
        if text::text_ends_with(d.as_str(), AI_DOMAIN) {
            WbVariant::Ai
        } else {
            WbVariant::Cn
        }
    }

    /// The edition of an account: the one it names, else that of its domain,
    /// else domestic.
    pub fn from_account(acc: &Json) -> (v: WbVariant)
        ensures
            v == variant_in(acc@),
    {
        match account::get_str(acc, "variant") {
            Some(name) => WbVariant::parse(Some(name.as_str())),
            None => match account::get_str(acc, "domain") {
                Some(domain) => WbVariant::of_domain(domain.as_str()),
                None => WbVariant::Cn,
            },
        }
    }

    /// The host that the edition's requests go to.
    pub fn api_endpoint(self) -> (s: &'static str)
        ensures
            s@ == self.endpoint(),
    {
        match self {
            WbVariant::Cn => WORKBUDDY_API_ENDPOINT,
            WbVariant::Ai => WORKBUDDY_AI_ENDPOINT,
        }
    }

    /// The path that login requests begin with.
    pub fn api_prefix(self) -> (s: &'static str)
        ensures
            s@ == WORKBUDDY_API_PREFIX@,
    {
        WORKBUDDY_API_PREFIX
    }

    /// The platform name that a login asks for.
    pub fn oauth_platform(self) -> (s: &'static str)
        ensures
            s@ == (match self {
                WbVariant::Cn => WORKBUDDY_PLATFORM@,
                WbVariant::Ai => WORKBUDDY_AI_PLATFORM@,
            }),
    {
        match self {
            WbVariant::Cn => WORKBUDDY_PLATFORM,
            WbVariant::Ai => WORKBUDDY_AI_PLATFORM,
        }
    }

    /// Whether a login answer's domain belongs to the edition; an empty one does.
    pub fn matches_domain(self, domain: &str) -> (b: bool)
        ensures
            b == (domain@.len() == 0 || variant_of_domain(domain@) == self),
    {
        domain.is_empty() || WbVariant::of_domain(domain) == self
    }

    /// Only the domestic edition has check-ins.
    pub fn supports_checkin(self) -> (b: bool)
        ensures
            b == (self == WbVariant::Cn),
    {
        self == WbVariant::Cn
    }

    /// The billing path without the version that may begin it.
    pub open spec fn plain_path(path: Seq<char>) -> Seq<char> {
        if text::starts_with(path, "/v2"@) {
            path.subrange("/v2"@.len() as int, path.len() as int)
        } else {
            path
        }
    }

    /// The paths to try, in order: one for the domestic edition; for the
    /// international one without and with the version.
    pub open spec fn candidates(self, path: Seq<char>) -> Seq<Seq<char>> {
        match self {
            WbVariant::Cn => seq![path],
            WbVariant::Ai => seq![WbVariant::plain_path(path), "/v2"@ + WbVariant::plain_path(path)],
        }
    }

    /// The billing paths to try, in order.
    pub fn billing_paths(self, path: &str) -> (r: Vec<String>)
        ensures
            strings(r@) == self.candidates(path@),
    {
        match self {
            WbVariant::Cn => {
                let r: Vec<String> = vec![path.to_owned()];
                assert(strings(r@) =~= self.candidates(path@));
                r
            },
            WbVariant::Ai => {
                let chars: Vec<char> = text::chars_of(path);
                let version: Vec<char> = text::chars_of("/v2");
                let plain: String = if text::slice_starts_with(chars.as_slice(), "/v2") {
                    text::text_of(vstd::slice::slice_subrange(chars.as_slice(), version.len(), chars.len()))
                } else {
                    path.to_owned()
                };
                let versioned: String = text::concat("/v2", plain.as_str());
                let r: Vec<String> = vec![plain, versioned];
                assert(strings(r@) =~= self.candidates(path@));
                r
            },
        }
    }

    /// The name of the edition's login file.
    pub fn auth_file_name(self) -> (s: &'static str)
        ensures
            s@ == (match self {
                WbVariant::Cn => "workbuddy-desktop.info"@,
                WbVariant::Ai => "workbuddy-desktop-ai.info"@,
            }),
    {
        match self {
            WbVariant::Cn => "workbuddy-desktop.info",
            WbVariant::Ai => "workbuddy-desktop-ai.info",
        }
    }

    /// The name under which a login file is saved at a time.
    pub fn backup_file_name(self, ts: &str) -> (s: String)
        ensures
            s@ == (match self {
                WbVariant::Cn => "workbuddy-desktop."@,
                WbVariant::Ai => "workbuddy-desktop-ai."@,
            }) + ts@ + ".info"@,
    {
        let stem: &str = match self {
            WbVariant::Cn => "workbuddy-desktop.",
            WbVariant::Ai => "workbuddy-desktop-ai.",
        };
        text::concat3(stem, ts, ".info")
    }

    /// The name of the edition's data directory in the home directory.
    pub fn data_dir_name(self) -> (s: &'static str)
        ensures
            s@ == (match self {
                WbVariant::Cn => ".workbuddy"@,
                WbVariant::Ai => ".workbuddy-ai"@,
            }),
    {
        match self {
            WbVariant::Cn => ".workbuddy",
            WbVariant::Ai => ".workbuddy-ai",
        }
    }
}

/// The texts of a list of strings.
pub open spec fn strings(s: Seq<String>) -> Seq<Seq<char>> {
    s.map_values(|x: String| x@)
}

} // verus!
