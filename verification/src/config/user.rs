//! Who the user is, and where their machine is reached.
use crate::text::{copy_optional_bytes, copy_optional_text};
use vstd::prelude::*;

verus! {

/// The group code of machines that have not agreed on another.
pub open spec fn default_group_code() -> Seq<char> {
    "Warpinator"@
}

/// The port that transfers go through unless another is set.
pub const DEFAULT_PORT: u16 = 42000;

/// The port of the registration service unless another is set.
pub const DEFAULT_REG_PORT: u16 = 42001;

/// The user's settings. Addresses are in text form.
#[derive(Debug)]
pub struct UserConfig {
    pub group_code: String,
    pub hostname: String,
    pub username: String,
    pub display_name: String,
    pub picture: Option<Vec<u8>>,
    pub bind_addr_v4: Option<String>,
    pub bind_addr_v6: Option<String>,
    pub port: u16,
    pub reg_port: u16,
}

/// What a [`UserConfig`] says.
#[verifier::ext_equal]
pub struct UserConfigView {
    pub group_code: Seq<char>,
    pub hostname: Seq<char>,
    pub username: Seq<char>,
    pub display_name: Seq<char>,
    pub picture: Option<Seq<u8>>,
    pub bind_addr_v4: Option<Seq<char>>,
    pub bind_addr_v6: Option<Seq<char>>,
    pub port: u16,
    pub reg_port: u16,
}

impl View for UserConfig {
    type V = UserConfigView;

    open spec fn view(&self) -> UserConfigView {
        UserConfigView {
            group_code: self.group_code@,
            hostname: self.hostname@,
            username: self.username@,
            display_name: self.display_name@,
            picture: crate::text::optional_bytes(self.picture),
            bind_addr_v4: crate::text::optional_text(self.bind_addr_v4),
            bind_addr_v6: crate::text::optional_text(self.bind_addr_v6),
            port: self.port,
            reg_port: self.reg_port,
        }
    }
}

/// The settings of a user who has set nothing.
pub open spec fn default_user_config() -> UserConfigView {
    UserConfigView {
        group_code: default_group_code(),
        hostname: Seq::empty(),
        username: Seq::empty(),
        display_name: Seq::empty(),
        picture: None,
        bind_addr_v4: None,
        bind_addr_v6: None,
        port: DEFAULT_PORT,
        reg_port: DEFAULT_REG_PORT,
    }
}

impl Default for UserConfig {
    fn default() -> (r: Self)
        ensures
            r@ == default_user_config(),
    {
        UserConfig {
            group_code: "Warpinator".to_string(),
            hostname: String::new(),
            username: String::new(),
            display_name: String::new(),
            picture: None,
            bind_addr_v4: None,
            bind_addr_v6: None,
            port: DEFAULT_PORT,
            reg_port: DEFAULT_REG_PORT,
        }
    }
}

impl Clone for UserConfig {
    fn clone(&self) -> (r: Self)
        ensures
            r@ == self@,
    {
        UserConfig {
            group_code: self.group_code.clone(),
            hostname: self.hostname.clone(),
            username: self.username.clone(),
            display_name: self.display_name.clone(),
            picture: copy_optional_bytes(&self.picture),
            bind_addr_v4: copy_optional_text(&self.bind_addr_v4),
            bind_addr_v6: copy_optional_text(&self.bind_addr_v6),
            port: self.port,
            reg_port: self.reg_port,
        }
    }
}

/// What is said of a user's settings is what they hold.
pub proof fn settings_are_seen_as_they_are(settings: UserConfig)
    ensures
        settings@.group_code == settings.group_code@,
        settings@.hostname == settings.hostname@,
        settings@.username == settings.username@,
        settings@.display_name == settings.display_name@,
        settings@.picture is Some <==> settings.picture is Some,
        settings.picture matches Some(held) ==> settings@.picture == Some(held@),
        settings@.bind_addr_v4 is Some <==> settings.bind_addr_v4 is Some,
        settings.bind_addr_v4 matches Some(held) ==> settings@.bind_addr_v4 == Some(held@),
        settings@.bind_addr_v6 is Some <==> settings.bind_addr_v6 is Some,
        settings.bind_addr_v6 matches Some(held) ==> settings@.bind_addr_v6 == Some(held@),
        settings@.port == settings.port,
        settings@.reg_port == settings.reg_port,
{
}

} // verus!
