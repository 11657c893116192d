//! How a relay is configured.
use vstd::prelude::*;

use crate::text::{join2, opt_text};

verus! {

/// Where the admin panel is, and who may enter it.
pub struct AdminConfig {
    pub path: String,
    pub user: String,
    pub pass: String,
}

/// A configuration that a relay can start with.
pub struct RelayConfig {
    pub auth: String,
    pub admin: Option<AdminConfig>,
    pub record_dir: Option<String>,
}

pub struct AdminConfigView {
    pub path: Seq<char>,
    pub user: Seq<char>,
    pub pass: Seq<char>,
}

pub struct RelayConfigView {
    pub auth: Seq<char>,
    pub admin: Option<AdminConfigView>,
    pub record_dir: Option<Seq<char>>,
}

impl View for AdminConfig {
    type V = AdminConfigView;

    open spec fn view(&self) -> AdminConfigView {
        AdminConfigView { path: self.path@, user: self.user@, pass: self.pass@ }
    }
}

impl View for RelayConfig {
    type V = RelayConfigView;

    open spec fn view(&self) -> RelayConfigView {
        RelayConfigView {
            auth: self.auth@,
            admin: match self.admin {
                Some(a) => Some(a@),
                None => None,
            },
            record_dir: opt_text(self.record_dir),
        }
    }
}

/// Why a relay cannot start.
#[derive(Debug, Clone, Copy, PartialEq, Eq, Structural)]
pub enum ConfigError {
    /// There is no server password.
    MissingAuth,
    /// The admin panel is asked for without a password.
    MissingAdminPass,
}

impl ConfigError {
    pub open spec fn text(self) -> Seq<char> {
        match self {
            ConfigError::MissingAuth => "Missing required --auth password"@,
            ConfigError::MissingAdminPass => "--admin-path requires --admin-pass"@,
        }
    }

    pub fn message(&self) -> (r: &'static str)
        ensures
            r@ == self.text(),
    {
        match self {
            ConfigError::MissingAuth => "Missing required --auth password",
            ConfigError::MissingAdminPass => "--admin-path requires --admin-pass",
        }
    }
}

/// A text that was given and is not empty.
pub open spec fn given(o: Option<Seq<char>>) -> Option<Seq<char>> {
    match o {
        Some(s) => if s.len() == 0 {
            None
        } else {
            Some(s)
        },
        None => None,
    }
}

fn non_empty(o: Option<String>) -> (r: Option<String>)
    ensures
        opt_text(r) == given(opt_text(o)),
{
    match o {
        Some(s) => if s.as_str().is_empty() {
            None
        } else {
            Some(s)
        },
        None => None,
    }
}

/// The configuration that the options of a relay ask for. The server password is required. The
/// admin panel is there only where it has a path, and then needs a password; its user is `admin`
/// unless another is named. An empty option counts as none.
pub open spec fn config(
    auth: Option<Seq<char>>,
    admin_path: Option<Seq<char>>,
    admin_user: Option<Seq<char>>,
    admin_pass: Option<Seq<char>>,
    record_dir: Option<Seq<char>>,
) -> Result<RelayConfigView, ConfigError> {
    match given(auth) {
        None => Err(ConfigError::MissingAuth),
        Some(a) => match given(admin_path) {
            None => Ok(
                RelayConfigView { auth: a, admin: None, record_dir: given(record_dir) },
            ),
            Some(path) => match given(admin_pass) {
                None => Err(ConfigError::MissingAdminPass),
                Some(pass) => {
                    let user = match given(admin_user) {
                        Some(u) => u,
                        None => "admin"@,
                    };
                    Ok(
                        RelayConfigView {
                            auth: a,
                            admin: Some(AdminConfigView { path, user, pass }),
                            record_dir: given(record_dir),
                        },
                    )
                },
            },
        },
    }
}

pub open spec fn config_view(r: Result<RelayConfig, ConfigError>) -> Result<
    RelayConfigView,
    ConfigError,
> {
    match r {
        Ok(c) => Ok(c@),
        Err(e) => Err(e),
    }
}

/// Reads the options of a relay.
pub fn relay_config(
    auth: Option<String>,
    admin_path: Option<String>,
    admin_user: Option<String>,
    admin_pass: Option<String>,
    record_dir: Option<String>,
) -> (r: Result<RelayConfig, ConfigError>)
    ensures
        config_view(r) == config(
            opt_text(auth),
            opt_text(admin_path),
            opt_text(admin_user),
            opt_text(admin_pass),
            opt_text(record_dir),
        ),
{
    let auth = match non_empty(auth) {
        Some(a) => a,
        None => {
            return Err(ConfigError::MissingAuth);
        },
    };
    let admin = match non_empty(admin_path) {
        Some(path) => match non_empty(admin_pass) {
            Some(pass) => {
                let user = match non_empty(admin_user) {
                    Some(u) => u,
                    None => "admin".to_owned(),
                };
                Some(AdminConfig { path, user, pass })
            },
            None => {
                return Err(ConfigError::MissingAdminPass);
            },
        },
        None => None,
    };
    Ok(RelayConfig { auth, admin, record_dir: non_empty(record_dir) })
}

/// The path of the admin panel, with a slash before it.
pub open spec fn admin_route(path: Seq<char>) -> Seq<char> {
    if path.len() > 0 && path[0] == '/' {
        path
    } else {
        "/"@ + path
    }
}

/// The path of the admin panel, with a slash before it.
pub fn admin_prefix(path: &str) -> (r: String)
    ensures
        r@ == admin_route(path@),
{
    if path.unicode_len() > 0 && path.get_char(0) == '/' {
        path.to_owned()
    } else {
        join2("/", path)
    }
}

} // verus!
