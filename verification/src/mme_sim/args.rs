//! The command line of the LTE simulation.
//!
//! ```text
//! (no options)                                both roles, on loopback
//! --role mme [--bind ADDR:PORT]
//! --role ue  --bind ADDR:PORT --mme ADDR:PORT
//! ```

use vstd::prelude::*;
use vstd::string::StringSliceAdditionalSpecFns;
use vstd::utf8::encode_utf8;

use crate::cli::{
    check_options, endpoint_text, first_error, flags_view, opt_text, option_value, parse_endpoint, same_text,
    texts, value_of, Endpoint, EndpointView, OptionError, OptionErrorView,
};

verus! {

/// Where the MME listens unless it is told otherwise: the port of S1AP over
/// SCTP, on loopback.
pub const MME_BIND_IP: [u8; 4] = [127, 0, 0, 1];

pub const MME_BIND_PORT: u16 = 36412;

/// What a process is to do.
#[derive(Debug, Clone, Copy)]
pub enum Role {
    /// MME and UE in one process, on loopback.
    Both,
    Mme { bind: Endpoint },
    Ue { bind: Endpoint, mme: Endpoint },
}

/// Why a command line was refused.
#[derive(Debug, Clone)]
pub enum ArgsError {
    Options(OptionError),
    /// `--bind` is no endpoint.
    BadBind,
    /// `--mme` is no endpoint.
    BadMme,
    /// The UE role without `--bind`.
    UeNeedsBind,
    /// The UE role without `--mme`.
    UeNeedsMme,
    UnknownRole(String),
}

#[verifier::ext_equal]
pub enum RoleView {
    Both,
    Mme { bind: EndpointView },
    Ue { bind: EndpointView, mme: EndpointView },
}

#[verifier::ext_equal]
pub enum ArgsErrorView {
    Options(OptionErrorView),
    BadBind,
    BadMme,
    UeNeedsBind,
    UeNeedsMme,
    UnknownRole(Seq<char>),
}

impl View for Role {
    type V = RoleView;

    open spec fn view(&self) -> RoleView {
        match *self {
            Role::Both => RoleView::Both,
            Role::Mme { bind } => RoleView::Mme { bind: bind@ },
            Role::Ue { bind, mme } => RoleView::Ue { bind: bind@, mme: mme@ },
        }
    }
}

impl View for ArgsError {
    type V = ArgsErrorView;

    open spec fn view(&self) -> ArgsErrorView {
        match *self {
            ArgsError::Options(e) => ArgsErrorView::Options(e@),
            ArgsError::BadBind => ArgsErrorView::BadBind,
            ArgsError::BadMme => ArgsErrorView::BadMme,
            ArgsError::UeNeedsBind => ArgsErrorView::UeNeedsBind,
            ArgsError::UeNeedsMme => ArgsErrorView::UeNeedsMme,
            ArgsError::UnknownRole(s) => ArgsErrorView::UnknownRole(s@),
        }
    }
}

/// A result over views.
pub open spec fn result_view(r: Result<Role, ArgsError>) -> Result<RoleView, ArgsErrorView> {
    match r {
        Ok(role) => Ok(role@),
        Err(e) => Err(e@),
    }
}

pub open spec fn default_bind() -> EndpointView {
    EndpointView { ip: MME_BIND_IP@, port: MME_BIND_PORT }
}

/// The options of the command line.
pub open spec fn known_options() -> Seq<Seq<char>> {
    seq!["--role"@, "--bind"@, "--mme"@]
}

/// The MME role.
pub open spec fn mme_role(bind: Option<Seq<char>>) -> Result<RoleView, ArgsErrorView> {
    match bind {
        None => Ok(RoleView::Mme { bind: default_bind() }),
        Some(b) => match endpoint_text(encode_utf8(b)) {
            Some(bind) => Ok(RoleView::Mme { bind }),
            None => Err(ArgsErrorView::BadBind),
        },
    }
}

/// The UE role.
pub open spec fn ue_role(bind: Option<Seq<char>>, mme: Option<Seq<char>>) -> Result<
    RoleView,
    ArgsErrorView,
> {
    match bind {
        None => Err(ArgsErrorView::UeNeedsBind),
        Some(b) => match endpoint_text(encode_utf8(b)) {
            None => Err(ArgsErrorView::BadBind),
            Some(bind) => match mme {
                None => Err(ArgsErrorView::UeNeedsMme),
                Some(a) => match endpoint_text(encode_utf8(a)) {
                    None => Err(ArgsErrorView::BadMme),
                    Some(mme) => Ok(RoleView::Ue { bind, mme }),
                },
            },
        },
    }
}

/// The role that a command line asks for.
pub open spec fn role_of(args: Seq<Seq<char>>) -> Result<RoleView, ArgsErrorView> {
    match first_error(args, known_options(), 0) {
        Some(e) => Err(ArgsErrorView::Options(e)),
        None => match value_of(args, "--role"@) {
            None => Ok(RoleView::Both),
            Some(role) => if role == "both"@ {
                Ok(RoleView::Both)
            } else if role == "mme"@ {
                mme_role(value_of(args, "--bind"@))
            } else if role == "ue"@ {
                ue_role(value_of(args, "--bind"@), value_of(args, "--mme"@))
            } else {
                Err(ArgsErrorView::UnknownRole(role))
            },
        },
    }
}

fn read_mme_role(bind: Option<&str>) -> (r: Result<Role, ArgsError>)
    ensures
        result_view(r) == mme_role(opt_text(bind)),
{
    match bind {
        None => Ok(Role::Mme { bind: Endpoint { ip: MME_BIND_IP, port: MME_BIND_PORT } }),
        Some(b) => match parse_endpoint(b) {
            Some(bind) => Ok(Role::Mme { bind }),
            None => Err(ArgsError::BadBind),
        },
    }
}

fn read_ue_role(bind: Option<&str>, mme: Option<&str>) -> (r: Result<Role, ArgsError>)
    ensures
        result_view(r) == ue_role(opt_text(bind), opt_text(mme)),
{
    let bind = match bind {
        Some(b) => match parse_endpoint(b) {
            Some(bind) => bind,
            None => return Err(ArgsError::BadBind),
        },
        None => return Err(ArgsError::UeNeedsBind),
    };
    let mme = match mme {
        Some(a) => match parse_endpoint(a) {
            Some(mme) => mme,
            None => return Err(ArgsError::BadMme),
        },
        None => return Err(ArgsError::UeNeedsMme),
    };
    Ok(Role::Ue { bind, mme })
}

/// Reads the command line.
pub fn parse_args(args: &[String]) -> (r: Result<Role, ArgsError>)
    ensures
        result_view(r) == role_of(texts(args@)),
{
    let known: [&str; 3] = ["--role", "--bind", "--mme"];
    assert(flags_view(known@) =~= known_options());
    match check_options(args, known.as_slice()) {
        Ok(_) => {},
        Err(e) => return Err(ArgsError::Options(e)),
    }
    let bind = option_value(args, "--bind");
    match option_value(args, "--role") {
        None => Ok(Role::Both),
        Some(role) => if same_text(role, "both") {
            Ok(Role::Both)
        } else if same_text(role, "mme") {
            read_mme_role(bind)
        } else if same_text(role, "ue") {
            read_ue_role(bind, option_value(args, "--mme"))
        } else {
            Err(ArgsError::UnknownRole(role.to_owned()))
        },
    }
}

} // verus!
