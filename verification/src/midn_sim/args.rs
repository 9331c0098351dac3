//! The command line of the 5G simulation.
//!
//! ```text
//! (no options)                                        both roles, on loopback
//! --role amf [--bind ADDR:PORT] [--n-ues N]
//! --role ue  --bind ADDR:PORT --amf ADDR:PORT [--n-ues N]
//! ```

use vstd::prelude::*;
use vstd::string::StringSliceAdditionalSpecFns;
use vstd::utf8::encode_utf8;

use crate::cli::{
    check_options, endpoint_text, first_error, flags_view, opt_text, option_value, parse_endpoint, parse_u32,
    same_text, texts, u32_text, value_of, Endpoint, EndpointView, OptionError, OptionErrorView,
};

verus! {

/// Where the AMF listens unless it is told otherwise: the port of NGAP over
/// SCTP, on loopback.
pub const AMF_BIND_IP: [u8; 4] = [127, 0, 0, 1];

pub const AMF_BIND_PORT: u16 = 38412;

/// What a process is to do. `n_ues` UEs share one connection.
#[derive(Debug, Clone, Copy)]
pub enum Role {
    /// AMF and UEs in one process, on loopback.
    Both { n_ues: u32 },
    Amf { bind: Endpoint, n_ues: u32 },
    Ue { bind: Endpoint, amf: Endpoint, n_ues: u32 },
}

/// Why a command line was refused.
#[derive(Debug, Clone)]
pub enum ArgsError {
    Options(OptionError),
    /// `--n-ues` is no 32-bit number.
    BadUeCount,
    /// `--n-ues` is zero.
    ZeroUeCount,
    /// `--bind` is no endpoint.
    BadBind,
    /// `--amf` is no endpoint.
    BadAmf,
    /// The UE role without `--bind`.
    UeNeedsBind,
    /// The UE role without `--amf`.
    UeNeedsAmf,
    UnknownRole(String),
}

#[verifier::ext_equal]
pub enum RoleView {
    Both { n_ues: u32 },
    Amf { bind: EndpointView, n_ues: u32 },
    Ue { bind: EndpointView, amf: EndpointView, n_ues: u32 },
}

#[verifier::ext_equal]
pub enum ArgsErrorView {
    Options(OptionErrorView),
    BadUeCount,
    ZeroUeCount,
    BadBind,
    BadAmf,
    UeNeedsBind,
    UeNeedsAmf,
    UnknownRole(Seq<char>),
}

impl View for Role {
    type V = RoleView;

    open spec fn view(&self) -> RoleView {
        match *self {
            Role::Both { n_ues } => RoleView::Both { n_ues },
            Role::Amf { bind, n_ues } => RoleView::Amf { bind: bind@, n_ues },
            Role::Ue { bind, amf, n_ues } => RoleView::Ue { bind: bind@, amf: amf@, n_ues },
        }
    }
}

impl View for ArgsError {
    type V = ArgsErrorView;

    open spec fn view(&self) -> ArgsErrorView {
        match *self {
            ArgsError::Options(e) => ArgsErrorView::Options(e@),
            ArgsError::BadUeCount => ArgsErrorView::BadUeCount,
            ArgsError::ZeroUeCount => ArgsErrorView::ZeroUeCount,
            ArgsError::BadBind => ArgsErrorView::BadBind,
            ArgsError::BadAmf => ArgsErrorView::BadAmf,
            ArgsError::UeNeedsBind => ArgsErrorView::UeNeedsBind,
            ArgsError::UeNeedsAmf => ArgsErrorView::UeNeedsAmf,
            ArgsError::UnknownRole(s) => ArgsErrorView::UnknownRole(s@),
        }
    }
}

/// A result over views.
pub open spec fn result_view(r: Result<Role, ArgsError>) -> Result<RoleView, ArgsErrorView> {
    match r {
        Ok(role) => Ok(role@),
        Err(e) => Err(e@),
    }
}

pub open spec fn default_bind() -> EndpointView {
    EndpointView { ip: AMF_BIND_IP@, port: AMF_BIND_PORT }
}

/// The options of the command line.
pub open spec fn known_options() -> Seq<Seq<char>> {
    seq!["--role"@, "--bind"@, "--amf"@, "--n-ues"@]
}

/// How many UEs a command line asks for; one unless it says otherwise.
pub open spec fn ue_count(n_ues: Option<Seq<char>>) -> Result<u32, ArgsErrorView> {
    match n_ues {
        None => Ok(1),
        Some(s) => match u32_text(encode_utf8(s)) {
            None => Err(ArgsErrorView::BadUeCount),
            Some(n) => if n == 0 {
                Err(ArgsErrorView::ZeroUeCount)
            } else {
                Ok(n as u32)
            },
        },
    }
}

/// The AMF role.
pub open spec fn amf_role(bind: Option<Seq<char>>, n_ues: u32) -> Result<RoleView, ArgsErrorView> {
    match bind {
        None => Ok(RoleView::Amf { bind: default_bind(), n_ues }),
        Some(b) => match endpoint_text(encode_utf8(b)) {
            Some(bind) => Ok(RoleView::Amf { bind, n_ues }),
            None => Err(ArgsErrorView::BadBind),
        },
    }
}

/// The UE role.
pub open spec fn ue_role(bind: Option<Seq<char>>, amf: Option<Seq<char>>, n_ues: u32) -> Result<
    RoleView,
    ArgsErrorView,
> {
    match bind {
        None => Err(ArgsErrorView::UeNeedsBind),
        Some(b) => match endpoint_text(encode_utf8(b)) {
            None => Err(ArgsErrorView::BadBind),
            Some(bind) => match amf {
                None => Err(ArgsErrorView::UeNeedsAmf),
                Some(a) => match endpoint_text(encode_utf8(a)) {
                    None => Err(ArgsErrorView::BadAmf),
                    Some(amf) => Ok(RoleView::Ue { bind, amf, n_ues }),
                },
            },
        },
    }
}

/// The role that a command line asks for.
pub open spec fn role_of(args: Seq<Seq<char>>) -> Result<RoleView, ArgsErrorView> {
    match first_error(args, known_options(), 0) {
        Some(e) => Err(ArgsErrorView::Options(e)),
        None => match ue_count(value_of(args, "--n-ues"@)) {
            Err(e) => Err(e),
            Ok(n_ues) => match value_of(args, "--role"@) {
                None => Ok(RoleView::Both { n_ues }),
                Some(role) => if role == "both"@ {
                    Ok(RoleView::Both { n_ues })
                } else if role == "amf"@ {
                    amf_role(value_of(args, "--bind"@), n_ues)
                } else if role == "ue"@ {
                    ue_role(value_of(args, "--bind"@), value_of(args, "--amf"@), n_ues)
                } else {
                    Err(ArgsErrorView::UnknownRole(role))
                },
            },
        },
    }
}

fn read_ue_count(n_ues: Option<&str>) -> (r: Result<u32, ArgsError>)
    ensures
        match ue_count(opt_text(n_ues)) {
            Ok(n) => r is Ok && r->Ok_0 == n,
            Err(e) => r is Err && r->Err_0@ == e,
        },
{
    match n_ues {
        None => Ok(1),
        Some(s) => match parse_u32(s) {
            None => Err(ArgsError::BadUeCount),
            Some(n) => if n == 0 {
                Err(ArgsError::ZeroUeCount)
            } else {
                Ok(n)
            },
        },
    }
}

fn read_amf_role(bind: Option<&str>, n_ues: u32) -> (r: Result<Role, ArgsError>)
    ensures
        result_view(r) == amf_role(opt_text(bind), n_ues),
{
    match bind {
        None => Ok(Role::Amf { bind: Endpoint { ip: AMF_BIND_IP, port: AMF_BIND_PORT }, n_ues }),
        Some(b) => match parse_endpoint(b) {
            Some(bind) => Ok(Role::Amf { bind, n_ues }),
            None => Err(ArgsError::BadBind),
        },
    }
}

fn read_ue_role(bind: Option<&str>, amf: Option<&str>, n_ues: u32) -> (r: Result<Role, ArgsError>)
    ensures
        result_view(r) == ue_role(opt_text(bind), opt_text(amf), n_ues),
{
    let bind = match bind {
        Some(b) => match parse_endpoint(b) {
            Some(bind) => bind,
            None => return Err(ArgsError::BadBind),
        },
        None => return Err(ArgsError::UeNeedsBind),
    };
    let amf = match amf {
        Some(a) => match parse_endpoint(a) {
            Some(amf) => amf,
            None => return Err(ArgsError::BadAmf),
        },
        None => return Err(ArgsError::UeNeedsAmf),
    };
    Ok(Role::Ue { bind, amf, n_ues })
}

/// Reads the command line.
pub fn parse_args(args: &[String]) -> (r: Result<Role, ArgsError>)
    ensures
        result_view(r) == role_of(texts(args@)),
{
    let known: [&str; 4] = ["--role", "--bind", "--amf", "--n-ues"];
    assert(flags_view(known@) =~= known_options());
    match check_options(args, known.as_slice()) {
        Ok(_) => {},
        Err(e) => return Err(ArgsError::Options(e)),
    }
    let n_ues = match read_ue_count(option_value(args, "--n-ues")) {
        Ok(n) => n,
        Err(e) => return Err(e),
    };
    let bind = option_value(args, "--bind");
    match option_value(args, "--role") {
        None => Ok(Role::Both { n_ues }),
        Some(role) => if same_text(role, "both") {
            Ok(Role::Both { n_ues })
        } else if same_text(role, "amf") {
            read_amf_role(bind, n_ues)
        } else if same_text(role, "ue") {
            read_ue_role(bind, option_value(args, "--amf"), n_ues)
        } else {
            Err(ArgsError::UnknownRole(role.to_owned()))
        },
    }
}

/// Whatever the role, there is at least one UE.
pub proof fn there_is_a_ue(args: Seq<Seq<char>>)
    requires
        role_of(args) is Ok,
    ensures
        match role_of(args)->Ok_0 {
            RoleView::Both { n_ues } => n_ues >= 1,
            RoleView::Amf { n_ues, .. } => n_ues >= 1,
            RoleView::Ue { n_ues, .. } => n_ues >= 1,
        },
{
}

} // verus!
