//! The error type of the library and the messages it shows.

use vstd::prelude::*;
use crate::text::{append, append_str, chars_of, string_of};
use crate::num::{decimal, decimal_chars};

verus! {

/// What the library reads of an I/O error: whether the OS refused access,
/// the OS error code, and the error's message.
#[derive(Debug)]
pub struct IoFault {
    pub permission_denied: bool,
    pub raw_os_error: Option<i32>,
    pub message: String,
}

/// The errors of the library.
#[derive(Debug)]
pub enum NaxOneError {
    Service(String),
    Process(String),
    Config(String),
    Package(String),
    Template(String),
    Io(IoFault),
    NotFound(String),
    /// Administrator rights are needed (writing the hosts file, say).
    PermissionDenied(String),
    /// Another process holds the file open.
    FileLocked(String),
    /// A configuration test (`nginx -t`, `httpd -t`) failed.
    ConfigSyntax(String),
    /// The port is taken, by the named program when it is known.
    PortInUse { port: u16, by: Option<String> },
}

/// The Windows codes of a sharing or lock violation.
pub open spec fn is_lock_code(code: Option<i32>) -> bool {
    code == Some(32i32) || code == Some(33i32)
}

impl NaxOneError {
    /// Classifies an I/O error: a refused access becomes `PermissionDenied`
    /// and a sharing or lock violation `FileLocked`, both with the context
    /// in front of the message; anything else stays an `Io` error.
    pub fn from_io_with_context(err: IoFault, context: &str) -> (r: NaxOneError)
        ensures
            err.permission_denied ==> (r matches NaxOneError::PermissionDenied(m) && m@
                == context@ + ": "@ + err.message@),
            !err.permission_denied && is_lock_code(err.raw_os_error) ==> (
            r matches NaxOneError::FileLocked(m) && m@ == context@ + ": "@ + err.message@),
            !err.permission_denied && !is_lock_code(err.raw_os_error) ==> r == NaxOneError::Io(err),
    {
        if err.permission_denied {
            let mut m = chars_of(context);
            append_str(&mut m, ": ");
            append_str(&mut m, err.message.as_str());
            NaxOneError::PermissionDenied(string_of(&m))
        } else {
            let locked = match err.raw_os_error {
                Some(code) => code == 32 || code == 33,
                None => false,
            };
            if locked {
                let mut m = chars_of(context);
                append_str(&mut m, ": ");
                append_str(&mut m, err.message.as_str());
                NaxOneError::FileLocked(string_of(&m))
            } else {
                NaxOneError::Io(err)
            }
        }
    }
}

/// The message shown for an error.
pub open spec fn spec_error_message(e: NaxOneError) -> Seq<char> {
    match e {
        NaxOneError::Service(m) => "Service error: "@ + m@,
        NaxOneError::Process(m) => "Process error: "@ + m@,
        NaxOneError::Config(m) => "Config error: "@ + m@,
        NaxOneError::Package(m) => "Package error: "@ + m@,
        NaxOneError::Template(m) => "Template error: "@ + m@,
        NaxOneError::Io(f) => "IO error: "@ + f.message@,
        NaxOneError::NotFound(m) => "Not found: "@ + m@,
        NaxOneError::PermissionDenied(m) => "需要管理员权限: "@ + m@,
        NaxOneError::FileLocked(m) => "文件被占用: "@ + m@,
        NaxOneError::ConfigSyntax(m) => "配置语法错误: "@ + m@,
        NaxOneError::PortInUse { port, by } => "端口 "@ + decimal(port as nat) + " 已被占用"@ + match by {
            Some(b) => "（"@ + b@ + "）"@,
            None => Seq::empty(),
        },
    }
}

fn prefixed(p: &str, m: &str) -> (r: String)
    ensures
        r@ == p@ + m@,
{
    let mut v = chars_of(p);
    append_str(&mut v, m);
    string_of(&v)
}

impl NaxOneError {
    /// The message shown for this error.
    pub fn to_message(&self) -> (r: String)
        ensures
            r@ == spec_error_message(*self),
    {
        match self {
            NaxOneError::Service(m) => prefixed("Service error: ", m.as_str()),
            NaxOneError::Process(m) => prefixed("Process error: ", m.as_str()),
            NaxOneError::Config(m) => prefixed("Config error: ", m.as_str()),
            NaxOneError::Package(m) => prefixed("Package error: ", m.as_str()),
            NaxOneError::Template(m) => prefixed("Template error: ", m.as_str()),
            NaxOneError::Io(f) => prefixed("IO error: ", f.message.as_str()),
            NaxOneError::NotFound(m) => prefixed("Not found: ", m.as_str()),
            NaxOneError::PermissionDenied(m) => prefixed("需要管理员权限: ", m.as_str()),
            NaxOneError::FileLocked(m) => prefixed("文件被占用: ", m.as_str()),
            NaxOneError::ConfigSyntax(m) => prefixed("配置语法错误: ", m.as_str()),
            NaxOneError::PortInUse { port, by } => {
                let mut v = chars_of("端口 ");
                append(&mut v, &decimal_chars(*port as u64));
                append_str(&mut v, " 已被占用");
                match by {
                    Some(b) => {
                        append_str(&mut v, "（");
                        append_str(&mut v, b.as_str());
                        append_str(&mut v, "）");
                    },
                    None => {},
                }
                string_of(&v)
            },
        }
    }
}

} // verus!
