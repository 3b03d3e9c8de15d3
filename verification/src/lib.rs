//! A freestanding kernel-call layer for FreeBSD on x86-64: a parser for the
//! textual syscall specification table, a classifier for C type phrases, a
//! generator that turns parsed entries into constant and function
//! declarations, and the result convention of the raw kernel-call primitive.

pub mod annot;
pub mod ctype;
pub mod error;
pub mod flags;
pub mod fmtcmd;
pub mod gen;
pub mod ident;
pub mod num;
pub mod parse;
pub mod sysret;
pub mod text;

pub use annot::{Annotation, Contains};
pub use ctype::{IntKind, TypeKind};
pub use error::Error;
pub use flags::Flags;
pub use fmtcmd::{FormatOutcome, Formatter};
pub use num::Numbers;
pub use parse::{parse, Arg, Syscall, Syscalls};
pub use sysret::{syscall_result, Errno};
