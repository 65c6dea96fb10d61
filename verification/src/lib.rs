//! Release bookkeeping for standalone CPython builds: which artifacts a release
//! carries, how artifact and asset names are derived, which archive entries
//! survive the install-only and stripped conversions, and how the LLVM
//! toolchain archive is resolved and checked before it is used.

pub mod archive;
pub mod convert;
pub mod install_only;
pub mod llvm;
pub mod matrix;
pub mod namemap;
pub mod names;
pub mod pep440;
pub mod stripped;
pub mod text;
pub mod triples;
pub mod wanted;
