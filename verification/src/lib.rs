//! Structured classification of service failures: stable error identities,
//! a registry of classifications, and wrapping of causes with a classification.

pub mod apierror;
pub mod builtin;
pub mod caller;
pub mod cause;
pub mod derive;
pub mod errorspace;
pub mod globals;
pub mod pvlost;
pub mod text;
pub mod version;

pub use apierror::{APIError, APIErrorMeta, APIErrorMetas, ErrorMeta};
pub use builtin::Builtin;
pub use cause::CausalError;
pub use errorspace::Errorspace;
pub use globals::{
    adapt, adapt_errorspace, clone_errorspace, force, force_errorspace, get_api_error_meta,
    get_api_error_meta_errorspace, init_once, new_errorspace, overwrite_api_error_metas,
    overwrite_api_error_metas_errorspace, register_api_error_metas,
    register_api_error_metas_errorspace, register_errorspace, Errorspaces, RegistryError,
    GLOBAL_ERRORSPACE_NAME,
};
pub use pvlost::{InvalidPVLost, PVLost};
