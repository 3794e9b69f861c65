use vstd::prelude::*;

verus! {

/// The log filter used when neither `KAISHA_LOG` nor `RUST_LOG` is set.
pub fn default_env_filter() -> (r: &'static str)
    ensures
        r@ == "info,server=debug,hyper=warn,tower=warn,axum=warn"@,
{
    "info,server=debug,hyper=warn,tower=warn,axum=warn"
}

/// The log filter in force: `KAISHA_LOG` when set, else `RUST_LOG`, else the
/// default.
pub fn resolve_log_filter(kaisha_log: Option<&str>, rust_log: Option<&str>) -> (r: String)
    ensures
        r@ == match (kaisha_log, rust_log) {
            (Some(k), _) => k@,
            (None, Some(l)) => l@,
            (None, None) => "info,server=debug,hyper=warn,tower=warn,axum=warn"@,
        },
{
    match kaisha_log {
        Some(k) => k.to_owned(),
        None => match rust_log {
            Some(l) => l.to_owned(),
            None => default_env_filter().to_owned(),
        },
    }
}

} // verus!
