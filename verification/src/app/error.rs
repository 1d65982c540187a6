//! Why the bridge did not start, or did not stop as it should.

use vstd::prelude::*;
use vstd::string::*;

use crate::app::reload::ReloadError;
use crate::text::concat2;

verus! {

/// A failure of the bridge as data.
pub ghost enum AppErrorView {
    Config,
    Storage,
    Runtime,
    Matrix,
    Assembly(Seq<char>),
    Health,
    Reload(ReloadError),
    Shutdown,
}

impl AppErrorView {
    /// The failure in words.
    pub open spec fn rendered(self) -> Seq<char> {
        match self {
            AppErrorView::Config => "application configuration failed"@,
            AppErrorView::Storage => "application storage failed"@,
            AppErrorView::Runtime => "application runtime control failed"@,
            AppErrorView::Matrix => "application Matrix adapter failed"@,
            AppErrorView::Assembly(detail) => "application assembly failed: "@ + detail,
            AppErrorView::Health => "application health listener failed"@,
            AppErrorView::Reload(_) => "application reload failed"@,
            AppErrorView::Shutdown => "application shutdown signal failed"@,
        }
    }
}

/// A failure of the bridge.
#[derive(Debug, Clone, Copy, PartialEq, Eq)]
pub enum AppError {
    /// The configuration could not be loaded.
    Config,
    /// The store failed.
    Storage,
    /// The runtime's own records could not be kept.
    Runtime,
    /// The Matrix adapter failed.
    Matrix,
    /// A part could not be assembled or joined.
    Assembly(&'static str),
    /// The health listener failed.
    Health,
    /// The configuration cannot be used.
    Reload(ReloadError),
    /// The signal to stop could not be waited for.
    Shutdown,
}

impl View for AppError {
    type V = AppErrorView;

    open spec fn view(&self) -> AppErrorView {
        match self {
            AppError::Config => AppErrorView::Config,
            AppError::Storage => AppErrorView::Storage,
            AppError::Runtime => AppErrorView::Runtime,
            AppError::Matrix => AppErrorView::Matrix,
            AppError::Assembly(detail) => AppErrorView::Assembly(detail@),
            AppError::Health => AppErrorView::Health,
            AppError::Reload(error) => AppErrorView::Reload(*error),
            AppError::Shutdown => AppErrorView::Shutdown,
        }
    }
}

impl AppError {
    /// The failure in words.
    pub fn to_string(&self) -> (text: String)
        ensures
            text@ == self@.rendered(),
    {
        match self {
            AppError::Config => "application configuration failed".to_owned(),
            AppError::Storage => "application storage failed".to_owned(),
            AppError::Runtime => "application runtime control failed".to_owned(),
            AppError::Matrix => "application Matrix adapter failed".to_owned(),
            AppError::Assembly(detail) => concat2("application assembly failed: ", detail),
            AppError::Health => "application health listener failed".to_owned(),
            AppError::Reload(_) => "application reload failed".to_owned(),
            AppError::Shutdown => "application shutdown signal failed".to_owned(),
        }
    }
}

} // verus!
