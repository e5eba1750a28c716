//! The error type of the configuration store.
use vstd::prelude::*;
use vstd::string::StringExecFns;

verus! {

/// What can go wrong in the configuration store.
#[derive(Debug)]
pub enum ConfigError {
    ProjectNotFound(String),
    ProjectAlreadyExists(String),
    EnvironmentNotFound(String),
    EnvironmentAlreadyExists(String),
    ConfigItemNotFound(String),
    ConfigItemAlreadyExists(String),
    ApiKeyNotFound(String),
    /// No API key was presented, or the presented key is unknown.
    Unauthorized(String),
    /// The API key is valid but bound to another project.
    Forbidden(String),
    StorageError(String),
    SerializationError(String),
    IoError(String),
}

/// Mathematical model of a [`ConfigError`].
pub enum ErrorView {
    ProjectNotFound(Seq<char>),
    ProjectAlreadyExists(Seq<char>),
    EnvironmentNotFound(Seq<char>),
    EnvironmentAlreadyExists(Seq<char>),
    ConfigItemNotFound(Seq<char>),
    ConfigItemAlreadyExists(Seq<char>),
    ApiKeyNotFound(Seq<char>),
    Unauthorized(Seq<char>),
    Forbidden(Seq<char>),
    StorageError(Seq<char>),
    SerializationError(Seq<char>),
    IoError(Seq<char>),
}

impl View for ConfigError {
    type V = ErrorView;

    open spec fn view(&self) -> ErrorView {
        match self {
            ConfigError::ProjectNotFound(s) => ErrorView::ProjectNotFound(s@),
            ConfigError::ProjectAlreadyExists(s) => ErrorView::ProjectAlreadyExists(s@),
            ConfigError::EnvironmentNotFound(s) => ErrorView::EnvironmentNotFound(s@),
            ConfigError::EnvironmentAlreadyExists(s) => ErrorView::EnvironmentAlreadyExists(s@),
            ConfigError::ConfigItemNotFound(s) => ErrorView::ConfigItemNotFound(s@),
            ConfigError::ConfigItemAlreadyExists(s) => ErrorView::ConfigItemAlreadyExists(s@),
            ConfigError::ApiKeyNotFound(s) => ErrorView::ApiKeyNotFound(s@),
            ConfigError::Unauthorized(s) => ErrorView::Unauthorized(s@),
            ConfigError::Forbidden(s) => ErrorView::Forbidden(s@),
            ConfigError::StorageError(s) => ErrorView::StorageError(s@),
            ConfigError::SerializationError(s) => ErrorView::SerializationError(s@),
            ConfigError::IoError(s) => ErrorView::IoError(s@),
        }
    }
}

impl ErrorView {
    /// The text that introduces the detail of an error of this kind.
    pub open spec fn prefix(self) -> Seq<char> {
        match self {
            ErrorView::ProjectNotFound(_) => "project not found: "@,
            ErrorView::ProjectAlreadyExists(_) => "project already exists: "@,
            ErrorView::EnvironmentNotFound(_) => "environment not found: "@,
            ErrorView::EnvironmentAlreadyExists(_) => "environment already exists: "@,
            ErrorView::ConfigItemNotFound(_) => "config item not found: "@,
            ErrorView::ConfigItemAlreadyExists(_) => "config item already exists: "@,
            ErrorView::ApiKeyNotFound(_) => "api key not found: "@,
            ErrorView::Unauthorized(_) => "unauthorized: "@,
            ErrorView::Forbidden(_) => "forbidden: "@,
            ErrorView::StorageError(_) => "storage error: "@,
            ErrorView::SerializationError(_) => "serialization error: "@,
            ErrorView::IoError(_) => "io error: "@,
        }
    }

    /// The name, key or reason that the error carries.
    pub open spec fn detail(self) -> Seq<char> {
        match self {
            ErrorView::ProjectNotFound(s) => s,
            ErrorView::ProjectAlreadyExists(s) => s,
            ErrorView::EnvironmentNotFound(s) => s,
            ErrorView::EnvironmentAlreadyExists(s) => s,
            ErrorView::ConfigItemNotFound(s) => s,
            ErrorView::ConfigItemAlreadyExists(s) => s,
            ErrorView::ApiKeyNotFound(s) => s,
            ErrorView::Unauthorized(s) => s,
            ErrorView::Forbidden(s) => s,
            ErrorView::StorageError(s) => s,
            ErrorView::SerializationError(s) => s,
            ErrorView::IoError(s) => s,
        }
    }

    /// The message shown for the error: the kind's prefix, then the detail.
    pub open spec fn message(self) -> Seq<char> {
        self.prefix() + self.detail()
    }

    /// The HTTP status that answers a request failing with this error.
    pub open spec fn status(self) -> int {
        match self {
            ErrorView::ProjectNotFound(_) => 404,
            ErrorView::EnvironmentNotFound(_) => 404,
            ErrorView::ConfigItemNotFound(_) => 404,
            ErrorView::Unauthorized(_) => 401,
            ErrorView::Forbidden(_) => 403,
            _ => 500,
        }
    }
}

impl ConfigError {
    /// The name, key or reason that the error carries.
    pub fn detail(&self) -> (r: &String)
        ensures
            r@ == self@.detail(),
    {
        match self {
            ConfigError::ProjectNotFound(s) => s,
            ConfigError::ProjectAlreadyExists(s) => s,
            ConfigError::EnvironmentNotFound(s) => s,
            ConfigError::EnvironmentAlreadyExists(s) => s,
            ConfigError::ConfigItemNotFound(s) => s,
            ConfigError::ConfigItemAlreadyExists(s) => s,
            ConfigError::ApiKeyNotFound(s) => s,
            ConfigError::Unauthorized(s) => s,
            ConfigError::Forbidden(s) => s,
            ConfigError::StorageError(s) => s,
            ConfigError::SerializationError(s) => s,
            ConfigError::IoError(s) => s,
        }
    }

    /// The message shown for the error.
    pub fn message(&self) -> (r: String)
        ensures
            r@ == self@.message(),
    {
        let prefix = match self {
            ConfigError::ProjectNotFound(_) => "project not found: ",
            ConfigError::ProjectAlreadyExists(_) => "project already exists: ",
            ConfigError::EnvironmentNotFound(_) => "environment not found: ",
            ConfigError::EnvironmentAlreadyExists(_) => "environment already exists: ",
            ConfigError::ConfigItemNotFound(_) => "config item not found: ",
            ConfigError::ConfigItemAlreadyExists(_) => "config item already exists: ",
            ConfigError::ApiKeyNotFound(_) => "api key not found: ",
            ConfigError::Unauthorized(_) => "unauthorized: ",
            ConfigError::Forbidden(_) => "forbidden: ",
            ConfigError::StorageError(_) => "storage error: ",
            ConfigError::SerializationError(_) => "serialization error: ",
            ConfigError::IoError(_) => "io error: ",
        };
        let mut text = String::from_str(prefix);
        text.append(self.detail().as_str());
        text
    }

    /// The HTTP status that answers a request failing with this error: 404
    /// for a missing project, environment or item, 401 without a valid key,
    /// 403 for a key of another project, 500 otherwise.
    pub fn status_code(&self) -> (r: u16)
        ensures
            r == self@.status(),
    {
        match self {
            ConfigError::ProjectNotFound(_) => 404,
            ConfigError::EnvironmentNotFound(_) => 404,
            ConfigError::ConfigItemNotFound(_) => 404,
            ConfigError::Unauthorized(_) => 401,
            ConfigError::Forbidden(_) => 403,
            _ => 500,
        }
    }
}

} // verus!
