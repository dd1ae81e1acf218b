//! What can go wrong while a feed is fetched and enriched.

use vstd::prelude::*;
use vstd::string::StringExecFns;

verus! {

/// A failure, with the message of its cause.
pub enum AppError {
    IO(String),
    Reqwest(String),
    UrlParseError(String),
    ScrapeError(String),
    RssError(String),
    JoinError(String),
}

impl AppError {
    /// The words that introduce each kind of failure.
    pub open spec fn prefix(&self) -> Seq<char> {
        match self {
            AppError::IO(_) => "IO error: "@,
            AppError::Reqwest(_) => "HTTP request error: "@,
            AppError::UrlParseError(_) => "Url error: "@,
            AppError::ScrapeError(_) => "ScraperError: "@,
            AppError::RssError(_) => "RssError: "@,
            AppError::JoinError(_) => "JoinError: "@,
        }
    }

    /// The message of the cause.
    pub open spec fn cause(&self) -> Seq<char> {
        match self {
            AppError::IO(cause) => cause@,
            AppError::Reqwest(cause) => cause@,
            AppError::UrlParseError(cause) => cause@,
            AppError::ScrapeError(cause) => cause@,
            AppError::RssError(cause) => cause@,
            AppError::JoinError(cause) => cause@,
        }
    }

    /// The failure in words: its kind, then the message of its cause.
    pub fn message(&self) -> (text: String)
        ensures
            text@ == self.prefix() + self.cause(),
    {
        match self {
            AppError::IO(cause) => String::from_str("IO error: ").concat(cause.as_str()),
            AppError::Reqwest(cause) => String::from_str("HTTP request error: ").concat(
                cause.as_str(),
            ),
            AppError::UrlParseError(cause) => String::from_str("Url error: ").concat(
                cause.as_str(),
            ),
            AppError::ScrapeError(cause) => String::from_str("ScraperError: ").concat(
                cause.as_str(),
            ),
            AppError::RssError(cause) => String::from_str("RssError: ").concat(cause.as_str()),
            AppError::JoinError(cause) => String::from_str("JoinError: ").concat(cause.as_str()),
        }
    }
}

} // verus!
