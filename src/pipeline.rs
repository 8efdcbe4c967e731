//! The decisions between the steps of writing or checking a license: whether
//! the target may be written, and which text to fetch for a key.
use vstd::prelude::*;
use crate::catalog::{
    get_license_by_key, get_license_text_url, has_key, is_first_match, text_url_of, License,
    LicenseError,
};
use crate::check::{compare, is_verdict, Verdict};
use crate::render::{fill_in_details, rendered};

verus! {

/// Whether the license may be written to the target: refused with
/// `DestinationExists` exactly when a file is there and overwriting it was not
/// allowed, in which case the file must be left untouched.
pub fn check_destination(exists: bool, overwrite: bool) -> (r: Result<(), LicenseError>)
    ensures
        r is Err <==> exists && !overwrite,
        r matches Err(e) ==> e == LicenseError::DestinationExists,
{
    if exists && !overwrite {
        Err(LicenseError::DestinationExists)
    } else {
        Ok(())
    }
}

/// The descriptor that `key` selects and the address of its text. When no
/// descriptor has the key the outcome is `NotFound`, and there is no address
/// to fetch.
pub fn locate_license_text<'a>(catalog: &'a Vec<License>, key: &str) -> (r: Result<
    (&'a License, String),
    LicenseError,
>)
    ensures
        r is Err <==> !has_key(catalog@, key@),
        r matches Err(e) ==> e == LicenseError::NotFound,
        r matches Ok((l, url)) ==> {
            &&& exists|i: int| is_first_match(catalog@, key@, i) && *l == #[trigger] catalog@[i]
            &&& url@ == text_url_of(key@)
        },
{
    match get_license_by_key(catalog, key) {
        Some(l) => {
            let url = get_license_text_url(l);
            Ok((l, url))
        },
        None => Err(LicenseError::NotFound),
    }
}

/// What a run does with the rendered text.
#[derive(Clone, Copy, Debug, PartialEq, Eq, Structural)]
pub enum Mode {
    /// Write it to the target file, replacing one that is there only when
    /// `overwrite` is set.
    Download { overwrite: bool },
    /// Compare it with the target file.
    Verify,
}

/// Where a run stands.
pub enum Stage {
    /// Nothing done yet.
    Start,
    /// Waiting for the catalog.
    AwaitingCatalog,
    /// The key was resolved to the license `name`; waiting for its text.
    AwaitingText { name: String },
    /// The text was rendered; waiting for it to be written.
    AwaitingWrite { name: String, text: String },
    /// The text was rendered; waiting for the target file's contents.
    AwaitingFile { name: String, text: String },
    /// The rendered text was written.
    Written,
    /// The target file was compared with the rendered text.
    Compared,
    /// The run stopped on this error.
    Failed(LicenseError),
}

/// What the surrounding program reports back after carrying out an action.
pub enum Event {
    /// The run begins; tells whether a file is at the target path.
    Begin { destination_exists: bool },
    /// The outcome of fetching and decoding the catalog.
    CatalogFetched(Result<Vec<License>, LicenseError>),
    /// The outcome of fetching a license text.
    TextFetched(Result<String, LicenseError>),
    /// The outcome of writing the target file.
    Stored(Result<(), LicenseError>),
    /// The outcome of reading the target file.
    FileRead(Result<String, LicenseError>),
}

/// What the surrounding program is to do next.
pub enum Action {
    /// Fetch and decode the catalog.
    FetchCatalog,
    /// Fetch the text of the license `name` from `url`.
    FetchText { name: String, url: String },
    /// Write `text` to the target file.
    Write { text: String },
    /// Read the target file.
    ReadFile,
    /// The license `name` was written.
    Saved { name: String },
    /// The target file was checked against the license `name`.
    Report { name: String, verdict: Verdict },
    /// Stop with this error.
    Fail(LicenseError),
    /// The event does not fit the stage; nothing to do.
    Idle,
}

/// One run of writing or checking a license.
pub struct Session {
    pub mode: Mode,
    /// The key of the license asked for.
    pub key: String,
    /// The copyright holder to fill in.
    pub holder: String,
    pub stage: Stage,
}

impl Session {
    /// A run that has not started.
    pub fn new(mode: Mode, key: String, holder: String) -> (s: Session)
        ensures
            s.mode == mode,
            s.key@ == key@,
            s.holder@ == holder@,
            s.stage is Start,
    {
        Session { mode, key, holder, stage: Stage::Start }
    }
}

/// The transition of a run on one event: the next stage and the action that
/// goes with it. The run advances one step at a time in a fixed order; each
/// failure ends it with that failure. An event that does not fit the stage,
/// or comes after the end, changes nothing.
pub fn advance(session: Session, event: Event) -> (r: (Session, Action))
    ensures
        r.0.mode == session.mode,
        r.0.key@ == session.key@,
        r.0.holder@ == session.holder@,
        match (session.stage, event) {
            (Stage::Start, Event::Begin { destination_exists }) => {
                if session.mode matches Mode::Download { overwrite } && destination_exists
                    && !overwrite {
                    &&& r.0.stage == Stage::Failed(LicenseError::DestinationExists)
                    &&& r.1 == Action::Fail(LicenseError::DestinationExists)
                } else {
                    &&& r.0.stage is AwaitingCatalog
                    &&& r.1 is FetchCatalog
                }
            },
            (Stage::AwaitingCatalog, Event::CatalogFetched(Err(e))) => {
                &&& r.0.stage == Stage::Failed(e)
                &&& r.1 == Action::Fail(e)
            },
            (Stage::AwaitingCatalog, Event::CatalogFetched(Ok(c))) => {
                if has_key(c@, session.key@) {
                    exists|i: int|
                        #![trigger c@[i]]
                        {
                            &&& is_first_match(c@, session.key@, i)
                            &&& r.0.stage matches Stage::AwaitingText { name: n }
                            &&& n@ == c@[i].name@
                            &&& r.1 matches Action::FetchText { name, url }
                            &&& name@ == c@[i].name@
                            &&& url@ == text_url_of(session.key@)
                        }
                } else {
                    &&& r.0.stage == Stage::Failed(LicenseError::NotFound)
                    &&& r.1 == Action::Fail(LicenseError::NotFound)
                }
            },
            (Stage::AwaitingText { name }, Event::TextFetched(Err(e))) => {
                &&& r.0.stage == Stage::Failed(e)
                &&& r.1 == Action::Fail(e)
            },
            (Stage::AwaitingText { name }, Event::TextFetched(Ok(body))) => {
                exists|year: i32|
                    #![trigger rendered(body@, year as int, session.holder@)]
                    {
                        let text = rendered(body@, year as int, session.holder@);
                        if session.mode is Download {
                            &&& r.0.stage matches Stage::AwaitingWrite { name: n, text: t }
                            &&& n@ == name@ && t@ == text
                            &&& r.1 matches Action::Write { text: w }
                            &&& w@ == text
                        } else {
                            &&& r.0.stage matches Stage::AwaitingFile { name: n, text: t }
                            &&& n@ == name@ && t@ == text
                            &&& r.1 is ReadFile
                        }
                    }
            },
            (Stage::AwaitingWrite { name, text }, Event::Stored(Ok(()))) => {
                &&& r.0.stage is Written
                &&& r.1 matches Action::Saved { name: n }
                &&& n@ == name@
            },
            (Stage::AwaitingWrite { name, text }, Event::Stored(Err(e))) => {
                &&& r.0.stage == Stage::Failed(e)
                &&& r.1 == Action::Fail(e)
            },
            (Stage::AwaitingFile { name, text }, Event::FileRead(Ok(contents))) => {
                &&& r.0.stage is Compared
                &&& r.1 matches Action::Report { name: n, verdict }
                &&& n@ == name@
                &&& is_verdict(verdict, text@, contents@)
            },
            (Stage::AwaitingFile { name, text }, Event::FileRead(Err(e))) => {
                &&& r.0.stage == Stage::Failed(e)
                &&& r.1 == Action::Fail(e)
            },
            (stage, _) => {
                &&& r.0.stage == stage
                &&& r.1 is Idle
            },
        },
{
    let Session { mode, key, holder, stage } = session;
    let (next, action) = match (stage, event) {
        (Stage::Start, Event::Begin { destination_exists }) => {
            let overwrite = match mode {
                Mode::Download { overwrite } => overwrite,
                Mode::Verify => true,
            };
            match check_destination(destination_exists, overwrite) {
                Ok(()) => (Stage::AwaitingCatalog, Action::FetchCatalog),
                Err(e) => (Stage::Failed(e), Action::Fail(e)),
            }
        },
        (Stage::AwaitingCatalog, Event::CatalogFetched(Err(e))) => (Stage::Failed(e), Action::Fail(e)),
        (Stage::AwaitingCatalog, Event::CatalogFetched(Ok(c))) => {
            match locate_license_text(&c, key.as_str()) {
                Ok((l, url)) => {
                    let name = l.name.clone();
                    let shown = l.name.clone();
                    (Stage::AwaitingText { name }, Action::FetchText { name: shown, url })
                },
                Err(e) => (Stage::Failed(e), Action::Fail(e)),
            }
        },
        (Stage::AwaitingText { name }, Event::TextFetched(Err(e))) => (Stage::Failed(e), Action::Fail(e)),
        (Stage::AwaitingText { name }, Event::TextFetched(Ok(body))) => {
            let text = fill_in_details(body.as_str(), holder.as_str());
            match mode {
                Mode::Download { .. } => {
                    let out = text.clone();
                    (Stage::AwaitingWrite { name, text }, Action::Write { text: out })
                },
                Mode::Verify => (Stage::AwaitingFile { name, text }, Action::ReadFile),
            }
        },
        (Stage::AwaitingWrite { name, text }, Event::Stored(Ok(()))) => (
            Stage::Written,
            Action::Saved { name },
        ),
        (Stage::AwaitingWrite { name, text }, Event::Stored(Err(e))) => (Stage::Failed(e), Action::Fail(e)),
        (Stage::AwaitingFile { name, text }, Event::FileRead(Ok(contents))) => {
            let verdict = compare(text.as_str(), contents.as_str());
            (Stage::Compared, Action::Report { name, verdict })
        },
        (Stage::AwaitingFile { name, text }, Event::FileRead(Err(e))) => (Stage::Failed(e), Action::Fail(e)),
        (stage, _) => (stage, Action::Idle),
    };
    (Session { mode, key, holder, stage: next }, action)
}

} // verus!
