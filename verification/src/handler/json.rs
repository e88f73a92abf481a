//! A JSON document held in memory, read with `GET` and changed with `PATCH`,
//! and written back to its file after a change.

use crate::config::JsonRoute;
use crate::document::{
    apply_patch, copy_of, json_parsed, json_patched, json_pointer, json_pretty, json_replaced, json_text,
    lookup, lookup_mut, parse_patch, parse_value, patch_parsed, to_pretty, to_text, PatchFailure,
};
use crate::path::{decode, percent_decoded};
use crate::handler::{Outcome, OutcomeView};
use crate::method::{Method, MethodFilter, MethodSet};
use crate::request::Request;
use crate::response;
use crate::response::{
    json_response, status_only, Response, ResponseView, BAD_REQUEST, CONFLICT,
    INTERNAL_SERVER_ERROR, METHOD_NOT_ALLOWED, NOT_FOUND, UNSUPPORTED_MEDIA_TYPE,
};
use serde_json::Value;
use vstd::prelude::*;

verus! {

/// Subtype and suffix of a media type, in lower case.
#[derive(Debug)]
pub struct MediaType {
    pub subtype: String,
    pub suffix: Option<String>,
}

/// Subtype and `+suffix` of the media type that `text` spells, in lower
/// case; `None` where `text` spells none.
pub uninterp spec fn media_type_parsed(text: Seq<char>) -> Option<(Seq<char>, Option<Seq<char>>)>;

/// `mime::Mime::from_str`, with `subtype` and `suffix` of what it returns.
#[verifier::external_body]
fn parse_media_type(text: &str) -> (r: Option<MediaType>)
    ensures
        match r {
            Some(media_type) => media_type_parsed(text@) == Some(
                (media_type.subtype@, media_type.suffix.deep_view()),
            ),
            None => media_type_parsed(text@) is None,
        },
{
    match text.parse::<mime::Mime>() {
        Ok(parsed) => Some(
            MediaType {
                subtype: parsed.subtype().as_str().to_owned(),
                suffix: parsed.suffix().map(|suffix| suffix.as_str().to_owned()),
            },
        ),
        Err(_) => None,
    }
}

/// Whether the document in memory is the one on disk.
#[derive(Copy, Clone, Debug, PartialEq, Eq, Structural)]
pub enum Persistence {
    /// The file holds the document.
    Clean,
    /// The document has changed and the change is signalled to the writer.
    Signalled,
    /// The document has changed; the writer has taken the signal and has not
    /// yet written the document out, or has failed to.
    Unsaved,
}

/// The stored document and how it relates to its file.
#[derive(Debug)]
pub struct State {
    value: Value,
    persistence: Persistence,
}

/// What a store holds.
pub struct StateView {
    pub document: Seq<char>,
    pub persistence: Persistence,
}

impl View for State {
    type V = StateView;

    closed spec fn view(&self) -> StateView {
        StateView { document: json_text(self.value), persistence: self.persistence }
    }
}

/// Reads and patches the document of a store. The handler holds the
/// settings only: the store is handed to it with each request, so that many
/// requests can read it at once and one at a time can change it.
#[derive(Debug)]
pub struct JsonHandler {
    pub config: JsonRoute,
}

/// A JSON route takes `GET` and `PATCH`.
pub fn default_method_filter() -> (r: MethodFilter)
    ensures
        r matches MethodFilter::MatchSet(set) && set@ == set!["GET"@, "PATCH"@],
{
    let mut set = MethodSet::new();
    set.insert(Method::get());
    set.insert(Method::patch());
    assert(set@ =~= set!["GET"@, "PATCH"@]);
    MethodFilter::MatchSet(set)
}

/// Whether subtype or suffix of a media type is `json`.
pub open spec fn is_json(media_type: (Seq<char>, Option<Seq<char>>)) -> bool {
    media_type.0 == "json"@ || media_type.1 == Some("json"@)
}

/// The status that turns away a request with the given content type, if any:
/// 415 without a content type or with one that is not JSON, 400 with a
/// content type that is no media type.
pub open spec fn content_type_fault(content_type: Option<Seq<char>>) -> Option<u16> {
    match content_type {
        None => Some(UNSUPPORTED_MEDIA_TYPE),
        Some(text) => match media_type_parsed(text) {
            None => Some(BAD_REQUEST),
            Some(media_type) => if is_json(media_type) {
                None
            } else {
                Some(UNSUPPORTED_MEDIA_TYPE)
            },
        },
    }
}

/// Whether a media type says that the body is JSON.
pub fn accepts(media_type: &MediaType) -> (r: bool)
    ensures
        r == is_json((media_type.subtype@, media_type.suffix.deep_view())),
{
    let json = String::from_str("json");
    if media_type.subtype == json {
        return true;
    }
    match &media_type.suffix {
        Some(suffix) => *suffix == json,
        None => false,
    }
}

/// Checks that the request says that its body is JSON.
pub fn json_request(request: &Request) -> (r: Result<(), Response>)
    ensures
        match r {
            Ok(()) => content_type_fault(request.content_type.deep_view()) is None,
            Err(response) => content_type_fault(request.content_type.deep_view()) matches Some(
                status,
            ) && response@ == status_only(status),
        },
{
    match &request.content_type {
        None => Err(response::from_status(UNSUPPORTED_MEDIA_TYPE)),
        Some(text) => match parse_media_type(text.as_str()) {
            None => Err(response::from_status(BAD_REQUEST)),
            Some(media_type) => if accepts(&media_type) {
                Ok(())
            } else {
                Err(response::from_status(UNSUPPORTED_MEDIA_TYPE))
            },
        },
    }
}

/// The response to a patch that was not applied: 409 for a failed test, 404
/// for a pointer that addresses nothing.
pub fn failure_response(failure: PatchFailure) -> (r: Response)
    ensures
        r@ == status_only(
            match failure {
                PatchFailure::TestFailed => CONFLICT,
                PatchFailure::InvalidPointer => NOT_FOUND,
            },
        ),
{
    match failure {
        PatchFailure::TestFailed => response::from_status(CONFLICT),
        PatchFailure::InvalidPointer => response::from_status(NOT_FOUND),
    }
}

/// What a patch request does: the status that turns it away, or the new
/// document together with its patched part. The body has to spell a patch
/// (400), the pointer has to address a part of the document (404), and the
/// patch has to apply to that part (409 for a failed test, 404 for a pointer
/// in the patch that addresses nothing).
pub open spec fn patch_effect(document: Seq<char>, pointer: Seq<char>, body: Seq<u8>) -> Result<
    (Seq<char>, Seq<char>),
    u16,
> {
    match patch_parsed(body) {
        None => Err(BAD_REQUEST),
        Some(patch) => match json_pointer(document, pointer) {
            None => Err(NOT_FOUND),
            Some(part) => match json_patched(part, patch) {
                Err(PatchFailure::TestFailed) => Err(CONFLICT),
                Err(PatchFailure::InvalidPointer) => Err(NOT_FOUND),
                Ok(patched) => Ok((json_replaced(document, pointer, patched), patched)),
            },
        },
    }
}

impl State {
    /// The store of the document that `contents` spell, as it is on disk.
    pub fn new(contents: &[u8]) -> (r: Option<State>)
        ensures
            match r {
                Some(state) => json_parsed(contents@) == Some(state@.document) && state@.persistence
                    == Persistence::Clean,
                None => json_parsed(contents@) is None,
            },
    {
        match parse_value(contents) {
            Some(value) => Some(State { value, persistence: Persistence::Clean }),
            None => None,
        }
    }

    /// How the document relates to its file.
    pub fn persistence(&self) -> (r: Persistence)
        ensures
            r == self@.persistence,
    {
        self.persistence
    }

    /// The bytes that go to the file: the indented text of the document, or
    /// its compact text.
    pub open spec fn file_bytes(&self, pretty: bool) -> Seq<u8> {
        if pretty {
            json_pretty(self@.document)
        } else {
            vstd::utf8::encode_utf8(self@.document)
        }
    }

    /// Puts the text of the document into `buf`, indented or compact, in
    /// place of whatever `buf` held.
    pub fn fill_buf(&self, pretty: bool, buf: &mut Vec<u8>)
        ensures
            final(buf)@ == self.file_bytes(pretty),
    {
        let mut bytes = if pretty {
            to_pretty(&self.value)
        } else {
            to_text(&self.value).as_str().as_bytes_vec()
        };
        buf.clear();
        buf.append(&mut bytes);
    }

    /// The writer's step after a wake-up: takes the signal of a change, where
    /// there is one, and says whether there was. The document is then to be
    /// written out, as `fill_buf` gives it at that time.
    pub fn take_signal(&mut self) -> (r: bool)
        ensures
            r == (old(self)@.persistence == Persistence::Signalled),
            final(self)@.document == old(self)@.document,
            final(self)@.persistence == if r {
                Persistence::Unsaved
            } else {
                old(self)@.persistence
            },
    {
        if self.persistence == Persistence::Signalled {
            self.persistence = Persistence::Unsaved;
            true
        } else {
            false
        }
    }

    /// The writer's step after a wake-up, with the serialising in it. Where
    /// a change is signalled, it takes the signal, leaves in `buf` the text
    /// of the document and nothing else, and returns `true`: the caller then
    /// overwrites the file with `buf`. Else nothing changes.
    pub fn begin_flush(&mut self, pretty: bool, buf: &mut Vec<u8>) -> (r: bool)
        ensures
            r == (old(self)@.persistence == Persistence::Signalled),
            final(self)@.document == old(self)@.document,
            r ==> final(self)@.persistence == Persistence::Unsaved && final(buf)@ == old(
                self,
            ).file_bytes(pretty),
            !r ==> final(self)@.persistence == old(self)@.persistence && final(buf)@ == old(buf)@,
    {
        if self.take_signal() {
            self.fill_buf(pretty, buf);
            true
        } else {
            false
        }
    }

    /// The writer's step after it has tried to overwrite the file. The store
    /// is clean again where the file was written and no change came in
    /// meanwhile; else it stays as it is, and the next signal brings the next
    /// attempt.
    pub fn finish_flush(&mut self, written: bool)
        ensures
            final(self)@.document == old(self)@.document,
            final(self)@.persistence == if written && old(self)@.persistence == Persistence::Unsaved {
                Persistence::Clean
            } else {
                old(self)@.persistence
            },
    {
        if written && self.persistence == Persistence::Unsaved {
            self.persistence = Persistence::Clean;
        }
    }
}

impl JsonHandler {
    /// The handler of a JSON route.
    pub fn new(config: JsonRoute) -> (r: JsonHandler)
        ensures
            r.config == config,
    {
        JsonHandler { config }
    }

    /// What the handler makes of a request with the given method and content
    /// type whose path decodes to `pointer`.
    pub open spec fn decoded_outcome(
        method: Seq<char>,
        content_type: Option<Seq<char>>,
        pointer: Seq<char>,
    ) -> OutcomeView {
        if method == "GET"@ {
            OutcomeView::JsonGet { pointer }
        } else if method == "PATCH"@ {
            match content_type_fault(content_type) {
                Some(status) => OutcomeView::Respond(status_only(status)),
                None => OutcomeView::JsonPatch { pointer },
            }
        } else {
            OutcomeView::Decline(status_only(METHOD_NOT_ALLOWED))
        }
    }

    /// What the handler makes of a request for `path`.
    pub open spec fn outcome(
        method: Seq<char>,
        content_type: Option<Seq<char>>,
        path: Seq<char>,
    ) -> OutcomeView {
        match percent_decoded(path) {
            None => OutcomeView::Respond(status_only(BAD_REQUEST)),
            Some(pointer) => Self::decoded_outcome(method, content_type, pointer),
        }
    }

    /// Reads the percent-decoded `path` as a pointer into the document.
    /// `GET` asks for the part at the pointer, `PATCH` with a JSON content
    /// type for a patch of that part; any other method is declined. A path
    /// that does not decode is answered with 400 whatever the method.
    pub fn handle(&self, request: &Request, path: &str) -> (r: Outcome)
        ensures
            r@ == Self::outcome(request.method@, request.content_type.deep_view(), path@),
    {
        match decode(path) {
            Some(pointer) => self.handle_decoded(request, pointer),
            None => Outcome::Respond(response::from_status(BAD_REQUEST)),
        }
    }

    /// What the handler makes of a request whose path decodes to `pointer`.
    pub fn handle_decoded(&self, request: &Request, pointer: String) -> (r: Outcome)
        ensures
            r@ == Self::decoded_outcome(
                request.method@,
                request.content_type.deep_view(),
                pointer@,
            ),
    {
        if request.method.same(&Method::get()) {
            Outcome::JsonGet { pointer }
        } else if request.method.same(&Method::patch()) {
            match json_request(request) {
                Ok(()) => Outcome::JsonPatch { pointer },
                Err(response) => Outcome::Respond(response),
            }
        } else {
            Outcome::Decline(response::from_status(METHOD_NOT_ALLOWED))
        }
    }

    /// The response to a `GET` for the part of `document` at `pointer`.
    pub open spec fn got(document: Seq<char>, pointer: Seq<char>) -> ResponseView {
        match json_pointer(document, pointer) {
            Some(part) => json_response(part),
            None => status_only(NOT_FOUND),
        }
    }

    /// Answers with the part of the document at the pointer, or with 404
    /// where the pointer addresses nothing.
    pub fn handle_get(&self, state: &State, path: &str) -> (r: Response)
        ensures
            r@ == Self::got(state@.document, path@),
    {
        match lookup(&state.value, path) {
            Some(part) => response::json(part),
            None => response::from_status(NOT_FOUND),
        }
    }

    /// Applies the patch that `body` spells to the part of the document at
    /// the pointer. The patch is tried on a copy of the part. Either all of
    /// it applies: the copy takes the place of the part, the response carries
    /// it, a `GET` at the same pointer finds it from then on, and the change
    /// is signalled to the writer. Or the store stays as it is and the
    /// response says why.
    pub fn handle_patch(&self, state: &mut State, body: &[u8], path: &str) -> (r: Response)
        ensures
            match patch_effect(old(state)@.document, path@, body@) {
                Ok((document, part)) => {
                    &&& r@ == json_response(part)
                    &&& final(state)@.document == document
                    &&& json_pointer(final(state)@.document, path@) == Some(part)
                    &&& r@ == Self::got(final(state)@.document, path@)
                    &&& final(state)@.persistence == Persistence::Signalled
                },
                Err(status) => r@ == status_only(status) && *final(state) == *old(state),
            },
    {
        let patch = match parse_patch(body) {
            Some(patch) => patch,
            None => {
                return response::from_status(BAD_REQUEST);
            },
        };
        let response = match lookup_mut(&mut state.value, path) {
            Some(part) => {
                let mut patched = copy_of(part);
                match apply_patch(&mut patched, &patch) {
                    Ok(()) => {
                        let response = response::json(&patched);
                        *part = patched;
                        response
                    },
                    Err(failure) => {
                        return failure_response(failure);
                    },
                }
            },
            None => {
                return response::from_status(NOT_FOUND);
            },
        };
        state.persistence = Persistence::Signalled;
        response
    }
}

/// The response where the body of a request could not be read.
pub fn body_failure() -> (r: Response)
    ensures
        r@ == status_only(INTERNAL_SERVER_ERROR),
{
    response::from_status(INTERNAL_SERVER_ERROR)
}

} // verus!
