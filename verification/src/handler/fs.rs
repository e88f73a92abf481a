//! Serving a single file, or the files below a directory.

use crate::config::{DirRoute, FileRoute};
use crate::error;
use crate::handler::{Outcome, OutcomeView};
use crate::method::{Method, MethodFilter, MethodSet};
use crate::path::{decode, percent_decoded};
use crate::request::Request;
use crate::response::{
    decimal, decimal_text, status_only, Response, ResponseView, BAD_REQUEST,
    INTERNAL_SERVER_ERROR, METHOD_NOT_ALLOWED, NOT_FOUND, OK,
};
use vstd::prelude::*;

verus! {

/// A piece of a file-system path.
#[derive(Debug)]
pub enum Component {
    /// A drive or volume marker.
    Prefix,
    /// The root of the file system.
    RootDir,
    /// `.`
    CurDir,
    /// `..`
    ParentDir,
    /// A name.
    Normal(String),
}

/// How reading a file ended.
#[derive(Debug)]
pub enum FileRead {
    /// The file was read, and these are its bytes.
    Contents(Vec<u8>),
    /// There is no such file.
    NotFound,
    /// The file could not be read for any other reason.
    Failed,
}

/// Serves one file with `GET`.
#[derive(Debug)]
pub struct FileHandler {
    pub config: FileRoute,
}

/// Serves the files below a directory with `GET`.
#[derive(Debug)]
pub struct DirHandler {
    pub config: DirRoute,
}

/// Whether `name` is a file name as a handler takes it: it is not empty,
/// neither `.` nor `..`, and holds no `/`.
pub open spec fn is_file_name(name: Seq<char>) -> bool {
    &&& name.len() > 0
    &&& name != seq!['.']
    &&& name != seq!['.', '.']
    &&& forall|j: int| 0 <= j < name.len() ==> name[j] != '/'
}

/// Whether a piece of a path is refused wherever it stands: a prefix, or a
/// name that is no file name.
pub open spec fn refused(piece: Component) -> bool {
    match piece {
        Component::Prefix => true,
        Component::Normal(name) => !is_file_name(name@),
        _ => false,
    }
}

/// `std::path::Path::components`: the pieces of the path as the platform
/// reads it. Separators and prefixes differ between platforms, so nothing is
/// claimed of the pieces.
#[verifier::external_body]
fn path_components(path: &str) -> (r: Vec<Component>) {
    std::path::Path::new(path).components().map(
        |piece| match piece {
            std::path::Component::Prefix(_) => Component::Prefix,
            std::path::Component::RootDir => Component::RootDir,
            std::path::Component::CurDir => Component::CurDir,
            std::path::Component::ParentDir => Component::ParentDir,
            std::path::Component::Normal(name) => Component::Normal(
                name.to_string_lossy().into_owned(),
            ),
        },
    ).collect()
}

/// The media type that goes with a file extension, whatever its case, and
/// `application/octet-stream` where none is known to go with it.
pub uninterp spec fn extension_media_type(extension: Seq<char>) -> Seq<char>;

/// `mime_guess::from_ext` and `first_or_octet_stream` on what it returns:
/// the first media type that the table of the crate holds for the
/// extension.
#[verifier::external_body]
fn guess_media_type(extension: &str) -> (r: String)
    ensures
        r@ == extension_media_type(extension@),
{
    mime_guess::from_ext(extension).first_or_octet_stream().as_ref().to_owned()
}

/// Where the last `.` of `name` stands, or -1 where it has none.
pub open spec fn last_dot(name: Seq<char>) -> int
    decreases name.len(),
{
    if name.len() == 0 {
        -1
    } else if name.last() == '.' {
        name.len() - 1
    } else {
        last_dot(name.drop_last())
    }
}

/// The extension of a file name: what follows its last `.`, and nothing
/// where the name has no `.` or only the one that it starts with.
pub open spec fn extension_of(name: Seq<char>) -> Seq<char> {
    if last_dot(name) <= 0 {
        Seq::empty()
    } else {
        name.skip(last_dot(name) + 1)
    }
}

/// The extension of a file name.
pub fn extension(name: &str) -> (r: &str)
    ensures
        r@ == extension_of(name@),
{
    let len = name.unicode_len();
    let mut dot: usize = 0;
    let mut i: usize = 0;
    proof {
        assert(name@.take(0) == Seq::<char>::empty());
    }
    for c in it: name.chars()
        invariant
            len == name@.len(),
            it.seq() == name@,
            i == it.index(),
            dot <= i,
            last_dot(name@.take(i as int)) == dot - 1,
    {
        proof {
            assert(name@.take(i + 1).drop_last() == name@.take(i as int));
            assert(name@.take(i + 1).last() == c);
        }
        if c == '.' {
            dot = i + 1;
        }
        i = i + 1;
    }
    proof {
        assert(name@.take(i as int) == name@);
    }
    if dot <= 1 {
        name.substring_char(len, len)
    } else {
        name.substring_char(dot, len)
    }
}

/// The names that are left of a path once each `..` has taken back the name
/// before it and `.` and root markers are dropped; `None` where the path has
/// a prefix, a name that is no file name, or a `..` with no name to take
/// back.
pub open spec fn sanitized(components: Seq<Component>) -> Option<Seq<Seq<char>>>
    decreases components.len(),
{
    if components.len() == 0 {
        Some(Seq::empty())
    } else {
        match sanitized(components.drop_last()) {
            None => None,
            Some(names) => match components.last() {
                Component::Prefix => None,
                Component::ParentDir => if names.len() > 0 {
                    Some(names.drop_last())
                } else {
                    None
                },
                Component::RootDir => Some(names),
                Component::CurDir => Some(names),
                Component::Normal(name) => if is_file_name(name@) {
                    Some(names.push(name@))
                } else {
                    None
                },
            },
        }
    }
}

/// How many names deep below its start a path ends: the number of its names
/// less the number of its `..` pieces.
pub open spec fn depth(components: Seq<Component>) -> int
    decreases components.len(),
{
    if components.len() == 0 {
        0
    } else {
        depth(components.drop_last()) + match components.last() {
            Component::ParentDir => -1int,
            Component::Normal(_) => 1int,
            _ => 0int,
        }
    }
}

/// Whether a path has no prefix, only file names for names, and at no point
/// leads above its start.
pub open spec fn stays_inside(components: Seq<Component>) -> bool {
    &&& forall|i: int| 0 <= i < components.len() ==> !refused(#[trigger] components[i])
    &&& forall|k: int| 0 <= k <= components.len() ==> depth(#[trigger] components.take(k)) >= 0
}

/// A path is sanitized exactly when it stays inside its start. Then as many
/// names are left as the path ends deep, and each of them is a file name.
pub proof fn lemma_sanitized_stays_inside(components: Seq<Component>)
    ensures
        sanitized(components) is Some <==> stays_inside(components),
        sanitized(components) is Some ==> sanitized(components)->0.len() == depth(components),
        sanitized(components) is Some ==> forall|i: int|
            0 <= i < sanitized(components)->0.len() ==> is_file_name(
                #[trigger] sanitized(components)->0[i],
            ),
    decreases components.len(),
{
    if components.len() == 0 {
        assert forall|k: int| 0 <= k <= components.len() implies depth(
            #[trigger] components.take(k),
        ) >= 0 by {
            assert(components.take(k) == components);
        }
    } else {
        let front = components.drop_last();
        let n = components.len() as int;
        lemma_sanitized_stays_inside(front);
        assert(components.take(n) == components);
        assert(components.take(n - 1) == front);
        assert forall|k: int| 0 <= k < n implies components.take(k) == front.take(k) by {}
        if stays_inside(components) {
            assert forall|k: int| 0 <= k <= front.len() implies depth(#[trigger] front.take(k))
                >= 0 by {
                assert(components.take(k) == front.take(k));
            }
            assert forall|i: int| 0 <= i < front.len() implies !refused(#[trigger] front[i]) by {
                assert(front[i] == components[i]);
            }
            assert(stays_inside(front));
            assert(!refused(components[n - 1]));
            assert(depth(components.take(n)) >= 0);
        }
        if sanitized(components) is Some {
            assert(stays_inside(front));
            assert forall|k: int| 0 <= k <= n implies depth(#[trigger] components.take(k))
                >= 0 by {
                if k < n {
                    assert(components.take(k) == front.take(k));
                }
            }
            assert forall|i: int| 0 <= i < n implies !refused(#[trigger] components[i]) by {
                if i < n - 1 {
                    assert(front[i] == components[i]);
                }
            }
        }
    }
}

/// Whether `name` is a file name: not empty, neither `.` nor `..`, and
/// without a `/`.
pub fn names_a_file(name: &str) -> (r: bool)
    ensures
        r == is_file_name(name@),
{
    let len = name.unicode_len();
    if len == 0 {
        return false;
    }
    if name.get_char(0) == '.' && (len == 1 || (len == 2 && name.get_char(1) == '.')) {
        proof {
            if len == 1 {
                assert(name@ =~= seq!['.']);
            } else {
                assert(name@ =~= seq!['.', '.']);
            }
        }
        return false;
    }
    let mut plain = true;
    for c in it: name.chars()
        invariant
            it.seq() == name@,
            plain == forall|j: int| 0 <= j < it.index() ==> name@[j] != '/',
    {
        if c == '/' {
            plain = false;
        }
    }
    plain
}

/// Drops what does not name a file below the start of the path, and refuses
/// a path that leaves its start or holds a name that is no file name. The
/// names that come back are file names.
pub fn sanitize(components: Vec<Component>) -> (r: Option<Vec<String>>)
    ensures
        match r {
            Some(names) => sanitized(components@) == Some(names.deep_view()),
            None => sanitized(components@) is None,
        },
        r matches Some(names) ==> forall|i: int|
            0 <= i < names.len() ==> is_file_name(#[trigger] names[i]@),
{
    proof {
        lemma_sanitized_stays_inside(components@);
    }
    let mut names: Vec<String> = Vec::new();
    let mut i: usize = 0;
    proof {
        assert(components@.take(0) == Seq::<Component>::empty());
        assert(names.deep_view() =~= Seq::empty());
    }
    while i < components.len()
        invariant
            i <= components.len(),
            sanitized(components@.take(i as int)) == Some(names.deep_view()),
        decreases components.len() - i,
    {
        proof {
            assert(components@.take(i + 1).drop_last() == components@.take(i as int));
            assert(components@.take(i + 1).last() == components@[i as int]);
        }
        let ghost before = names.deep_view();
        match &components[i] {
            Component::Prefix => {
                proof {
                    lemma_sanitized_prefix(components@, i + 1);
                }
                return None;
            },
            Component::ParentDir => {
                if names.pop().is_none() {
                    proof {
                        lemma_sanitized_prefix(components@, i + 1);
                    }
                    return None;
                }
                assert(names.deep_view() =~= before.drop_last());
            },
            Component::RootDir => {},
            Component::CurDir => {},
            Component::Normal(name) => {
                if !names_a_file(name.as_str()) {
                    proof {
                        lemma_sanitized_prefix(components@, i + 1);
                    }
                    return None;
                }
                names.push(name.clone());
                assert(names.deep_view() =~= before.push(name@));
            },
        }
        i = i + 1;
    }
    proof {
        assert(components@.take(i as int) == components@);
        let left = sanitized(components@)->0;
        assert(left == names.deep_view());
        assert forall|j: int| 0 <= j < names.len() implies is_file_name(#[trigger] names[j]@) by {
            assert(left.len() == names.len());
            assert(is_file_name(left[j]));
            assert(left[j] == names[j]@);
        }
    }
    Some(names)
}

/// A path of which a leading part is refused is refused.
proof fn lemma_sanitized_prefix(components: Seq<Component>, k: int)
    requires
        0 <= k <= components.len(),
        sanitized(components.take(k)) is None,
    ensures
        sanitized(components) is None,
    decreases components.len() - k,
{
    if k < components.len() {
        assert(components.take(k + 1).drop_last() == components.take(k));
        lemma_sanitized_prefix(components, k + 1);
    } else {
        assert(components.take(k) == components);
    }
}

/// The names of the file that `path` asks for, as far as it stays below its
/// start. The platform says what the pieces of the path are; whatever it
/// says, the names that come back are file names.
pub fn sanitize_path(path: &str) -> (r: Option<Vec<String>>)
    ensures
        exists|components: Seq<Component>|
            match r {
                Some(names) => #[trigger] sanitized(components) == Some(names.deep_view()),
                None => #[trigger] sanitized(components) is None,
            },
        r matches Some(names) ==> forall|i: int|
            0 <= i < names.len() ==> is_file_name(#[trigger] names[i]@),
{
    let components = path_components(path);
    sanitize(components)
}

/// The response that carries a file.
pub open spec fn file_found(contents: Seq<u8>, media_type: Seq<char>) -> ResponseView {
    ResponseView {
        status: OK,
        headers: seq![
            ("content-length"@, decimal_text(contents.len())),
            ("content-type"@, media_type),
        ],
        body: contents,
    }
}

/// The response for a file that was read: its contents, their length, and
/// the media type that goes with the file.
pub fn found(contents: Vec<u8>, media_type: String) -> (r: Response)
    ensures
        r@ == file_found(contents@, media_type@),
{
    let mut headers: Vec<(String, String)> = Vec::new();
    headers.push((String::from_str("content-length"), decimal(contents.len())));
    headers.push((String::from_str("content-type"), media_type));
    let r = Response { status: OK, headers, body: contents };
    assert(r.headers.deep_view() =~= seq![
        ("content-length"@, decimal_text(contents@.len())),
        ("content-type"@, media_type@),
    ]);
    r
}

/// What `file_response` answers for a file of the given name.
pub open spec fn file_answer(name: Seq<char>, read: FileRead) -> ResponseView {
    match read {
        FileRead::Contents(contents) => file_found(
            contents@,
            extension_media_type(extension_of(name)),
        ),
        FileRead::NotFound => status_only(NOT_FOUND),
        FileRead::Failed => status_only(INTERNAL_SERVER_ERROR),
    }
}

/// The response for the file named `name`, the last name of its path, given
/// how reading it ended: the contents with the media type that goes with
/// the extension of the name, 404 for a missing file, and 500 for any other
/// failure.
pub fn file_response(name: &str, read: FileRead) -> (r: Response)
    ensures
        r@ == file_answer(name@, read),
{
    match read {
        FileRead::Contents(contents) => {
            let media_type = guess_media_type(extension(name));
            found(contents, media_type)
        },
        FileRead::NotFound => error::from_status(NOT_FOUND),
        FileRead::Failed => error::from_status(INTERNAL_SERVER_ERROR),
    }
}

/// File and directory routes take `GET` only.
pub fn default_method_filter() -> (r: MethodFilter)
    ensures
        r matches MethodFilter::MatchSet(set) && set@ == set!["GET"@],
{
    let mut set = MethodSet::new();
    set.insert(Method::get());
    assert(set@ =~= set!["GET"@]);
    MethodFilter::MatchSet(set)
}

impl FileHandler {
    /// The handler of a file route.
    pub fn new(config: FileRoute) -> (r: FileHandler)
        ensures
            r.config == config,
    {
        FileHandler { config }
    }

    /// What the handler makes of a request with the given method.
    pub open spec fn outcome(&self, method: Seq<char>) -> OutcomeView {
        if method != "GET"@ {
            OutcomeView::Decline(status_only(METHOD_NOT_ALLOWED))
        } else {
            OutcomeView::ReadFile { base: self.config.path@, components: Seq::empty() }
        }
    }

    /// Declines anything but `GET`, and answers `GET` with the configured
    /// file.
    pub fn handle(&self, request: &Request) -> (r: Outcome)
        ensures
            r@ == self.outcome(request.method@),
    {
        if !request.method.same(&Method::get()) {
            return Outcome::Decline(error::from_status(METHOD_NOT_ALLOWED));
        }
        let components: Vec<String> = Vec::new();
        assert(components.deep_view() =~= Seq::empty());
        Outcome::ReadFile { base: self.config.path.clone(), components }
    }
}

impl DirHandler {
    /// The handler of a directory route.
    pub fn new(config: DirRoute) -> (r: DirHandler)
        ensures
            r.config == config,
    {
        DirHandler { config }
    }

    /// What the handler makes of a path with the given pieces.
    pub open spec fn located(&self, components: Seq<Component>) -> OutcomeView {
        match sanitized(components) {
            Some(names) => OutcomeView::ReadFile { base: self.config.path@, components: names },
            None => OutcomeView::Respond(status_only(NOT_FOUND)),
        }
    }

    /// The file that the pieces of a path name, by the directory and the
    /// file names to follow from there, or 404 where the pieces are refused.
    pub fn locate(&self, components: Vec<Component>) -> (r: Outcome)
        ensures
            r@ == self.located(components@),
    {
        match sanitize(components) {
            Some(names) => Outcome::ReadFile { base: self.config.path.clone(), components: names },
            None => Outcome::Respond(error::from_status(NOT_FOUND)),
        }
    }

    /// Whether `outcome` is what the handler may make of a request for
    /// `path`: for each method and path there is one outcome, but for the
    /// pieces that the platform reads the decoded path as.
    pub open spec fn handled(&self, method: Seq<char>, path: Seq<char>, outcome: OutcomeView) -> bool {
        if method != "GET"@ {
            outcome == OutcomeView::Decline(status_only(METHOD_NOT_ALLOWED))
        } else if percent_decoded(path) is None {
            outcome == OutcomeView::Respond(status_only(BAD_REQUEST))
        } else {
            exists|components: Seq<Component>| outcome == #[trigger] self.located(components)
        }
    }

    /// Declines anything but `GET`. Answers `GET` with 400 where `path` does
    /// not percent-decode, and else with the file that the decoded path
    /// names, or 404 where its pieces are refused. The file is named by the
    /// directory and by file names to follow from there: none of them is
    /// empty, `.` or `..`, and none holds a `/`.
    pub fn handle(&self, request: &Request, path: &str) -> (r: Outcome)
        ensures
            self.handled(request.method@, path@, r@),
            r@ matches OutcomeView::ReadFile { base, components } ==> base == self.config.path@
                && forall|i: int| 0 <= i < components.len() ==> is_file_name(
                    #[trigger] components[i],
                ),
    {
        if !request.method.same(&Method::get()) {
            return Outcome::Decline(error::from_status(METHOD_NOT_ALLOWED));
        }
        let decoded = match decode(path) {
            Some(decoded) => decoded,
            None => {
                return Outcome::Respond(error::from_status(BAD_REQUEST));
            },
        };
        let components = path_components(decoded.as_str());
        let ghost pieces = components@;
        proof {
            lemma_sanitized_stays_inside(pieces);
        }
        let r = self.locate(components);
        assert(r@ == self.located(pieces));
        r
    }
}

} // verus!
