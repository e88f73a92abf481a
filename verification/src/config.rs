//! The configuration of the gateway: an ordered list of routes.

use crate::method::MethodSet;
use crate::response::{decimal, decimal_text};
use crate::route;
use crate::uri::Uri;
use serde_json::Value;
use vstd::prelude::*;

verus! {

/// What the file system holds at a configured path.
#[derive(Copy, Clone, Debug, PartialEq, Eq, Structural)]
pub enum PathKind {
    /// Nothing, or nothing that can be looked at.
    Missing,
    /// A regular file.
    File,
    /// A directory.
    Directory,
    /// Something that is neither.
    Other,
}

/// Why a route's own settings are not acceptable.
#[derive(Debug)]
pub enum Invalid {
    /// The path of a directory route is no directory.
    NotADirectory { path: String },
    /// The path of a file or JSON route is no file.
    NotAFile { path: String },
    /// The address of a proxy route has no scheme.
    MissingScheme,
    /// The address of a proxy route has no authority.
    MissingAuthority,
    /// The status of a mock route is no status code.
    InvalidStatus { status: u16 },
}

/// An unacceptable route, named by its pattern.
#[derive(Debug)]
pub struct ConfigError {
    pub route: String,
    pub reason: Invalid,
}

/// The routes, in the order in which they were written down.
#[derive(Debug)]
pub struct Config {
    pub routes: Vec<Route>,
}

/// One route: its pattern, what to do with a matching request, and what is
/// common to all kinds of routes.
#[derive(Debug)]
pub struct Route {
    /// The compiled pattern.
    pub route: route::Route,
    /// The template that the matched path is rewritten by, with `$N` for the
    /// N-th wildcard of the pattern.
    pub rewrite_path: Option<String>,
    /// Headers to merge into every response of the route, by name and value.
    pub response_headers: Vec<(String, String)>,
    /// The settings of the route's kind.
    pub kind: RouteKind,
    /// The methods that the route takes, where they are not those of its
    /// kind.
    pub methods: Option<MethodSet>,
}

/// What a route does with a request.
#[derive(Debug)]
pub enum RouteKind {
    /// Serves the files below a directory.
    Dir(DirRoute),
    /// Serves one file.
    File(FileRoute),
    /// Forwards to an upstream server.
    Proxy(ProxyRoute),
    /// Serves and patches a JSON document.
    Json(JsonRoute),
    /// Answers with a canned response.
    Mock(MockRoute),
}

/// The directory whose files a route serves.
#[derive(Debug)]
pub struct DirRoute {
    pub path: String,
}

/// The file that a route serves.
#[derive(Debug)]
pub struct FileRoute {
    pub path: String,
}

/// The file that holds the document of a route, and whether it is written
/// indented.
#[derive(Debug)]
pub struct JsonRoute {
    pub path: String,
    pub pretty: bool,
}

/// The upstream address of a route.
#[derive(Debug)]
pub struct ProxyRoute {
    pub uri: Uri,
}

/// The status and the JSON body, if any, of a canned response.
#[derive(Debug)]
pub struct MockRoute {
    pub status: u16,
    pub body: Option<Value>,
}

impl Invalid {
    /// What `message` returns.
    pub open spec fn text(&self) -> Seq<char> {
        match self {
            Invalid::NotADirectory { path } => "`"@ + path@ + "` is not a directory"@,
            Invalid::NotAFile { path } => "`"@ + path@ + "` is not a file"@,
            Invalid::MissingScheme => "url must include scheme"@,
            Invalid::MissingAuthority => "url must include authority"@,
            Invalid::InvalidStatus { status } => "`"@ + decimal_text(*status as nat)
                + "` is not a status code"@,
        }
    }

    /// A description of the fault.
    pub fn message(&self) -> (r: String)
        ensures
            r@ == self.text(),
    {
        match self {
            Invalid::NotADirectory { path } => {
                let mut text = String::from_str("`");
                text.append(path.as_str());
                text.append("` is not a directory");
                text
            },
            Invalid::NotAFile { path } => {
                let mut text = String::from_str("`");
                text.append(path.as_str());
                text.append("` is not a file");
                text
            },
            Invalid::MissingScheme => String::from_str("url must include scheme"),
            Invalid::MissingAuthority => String::from_str("url must include authority"),
            Invalid::InvalidStatus { status } => {
                let mut text = String::from_str("`");
                text.append(decimal(*status as usize).as_str());
                text.append("` is not a status code");
                text
            },
        }
    }
}

impl ConfigError {
    /// A description that names the route and then the fault.
    pub fn message(&self) -> (r: String)
        ensures
            r@ == "error in route `"@ + self.route@ + "`: "@ + self.reason.text(),
    {
        let mut text = String::from_str("error in route `");
        text.append(self.route.as_str());
        text.append("`: ");
        let reason = self.reason.message();
        text.append(reason.as_str());
        text
    }
}

impl DirRoute {
    /// The fault of the route, where the file system holds `kind` at its path.
    pub open spec fn fault(&self, kind: PathKind) -> Option<Invalid> {
        if kind == PathKind::Directory {
            None
        } else {
            Some(Invalid::NotADirectory { path: self.path })
        }
    }

    /// Accepts the route exactly when its path is a directory.
    pub fn validate(&self, kind: PathKind) -> (r: Result<(), Invalid>)
        ensures
            outcome(r) == self.fault(kind),
    {
        if kind == PathKind::Directory {
            Ok(())
        } else {
            Err(Invalid::NotADirectory { path: self.path.clone() })
        }
    }
}

impl FileRoute {
    /// The fault of the route, where the file system holds `kind` at its path.
    pub open spec fn fault(&self, kind: PathKind) -> Option<Invalid> {
        if kind == PathKind::File {
            None
        } else {
            Some(Invalid::NotAFile { path: self.path })
        }
    }

    /// Accepts the route exactly when its path is a file.
    pub fn validate(&self, kind: PathKind) -> (r: Result<(), Invalid>)
        ensures
            outcome(r) == self.fault(kind),
    {
        if kind == PathKind::File {
            Ok(())
        } else {
            Err(Invalid::NotAFile { path: self.path.clone() })
        }
    }
}

impl JsonRoute {
    /// The fault of the route, where the file system holds `kind` at its path.
    pub open spec fn fault(&self, kind: PathKind) -> Option<Invalid> {
        if kind == PathKind::File {
            None
        } else {
            Some(Invalid::NotAFile { path: self.path })
        }
    }

    /// Accepts the route exactly when its path is a file.
    pub fn validate(&self, kind: PathKind) -> (r: Result<(), Invalid>)
        ensures
            outcome(r) == self.fault(kind),
    {
        if kind == PathKind::File {
            Ok(())
        } else {
            Err(Invalid::NotAFile { path: self.path.clone() })
        }
    }
}

impl ProxyRoute {
    /// The fault of the route: an address without scheme, or else one
    /// without authority.
    pub open spec fn fault(&self) -> Option<Invalid> {
        if self.uri.scheme is None {
            Some(Invalid::MissingScheme)
        } else if self.uri.authority is None {
            Some(Invalid::MissingAuthority)
        } else {
            None
        }
    }

    /// Accepts the route exactly when its address has scheme and authority.
    pub fn validate(&self) -> (r: Result<(), Invalid>)
        ensures
            outcome(r) == self.fault(),
    {
        if self.uri.scheme.is_none() {
            Err(Invalid::MissingScheme)
        } else if self.uri.authority.is_none() {
            Err(Invalid::MissingAuthority)
        } else {
            Ok(())
        }
    }
}

impl MockRoute {
    /// The fault of the route: a status that is no status code.
    pub open spec fn fault(&self) -> Option<Invalid> {
        if 100 <= self.status < 1000 {
            None
        } else {
            Some(Invalid::InvalidStatus { status: self.status })
        }
    }

    /// Accepts the route exactly when its status is a status code, a number
    /// of three digits.
    pub fn validate(&self) -> (r: Result<(), Invalid>)
        ensures
            outcome(r) == self.fault(),
    {
        if 100 <= self.status && self.status < 1000 {
            Ok(())
        } else {
            Err(Invalid::InvalidStatus { status: self.status })
        }
    }
}

/// The error of a validation, if any.
pub open spec fn outcome<E>(r: Result<(), E>) -> Option<E> {
    match r {
        Ok(()) => None,
        Err(e) => Some(e),
    }
}

impl RouteKind {
    /// The fault of the settings, where the file system holds `kind` at the
    /// path they name. Proxy and mock routes name no path.
    pub open spec fn fault(&self, kind: PathKind) -> Option<Invalid> {
        match self {
            RouteKind::Dir(dir) => dir.fault(kind),
            RouteKind::File(file) => file.fault(kind),
            RouteKind::Proxy(proxy) => proxy.fault(),
            RouteKind::Json(json) => json.fault(kind),
            RouteKind::Mock(mock) => mock.fault(),
        }
    }
}

impl Route {
    /// Checks the settings of the route's kind.
    pub fn validate(&self, kind: PathKind) -> (r: Result<(), ConfigError>)
        ensures
            match r {
                Ok(()) => self.kind.fault(kind) is None,
                Err(e) => self.kind.fault(kind) == Some(e.reason) && e.route@ == self.route@,
            },
    {
        let checked = match &self.kind {
            RouteKind::Dir(dir) => dir.validate(kind),
            RouteKind::File(file) => file.validate(kind),
            RouteKind::Proxy(proxy) => proxy.validate(),
            RouteKind::Json(json) => json.validate(kind),
            RouteKind::Mock(mock) => mock.validate(),
        };
        match checked {
            Ok(()) => Ok(()),
            Err(reason) => Err(ConfigError { route: String::from_str(self.route.path()), reason }),
        }
    }
}

/// What the file system holds at the path of route `i`, as far as `kinds`
/// says; nothing where it is silent.
pub open spec fn probed(kinds: Seq<PathKind>, i: int) -> PathKind {
    if 0 <= i < kinds.len() {
        kinds[i]
    } else {
        PathKind::Missing
    }
}

impl Config {
    /// Checks the routes in order and reports the first that is not
    /// acceptable. `kinds` tells, route by route, what the file system holds
    /// at the route's path.
    pub fn validate(&self, kinds: &Vec<PathKind>) -> (r: Result<(), ConfigError>)
        ensures
            match r {
                Ok(()) => forall|i: int|
                    0 <= i < self.routes.len() ==> (#[trigger] self.routes[i]).kind.fault(
                        probed(kinds@, i),
                    ) is None,
                Err(e) => exists|i: int|
                    {
                        &&& 0 <= i < self.routes.len()
                        &&& forall|j: int|
                            0 <= j < i ==> (#[trigger] self.routes[j]).kind.fault(
                                probed(kinds@, j),
                            ) is None
                        &&& (#[trigger] self.routes[i]).kind.fault(probed(kinds@, i)) == Some(
                            e.reason,
                        )
                        &&& e.route@ == self.routes[i].route@
                    },
            },
    {
        let mut i: usize = 0;
        while i < self.routes.len()
            invariant
                i <= self.routes.len(),
                forall|j: int|
                    0 <= j < i ==> (#[trigger] self.routes[j]).kind.fault(probed(kinds@, j))
                        is None,
            decreases self.routes.len() - i,
        {
            let kind = if i < kinds.len() {
                kinds[i]
            } else {
                PathKind::Missing
            };
            match self.routes[i].validate(kind) {
                Ok(()) => {},
                Err(e) => {
                    return Err(e);
                },
            }
            i = i + 1;
        }
        Ok(())
    }
}

} // verus!
