//! HTTP methods and the filters that routes put on them.

use vstd::prelude::*;

verus! {

/// Whether `c` may occur in a method token.
pub open spec fn is_method_char(c: char) -> bool {
    ||| 'a' <= c <= 'z'
    ||| 'A' <= c <= 'Z'
    ||| '0' <= c <= '9'
    ||| c == '!'
    ||| c == '*'
    ||| c == '+'
    ||| c == '-'
    ||| c == '.'
    ||| c == '^'
    ||| c == '_'
    ||| c == '`'
    ||| c == '|'
    ||| c == '~'
}

/// Whether `token` names a method: it is not empty and holds token
/// characters only.
pub open spec fn is_method_token(token: Seq<char>) -> bool {
    &&& token.len() > 0
    &&& forall|i: int| 0 <= i < token.len() ==> is_method_char(#[trigger] token[i])
}

/// The upper-case form of an ASCII letter; any other character unchanged.
pub open spec fn ascii_upper(c: char) -> char {
    if 'a' <= c <= 'z' {
        ((c as u8) - 32) as u8 as char
    } else {
        c
    }
}

/// `text` with its ASCII letters in upper case.
pub open spec fn ascii_uppercase(text: Seq<char>) -> Seq<char> {
    Seq::new(text.len(), |i: int| ascii_upper(text[i]))
}

/// `http::Method::from_bytes` accepts the bytes of `token` exactly when they
/// are a method token: at least one byte, each of them a letter, a digit or
/// one of ``! * + - . ^ _ ` | ~``.
#[verifier::external_body]
fn is_http_method(token: &str) -> (r: bool)
    ensures
        r == is_method_token(token@),
{
    http::Method::from_bytes(token.as_bytes()).is_ok()
}

/// `str::to_ascii_uppercase`: a copy with each ASCII letter in upper case.
#[verifier::external_body]
fn to_ascii_uppercase(text: &str) -> (r: String)
    ensures
        r@ == ascii_uppercase(text@),
{
    text.to_ascii_uppercase()
}

/// A method name that is not a token.
#[derive(Debug, PartialEq, Eq, Structural)]
pub struct InvalidMethod;

impl InvalidMethod {
    /// A description of the error.
    pub fn message(&self) -> (r: String)
        ensures
            r@ == "invalid HTTP method"@,
    {
        String::from_str("invalid HTTP method")
    }
}

/// An HTTP method, held as its token. Tokens are case-sensitive.
#[derive(Debug)]
pub struct Method {
    token: String,
}

impl View for Method {
    type V = Seq<char>;

    closed spec fn view(&self) -> Seq<char> {
        self.token@
    }
}

impl Clone for Method {
    fn clone(&self) -> (r: Method)
        ensures
            r@ == self@,
    {
        proof {
            use_type_invariant(self);
        }
        Method { token: self.token.clone() }
    }
}

impl Method {
    #[verifier::type_invariant]
    spec fn well_formed(&self) -> bool {
        is_method_token(self.token@)
    }

    /// The method named by `token`, where `token` is a method token.
    pub fn new(token: &str) -> (r: Option<Method>)
        ensures
            r is Some <==> is_method_token(token@),
            r matches Some(m) ==> m@ == token@,
    {
        if is_http_method(token) {
            Some(Method { token: String::from_str(token) })
        } else {
            None
        }
    }

    /// `GET`.
    pub fn get() -> (r: Method)
        ensures
            r@ == "GET"@,
    {
        proof {
            reveal_strlit("GET");
        }
        Method { token: String::from_str("GET") }
    }

    /// `PATCH`.
    pub fn patch() -> (r: Method)
        ensures
            r@ == "PATCH"@,
    {
        proof {
            reveal_strlit("PATCH");
        }
        Method { token: String::from_str("PATCH") }
    }

    /// The token.
    pub fn as_str(&self) -> (r: &str)
        ensures
            r@ == self@,
            is_method_token(r@),
    {
        proof {
            use_type_invariant(self);
        }
        self.token.as_str()
    }

    /// Whether two methods have the same token.
    pub fn same(&self, other: &Method) -> (r: bool)
        ensures
            r == (self@ == other@),
    {
        self.token == other.token
    }
}

/// Reads a configured method name, whatever its case.
pub fn parse_http_method(string: String) -> (r: Result<Method, InvalidMethod>)
    ensures
        r is Ok <==> is_method_token(ascii_uppercase(string@)),
        r matches Ok(m) ==> m@ == ascii_uppercase(string@),
{
    let upper = to_ascii_uppercase(string.as_str());
    match Method::new(upper.as_str()) {
        Some(method) => Ok(method),
        None => Err(InvalidMethod),
    }
}

/// An explicit set of methods.
#[derive(Debug)]
pub struct MethodSet {
    set: Vec<Method>,
}

/// The tokens of a list of methods.
pub open spec fn method_tokens(list: Seq<Method>) -> Set<Seq<char>> {
    Set::new(|token: Seq<char>| exists|i: int| 0 <= i < list.len() && #[trigger] list[i]@ == token)
}

impl View for MethodSet {
    type V = Set<Seq<char>>;

    /// The tokens of the methods in the set.
    closed spec fn view(&self) -> Set<Seq<char>> {
        method_tokens(self.set@)
    }
}

impl MethodSet {
    #[verifier::type_invariant]
    spec fn no_duplicates(&self) -> bool {
        forall|i: int, j: int|
            0 <= i < j < self.set.len() ==> (#[trigger] self.set[i])@ != (#[trigger] self.set[j])@
    }

    /// The empty set.
    pub fn new() -> (r: MethodSet)
        ensures
            r@ == Set::<Seq<char>>::empty(),
    {
        let r = MethodSet { set: Vec::new() };
        assert(r@ =~= Set::<Seq<char>>::empty());
        r
    }

    /// Whether `method` is in the set.
    pub fn is_match(&self, method: &Method) -> (r: bool)
        ensures
            r == self@.contains(method@),
    {
        let mut i: usize = 0;
        while i < self.set.len()
            invariant
                i <= self.set.len(),
                forall|j: int| 0 <= j < i ==> (#[trigger] self.set[j])@ != method@,
            decreases self.set.len() - i,
        {
            if self.set[i].same(method) {
                return true;
            }
            i = i + 1;
        }
        false
    }

    /// Adds `method` to the set.
    pub fn insert(&mut self, method: Method)
        ensures
            final(self)@ == old(self)@.insert(method@),
    {
        proof {
            use_type_invariant(&*self);
        }
        if !self.is_match(&method) {
            let mut taken = MethodSet::new();
            core::mem::swap(self, &mut taken);
            proof {
                use_type_invariant(&taken);
            }
            let mut set = taken.set;
            let ghost before = set@;
            set.push(method);
            proof {
                assert forall|token: Seq<char>|
                    method_tokens(set@).contains(token) <==> method_tokens(before).insert(
                        method@,
                    ).contains(token) by {
                    if method_tokens(before).contains(token) {
                        let i = choose|i: int| 0 <= i < before.len() && #[trigger] before[i]@ == token;
                        assert(set@[i]@ == token);
                    }
                    if token == method@ {
                        assert(set@[before.len() as int]@ == token);
                    }
                }
                assert(method_tokens(set@) =~= method_tokens(before).insert(method@));
                assert forall|i: int, j: int| 0 <= i < j < set.len() implies (#[trigger] set[i])@
                    != (#[trigger] set[j])@ by {
                    if j == before.len() {
                        assert(before[i]@ != method@);
                    }
                }
            }
            *self = MethodSet { set };
        } else {
            assert(self@ =~= self@.insert(method@));
        }
    }

    /// The set of the methods that `names` hold, read whatever their case. It
    /// fails where one of them is no method token.
    pub fn parse(names: Vec<String>) -> (r: Result<MethodSet, InvalidMethod>)
        ensures
            r is Ok <==> forall|i: int|
                0 <= i < names.len() ==> is_method_token(ascii_uppercase(#[trigger] names[i]@)),
            r matches Ok(set) ==> forall|token: Seq<char>|
                set@.contains(token) <==> exists|i: int|
                    0 <= i < names.len() && ascii_uppercase(#[trigger] names[i]@) == token,
    {
        let mut set = MethodSet::new();
        let mut i: usize = 0;
        while i < names.len()
            invariant
                i <= names.len(),
                forall|j: int|
                    0 <= j < i ==> is_method_token(ascii_uppercase(#[trigger] names[j]@)),
                forall|token: Seq<char>|
                    set@.contains(token) <==> exists|j: int|
                        0 <= j < i && ascii_uppercase(#[trigger] names[j]@) == token,
            decreases names.len() - i,
        {
            let name = names[i].clone();
            match parse_http_method(name) {
                Ok(method) => {
                    let ghost before = set@;
                    set.insert(method);
                    proof {
                        assert forall|token: Seq<char>|
                            set@.contains(token) <==> exists|j: int|
                                0 <= j < i + 1 && ascii_uppercase(#[trigger] names[j]@)
                                    == token by {
                            if before.contains(token) {
                                let j = choose|j: int|
                                    0 <= j < i && ascii_uppercase(#[trigger] names[j]@) == token;
                                assert(0 <= j < i + 1 && ascii_uppercase(names[j]@) == token);
                            }
                            if token == method@ {
                                assert(ascii_uppercase(names[i as int]@) == token);
                            }
                        }
                    }
                },
                Err(e) => {
                    return Err(e);
                },
            }
            i = i + 1;
        }
        Ok(set)
    }
}

/// Which methods a route takes.
#[derive(Debug)]
pub enum MethodFilter {
    /// Every method.
    MatchAny,
    /// The methods of the set.
    MatchSet(MethodSet),
}

impl MethodFilter {
    /// Whether the filter lets `method` through.
    pub open spec fn matches(&self, method: Seq<char>) -> bool {
        match self {
            MethodFilter::MatchAny => true,
            MethodFilter::MatchSet(set) => set@.contains(method),
        }
    }

    /// Whether the filter lets `method` through.
    pub fn is_match(&self, method: &Method) -> (r: bool)
        ensures
            r == self.matches(method@),
    {
        match self {
            MethodFilter::MatchAny => true,
            MethodFilter::MatchSet(set) => set.is_match(method),
        }
    }
}

/// The filter that lets every method through.
pub fn any() -> (r: MethodFilter)
    ensures
        r == MethodFilter::MatchAny,
{
    MethodFilter::MatchAny
}

} // verus!
