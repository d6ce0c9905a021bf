use vstd::prelude::*;
use vstd::string::*;

verus! {

/// A module specifier, classified by its shape.
#[derive(Hash, PartialEq, Eq, Debug)]
pub enum Request {
    /// A path from the directory of the requesting file: `./..` or `../..`.
    Relative { path: String },
    /// A module by its name, and a path inside it.
    Module { module: String, path: String },
    /// A path from the root of the server: `/..`.
    ServerRelative { path: String },
    /// A Windows path.
    Windows { path: String },
    /// The empty specifier.
    Empty,
    /// A path inside the requesting package: `#..`.
    PackageInternal { path: String },
    /// A URI, as its protocol and what follows it.
    Uri { protocol: String, remainer: String },
    /// A specifier of no known shape.
    Unknown { path: String },
}

impl Clone for Request {
    fn clone(&self) -> (r: Request)
        ensures
            r@ == self@,
    {
        match self {
            Request::Relative { path } => Request::Relative { path: path.clone() },
            Request::Module { module, path } => Request::Module {
                module: module.clone(),
                path: path.clone(),
            },
            Request::ServerRelative { path } => Request::ServerRelative { path: path.clone() },
            Request::Windows { path } => Request::Windows { path: path.clone() },
            Request::Empty => Request::Empty,
            Request::PackageInternal { path } => Request::PackageInternal { path: path.clone() },
            Request::Uri { protocol, remainer } => Request::Uri {
                protocol: protocol.clone(),
                remainer: remainer.clone(),
            },
            Request::Unknown { path } => Request::Unknown { path: path.clone() },
        }
    }
}

/// The mathematical value of a [`Request`]: the same shapes over character sequences.
pub ghost enum RequestView {
    Relative { path: Seq<char> },
    Module { module: Seq<char>, path: Seq<char> },
    ServerRelative { path: Seq<char> },
    Windows { path: Seq<char> },
    Empty,
    PackageInternal { path: Seq<char> },
    Uri { protocol: Seq<char>, remainer: Seq<char> },
    Unknown { path: Seq<char> },
}

impl View for Request {
    type V = RequestView;

    open spec fn view(&self) -> RequestView {
        match self {
            Request::Relative { path } => RequestView::Relative { path: path@ },
            Request::Module { module, path } => RequestView::Module {
                module: module@,
                path: path@,
            },
            Request::ServerRelative { path } => RequestView::ServerRelative { path: path@ },
            Request::Windows { path } => RequestView::Windows { path: path@ },
            Request::Empty => RequestView::Empty,
            Request::PackageInternal { path } => RequestView::PackageInternal { path: path@ },
            Request::Uri { protocol, remainer } => RequestView::Uri {
                protocol: protocol@,
                remainer: remainer@,
            },
            Request::Unknown { path } => RequestView::Unknown { path: path@ },
        }
    }
}

impl RequestView {
    /// The specifier text that this request stands for.
    pub open spec fn request(self) -> Seq<char> {
        match self {
            RequestView::Relative { path } => path,
            RequestView::Module { module, path } => module + path,
            RequestView::ServerRelative { path } => path,
            RequestView::Windows { path } => path,
            RequestView::Empty => Seq::empty(),
            RequestView::PackageInternal { path } => path,
            RequestView::Uri { protocol, remainer } => protocol + remainer,
            RequestView::Unknown { path } => path,
        }
    }

    /// The text that describes this request to a reader: the name of its shape, then its
    /// parts in quotes.
    pub open spec fn display(self) -> Seq<char> {
        match self {
            RequestView::Relative { path } => "relative '"@ + path + "'"@,
            RequestView::Module { module, path } => if path.len() == 0 {
                "module '"@ + module + "'"@
            } else {
                "module '"@ + module + "' with subpath '"@ + path + "'"@
            },
            RequestView::ServerRelative { path } => "server relative '"@ + path + "'"@,
            RequestView::Windows { path } => "windows '"@ + path + "'"@,
            RequestView::Empty => "empty"@,
            RequestView::PackageInternal { path } => "package internal '"@ + path + "'"@,
            RequestView::Uri { protocol, remainer } => "uri '"@ + protocol + "' '"@ + remainer
                + "'"@,
            RequestView::Unknown { path } => "unknown '"@ + path + "'"@,
        }
    }
}

/// `head`, then `body`, then a closing quote.
fn quoted(head: &str, body: &str) -> (r: String)
    ensures
        r@ == head@ + body@ + "'"@,
{
    let mut out = String::from_str(head);
    out.append(body);
    out.append("'");
    out
}

impl Request {
    /// Describes the request to a reader: the name of its shape, then its parts in quotes.
    pub fn to_string(&self) -> (r: String)
        ensures
            r@ == self@.display(),
    {
        match self {
            Request::Relative { path } => quoted("relative '", path.as_str()),
            Request::Module { module, path } => {
                if path.as_str().is_empty() {
                    quoted("module '", module.as_str())
                } else {
                    let mut out = String::from_str("module '");
                    out.append(module.as_str());
                    out.append("' with subpath '");
                    out.append(path.as_str());
                    out.append("'");
                    out
                }
            },
            Request::ServerRelative { path } => quoted("server relative '", path.as_str()),
            Request::Windows { path } => quoted("windows '", path.as_str()),
            Request::Empty => String::from_str("empty"),
            Request::PackageInternal { path } => quoted("package internal '", path.as_str()),
            Request::Uri { protocol, remainer } => {
                let mut out = String::from_str("uri '");
                out.append(protocol.as_str());
                out.append("' '");
                out.append(remainer.as_str());
                out.append("'");
                out
            },
            Request::Unknown { path } => quoted("unknown '", path.as_str()),
        }
    }

    /// Gives back the specifier text: the parts of the request, joined.
    pub fn request(&self) -> (r: String)
        ensures
            r@ == self@.request(),
    {
        match self {
            Request::Relative { path } => path.clone(),
            Request::Module { module, path } => module.clone().concat(path.as_str()),
            Request::ServerRelative { path } => path.clone(),
            Request::Windows { path } => path.clone(),
            Request::Empty => String::new(),
            Request::PackageInternal { path } => path.clone(),
            Request::Uri { protocol, remainer } => protocol.clone().concat(remainer.as_str()),
            Request::Unknown { path } => path.clone(),
        }
    }
}

/// Pattern of a Windows path: a drive letter with `:\`, or a leading `\\`.
pub const WINDOWS_PATH: &'static str = r"^([A-Za-z]:\\|\\\\)";

/// Pattern of a URI: a protocol that ends in `:`, and a remainder that starts with `/`.
pub const URI_PATH: &'static str = r"^([^/\\]+:)(/.+)$";

/// Pattern of a bare module specifier: a name, with its scope if it has one, and a subpath.
pub const MODULE_PATH: &'static str = r"^((?:@[^/]+/)?[^/]+)(.*)$";

/// Whether the regular expression `pattern` matches somewhere in `haystack`;
/// `None` where the pattern is not accepted as a regular expression.
pub uninterp spec fn regex_is_match(pattern: Seq<char>, haystack: Seq<char>) -> Option<bool>;

/// The capture groups of the first match of the regular expression `pattern` in `haystack`:
/// the text of each group by its index, `None` for a group that took no part in the match.
/// The inner `None` stands for no match, the outer one for a pattern that is not accepted.
pub uninterp spec fn regex_captures(pattern: Seq<char>, haystack: Seq<char>) -> Option<
    Option<Seq<Option<Seq<char>>>>,
>;

/// Calls `regex::Regex::new` on `pattern` and `regex::Regex::is_match` on the result.
/// Trusted: the outcome depends on the two texts alone.
#[verifier::external_body]
fn is_match(pattern: &str, haystack: &str) -> (r: Option<bool>)
    ensures
        r == regex_is_match(pattern@, haystack@),
{
    match regex::Regex::new(pattern) {
        Ok(re) => Some(re.is_match(haystack)),
        Err(_) => None,
    }
}

/// Calls `regex::Regex::new` on `pattern` and `regex::Regex::captures` on the result, and
/// copies out the text of every group. Trusted: the outcome depends on the two texts alone.
#[verifier::external_body]
fn captures(pattern: &str, haystack: &str) -> (r: Option<Option<Vec<Option<String>>>>)
    ensures
        r.deep_view() == regex_captures(pattern@, haystack@),
{
    match regex::Regex::new(pattern) {
        Ok(re) => Some(
            re.captures(haystack).map(
                |caps| caps.iter().map(|group| group.map(|m| m.as_str().to_string())).collect(),
            ),
        ),
        Err(_) => None,
    }
}

/// The capture groups that a search may have found (see [`regex_captures`]).
pub type Captured = Option<Option<Seq<Option<Seq<char>>>>>;

/// The texts of the first and the second group, where a match was found and both took
/// part in it.
pub open spec fn two_groups(found: Captured) -> Option<(Seq<char>, Seq<char>)> {
    match found {
        Some(Some(groups)) => if groups.len() > 2 && groups[1] is Some && groups[2] is Some {
            Some((groups[1]->0, groups[2]->0))
        } else {
            None
        },
        _ => None,
    }
}

/// The shape of a specifier that none of the prefix tests has recognised, from what the
/// three patterns found in it.
pub open spec fn by_patterns(
    s: Seq<char>,
    windows: Option<bool>,
    uri: Captured,
    module: Captured,
) -> RequestView {
    if windows == Some(true) {
        RequestView::Windows { path: s }
    } else if let Some((protocol, remainer)) = two_groups(uri) {
        RequestView::Uri { protocol, remainer }
    } else if let Some((module, path)) = two_groups(module) {
        RequestView::Module { module, path }
    } else {
        RequestView::Unknown { path: s }
    }
}

/// The shape that the prefix of a specifier decides, if it decides one.
pub open spec fn by_prefix(s: Seq<char>) -> Option<RequestView> {
    if s.len() == 0 {
        Some(RequestView::Empty)
    } else if "/"@.is_prefix_of(s) {
        Some(RequestView::ServerRelative { path: s })
    } else if "#"@.is_prefix_of(s) {
        Some(RequestView::PackageInternal { path: s })
    } else if "./"@.is_prefix_of(s) || "../"@.is_prefix_of(s) {
        Some(RequestView::Relative { path: s })
    } else {
        None
    }
}

/// The shape of the specifier `s`.
pub open spec fn parsed(s: Seq<char>) -> RequestView {
    match by_prefix(s) {
        Some(shape) => shape,
        None => by_patterns(
            s,
            regex_is_match(WINDOWS_PATH@, s),
            regex_captures(URI_PATH@, s),
            regex_captures(MODULE_PATH@, s),
        ),
    }
}

/// Whether `s` begins with `prefix`.
fn starts_with(s: &str, prefix: &str) -> (r: bool)
    ensures
        r == prefix@.is_prefix_of(s@),
{
    let n = prefix.unicode_len();
    if s.unicode_len() < n {
        return false;
    }
    let mut i: usize = 0;
    while i < n
        invariant
            i <= n,
            n == prefix@.len(),
            n <= s@.len(),
            forall|j: int| 0 <= j < i ==> s@[j] == prefix@[j],
        decreases n - i,
    {
        if s.get_char(i) != prefix.get_char(i) {
            return false;
        }
        i += 1;
    }
    true
}

/// Takes the first and the second group out of what a search found.
fn take_two_groups(found: Option<Option<Vec<Option<String>>>>) -> (r: Option<(String, String)>)
    ensures
        r.deep_view() == two_groups(found.deep_view()),
{
    match found {
        Some(Some(groups)) => {
            if groups.len() > 2 {
                match (&groups[1], &groups[2]) {
                    (Some(first), Some(second)) => Some((first.clone(), second.clone())),
                    _ => None,
                }
            } else {
                None
            }
        },
        _ => None,
    }
}

impl Request {
    /// Classifies `request` by what the three patterns found in it: the answer of
    /// [`WINDOWS_PATH`], the groups of [`URI_PATH`] and the groups of [`MODULE_PATH`].
    /// The first pattern that matched decides; a specifier that none matched is unknown.
    pub fn from_matches(
        request: String,
        windows: Option<bool>,
        uri: Option<Option<Vec<Option<String>>>>,
        module: Option<Option<Vec<Option<String>>>>,
    ) -> (r: Request)
        ensures
            r@ == by_patterns(request@, windows, uri.deep_view(), module.deep_view()),
    {
        if let Some(true) = windows {
            return Request::Windows { path: request };
        }
        if let Some((protocol, remainer)) = take_two_groups(uri) {
            return Request::Uri { protocol, remainer };
        }
        if let Some((module, path)) = take_two_groups(module) {
            return Request::Module { module, path };
        }
        Request::Unknown { path: request }
    }

    /// Classifies a specifier by its shape. The prefix decides first: the empty specifier,
    /// then a leading `/`, a leading `#`, a leading `./` or `../`. After that the three
    /// patterns are tried in turn.
    pub fn parse(request: String) -> (r: Request)
        ensures
            r@ == parsed(request@),
    {
        if request.as_str().is_empty() {
            Request::Empty
        } else if starts_with(request.as_str(), "/") {
            Request::ServerRelative { path: request }
        } else if starts_with(request.as_str(), "#") {
            Request::PackageInternal { path: request }
        } else if starts_with(request.as_str(), "./") || starts_with(request.as_str(), "../") {
            Request::Relative { path: request }
        } else {
            let windows = is_match(WINDOWS_PATH, request.as_str());
            let uri = captures(URI_PATH, request.as_str());
            let module = captures(MODULE_PATH, request.as_str());
            Request::from_matches(request, windows, uri, module)
        }
    }
}

/// A specifier that is not taken apart is kept whole: unless it is classified as a URI
/// or as a module, its request gives the specifier back.
pub proof fn lemma_request_of_parsed(s: Seq<char>)
    ensures
        !(parsed(s) is Uri) && !(parsed(s) is Module) ==> parsed(s).request() == s,
{
}

} // verus!
